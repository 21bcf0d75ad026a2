//! Settings of one character, and the file that holds them.
use crate::action::walk::WalkDriver;
use crate::decide::hunt::HuntConfig;
use vstd::prelude::*;

verus! {

/// Settings of the bot for one character.
#[derive(Debug, Clone)]
pub struct BotConfig {
    /// Whether to start hunting as soon as the character is in the game.
    pub master_enabled: bool,
    pub hunt: HuntConfig,
    pub death_stops_hunt: bool,
    pub disconnect_stops_hunt: bool,
    /// Seconds without any action after which the bot stops.
    pub stuck_timeout_secs: u32,
    pub walk_driver: WalkDriver,
}

impl Default for BotConfig {
    fn default() -> (r: Self)
        ensures
            !r.master_enabled,
            r.hunt.hunt_range_tiles == 0,
            r.hunt.monster_blacklist@.len() == 0,
            r.hunt.skill_name@.len() == 0,
            r.hunt.attack_sequence@.len() == 0,
            r.hunt.attack_sequence_cycle_ms == 0,
            r.hunt.teleport_scroll_name@.len() == 0,
            r.hunt.idle_teleport_secs == 10,
            r.hunt.v4_dispatch_takeover,
            r.hunt.damage_spike_hp_percent == 10,
            r.death_stops_hunt,
            r.disconnect_stops_hunt,
            r.stuck_timeout_secs == 30,
            r.walk_driver == WalkDriver::PostMessage,
            r.hunt.walk_driver == r.walk_driver,
    {
        BotConfig {
            master_enabled: false,
            hunt: HuntConfig::default(),
            death_stops_hunt: true,
            disconnect_stops_hunt: true,
            stuck_timeout_secs: 30,
            walk_driver: WalkDriver::PostMessage,
        }
    }
}

/// Characters that a file name cannot hold: the reserved ones and the control
/// characters.
pub open spec fn is_bad_char(c: char) -> bool {
    ||| c == '<'
    ||| c == '>'
    ||| c == ':'
    ||| c == '"'
    ||| c == '/'
    ||| c == '\\'
    ||| c == '|'
    ||| c == '?'
    ||| c == '*'
    ||| c <= '\u{1f}'
    ||| '\u{7f}' <= c <= '\u{9f}'
}

/// A name with every bad character replaced by an underscore.
pub open spec fn sanitized(name: Seq<char>) -> Seq<char> {
    name.map_values(
        |c: char|
            if is_bad_char(c) {
                '_'
            } else {
                c
            },
    )
}

fn bad_char(c: char) -> (r: bool)
    ensures
        r == is_bad_char(c),
{
    c == '<' || c == '>' || c == ':' || c == '"' || c == '/' || c == '\\' || c == '|' || c == '?'
        || c == '*' || c <= '\u{1f}' || ('\u{7f}' <= c && c <= '\u{9f}')
}

/// A name that a file can have.
pub fn sanitize_filename(name: &str) -> (r: String)
    ensures
        r@ == sanitized(name@),
{
    let mut out = String::new();
    let n: usize = name.unicode_len();
    let mut i: usize = 0;
    while i < n
        invariant
            i <= n,
            n == name@.len(),
            out@ == sanitized(name@.take(i as int)),
        decreases n - i,
    {
        let ghost before = out@;
        if bad_char(name.get_char(i)) {
            proof {
                reveal_strlit("_");
            }
            out.append("_");
        } else {
            out.append(name.substring_char(i, i + 1));
        }
        assert(name@.take(i + 1) =~= name@.take(i as int).push(name@[i as int]));
        assert(out@ =~= sanitized(name@.take(i + 1)));
        i = i + 1;
    }
    assert(name@.take(i as int) =~= name@);
    out
}

/// The name of the file with a character's settings.
pub fn profile_path_for(name: &str) -> (r: String)
    ensures
        r@ == sanitized(name@) + ".bot.json"@,
{
    let mut out: String = sanitize_filename(name);
    out.append(".bot.json");
    out
}

/// A sanitised name holds no bad character, has the length of the original, and
/// is left alone by sanitising it again.
pub proof fn law_sanitized(name: Seq<char>)
    ensures
        sanitized(name).len() == name.len(),
        forall|i: int| 0 <= i < name.len() ==> !is_bad_char(#[trigger] sanitized(name)[i]),
        sanitized(sanitized(name)) == sanitized(name),
{
    assert(sanitized(sanitized(name)) =~= sanitized(name));
}

/// The driver that is used for a configured one.
pub fn normalize_walk_driver(driver: WalkDriver) -> (r: WalkDriver)
    ensures
        r == driver,
{
    match driver {
        WalkDriver::PostMessage => WalkDriver::PostMessage,
    }
}

/// Settings as they are used after loading: the driver at the top counts for
/// the hunt too.
pub open spec fn loaded(cfg: BotConfig) -> BotConfig {
    BotConfig { hunt: HuntConfig { walk_driver: cfg.walk_driver, ..cfg.hunt }, ..cfg }
}

pub fn normalize_runtime_fields(cfg: BotConfig) -> (r: BotConfig)
    ensures
        r == loaded(cfg),
{
    let mut cfg = cfg;
    cfg.walk_driver = normalize_walk_driver(cfg.walk_driver);
    cfg.hunt.walk_driver = cfg.walk_driver;
    cfg
}

/// Settings as they are stored: the driver that the hunt used is kept at the
/// top.
pub open spec fn stored(cfg: BotConfig) -> BotConfig {
    BotConfig { walk_driver: cfg.hunt.walk_driver, ..cfg }
}

pub fn stored_form(cfg: BotConfig) -> (r: BotConfig)
    ensures
        r == stored(cfg),
{
    let mut cfg = cfg;
    cfg.walk_driver = cfg.hunt.walk_driver;
    cfg
}

/// What was stored is loaded: the settings that were stored, read back, are in
/// use as they were, and storing them again changes nothing.
pub proof fn law_stored_is_loaded(cfg: BotConfig)
    ensures
        loaded(stored(cfg)) == stored(cfg),
        loaded(stored(cfg)).hunt == cfg.hunt,
        stored(loaded(cfg)) == loaded(cfg),
{
}

/// A name is kept but for what no file may be called: each such character becomes
/// an underscore, and no other changes.
pub proof fn law_sanitized_one_by_one(name: Seq<char>, i: int)
    requires
        0 <= i < name.len(),
    ensures
        ({
            let c = name[i];
            let bad = c == '<' || c == '>' || c == ':' || c == '"' || c == '/' || c == '\\' || c
                == '|' || c == '?' || c == '*' || (c as int) < 32 || 127 <= (c as int) <= 159;
            &&& bad ==> sanitized(name)[i] == '_'
            &&& !bad ==> sanitized(name)[i] == c
        }),
{
}

/// The driver is kept once, with the settings of the bot, and counts for the hunt;
/// nothing else changes when settings are read or written.
pub proof fn law_driver_is_kept(cfg: BotConfig)
    ensures
        loaded(cfg).hunt.walk_driver == cfg.walk_driver,
        loaded(cfg).walk_driver == cfg.walk_driver,
        loaded(cfg).master_enabled == cfg.master_enabled,
        loaded(cfg).death_stops_hunt == cfg.death_stops_hunt,
        loaded(cfg).disconnect_stops_hunt == cfg.disconnect_stops_hunt,
        loaded(cfg).stuck_timeout_secs == cfg.stuck_timeout_secs,
        loaded(cfg).hunt.attack_sequence == cfg.hunt.attack_sequence,
        loaded(cfg).hunt.monster_blacklist == cfg.hunt.monster_blacklist,
        loaded(cfg).hunt.hunt_range_tiles == cfg.hunt.hunt_range_tiles,
        loaded(cfg).hunt.teleport_scroll_name == cfg.hunt.teleport_scroll_name,
        stored(cfg).walk_driver == cfg.hunt.walk_driver,
        stored(cfg).hunt == cfg.hunt,
        stored(cfg).master_enabled == cfg.master_enabled,
{
}

} // verus!
