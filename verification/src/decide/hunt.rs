//! Settings of the hunt: how to attack, how far to look, when to teleport.
use crate::action::screen_target::PlayerPosition;
use crate::action::walk::WalkDriver;
use crate::text::{trim, trim_str, trimmed};
use vstd::prelude::*;

verus! {

/// More configured steps than this are ignored.
pub const MAX_ATTACK_SEQUENCE_STEPS: usize = 6;

/// Reach of a melee weapon, in tiles.
pub const MELEE_RANGE_TILES: u32 = 1;

/// Reach of a ranged weapon, in tiles.
pub const RANGED_RANGE_TILES: u32 = 8;

/// What a step of the attack sequence does.
#[derive(Debug, Clone, Copy, PartialEq, Eq, Structural)]
pub enum AttackStepKind {
    Basic,
    Skill,
}

impl Default for AttackStepKind {
    fn default() -> (r: Self)
        ensures
            r == AttackStepKind::Basic,
    {
        AttackStepKind::Basic
    }
}

/// A step of the attack sequence.
#[derive(Debug, PartialEq, Eq)]
pub struct AttackSequenceStep {
    pub kind: AttackStepKind,
    pub skill_name: String,
    pub interval_ms: u64,
}

impl Clone for AttackSequenceStep {
    fn clone(&self) -> (r: Self)
        ensures
            r == *self,
    {
        AttackSequenceStep {
            kind: self.kind,
            skill_name: self.skill_name.clone(),
            interval_ms: self.interval_ms,
        }
    }
}

/// A step as a value: its kind, the characters of its skill name, its interval.
pub struct StepView {
    pub kind: AttackStepKind,
    pub skill_name: Seq<char>,
    pub interval_ms: u64,
}

impl View for AttackSequenceStep {
    type V = StepView;

    open spec fn view(&self) -> StepView {
        StepView {
            kind: self.kind,
            skill_name: self.skill_name@,
            interval_ms: self.interval_ms,
        }
    }
}

pub open spec fn basic_step(interval_ms: u64) -> StepView {
    StepView { kind: AttackStepKind::Basic, skill_name: seq![], interval_ms }
}

pub open spec fn skill_step(name: Seq<char>, interval_ms: u64) -> StepView {
    StepView { kind: AttackStepKind::Skill, skill_name: name, interval_ms }
}

/// A step as it is carried out: skill names are trimmed, and a skill without a
/// name is a basic attack.
pub open spec fn normal_step(step: StepView) -> StepView {
    if step.kind is Skill && trim(step.skill_name).len() > 0 {
        skill_step(trim(step.skill_name), step.interval_ms)
    } else {
        basic_step(step.interval_ms)
    }
}

/// The skill that a step waits for, if it is a skill with a name.
pub open spec fn cd_skill(step: StepView) -> Option<Seq<char>> {
    if step.kind is Skill && trim(step.skill_name).len() > 0 {
        Some(trim(step.skill_name))
    } else {
        None
    }
}

impl AttackSequenceStep {
    pub fn basic(interval_ms: u64) -> (r: Self)
        ensures
            r@ == basic_step(interval_ms),
    {
        AttackSequenceStep {
            kind: AttackStepKind::Basic,
            skill_name: String::new(),
            interval_ms,
        }
    }

    pub fn skill(skill_name: String, interval_ms: u64) -> (r: Self)
        ensures
            r@ == skill_step(skill_name@, interval_ms),
    {
        AttackSequenceStep { kind: AttackStepKind::Skill, skill_name, interval_ms }
    }

    /// The step as it is carried out.
    pub fn normalized(&self) -> (r: Self)
        ensures
            r@ == normal_step(self@),
    {
        match self.kind {
            AttackStepKind::Basic => AttackSequenceStep::basic(self.interval_ms),
            AttackStepKind::Skill => {
                let name: String = trimmed(self.skill_name.as_str());
                if name.as_str().is_empty() {
                    AttackSequenceStep::basic(self.interval_ms)
                } else {
                    AttackSequenceStep::skill(name, self.interval_ms)
                }
            },
        }
    }

    /// The trimmed skill name, where the step is a skill that has one.
    pub fn skill_for_cd(&self) -> (r: Option<&str>)
        ensures
            match r {
                Some(name) => cd_skill(self@) == Some(name@),
                None => cd_skill(self@) is None,
            },
    {
        if self.kind == AttackStepKind::Skill {
            let name: &str = trim_str(self.skill_name.as_str());
            if !name.is_empty() {
                return Some(name);
            }
        }
        None
    }
}

/// A step that has been brought into normal form stays as it is.
pub proof fn law_normal_step_idempotent(step: StepView)
    ensures
        normal_step(normal_step(step)) == normal_step(step),
        cd_skill(normal_step(step)) == cd_skill(step),
{
    crate::text::law_trim_idempotent(step.skill_name);
}

/// Settings of the hunt.
#[derive(Debug, Clone)]
pub struct HuntConfig {
    /// Targets farther than this many tiles are ignored; 0 sets no limit.
    pub hunt_range_tiles: u32,
    /// Names, or beginnings of names, of monsters to leave alone.
    pub monster_blacklist: Vec<String>,
    /// Skill of older settings, used where no sequence is configured.
    pub skill_name: String,
    /// The configured attack sequence.
    pub attack_sequence: Vec<AttackSequenceStep>,
    /// Least duration of one round of the sequence; 0 for none.
    pub attack_sequence_cycle_ms: u64,
    /// Name of the teleport scroll to use.
    pub teleport_scroll_name: String,
    /// Time without a target after which to teleport; 0 for at once.
    pub idle_teleport_secs: u64,
    pub walk_driver: WalkDriver,
    /// Whether the planner may dispatch in place of the state machine.
    pub v4_dispatch_takeover: bool,
    /// A loss of this share of all hit points in one tick counts as a spike.
    pub damage_spike_hp_percent: u8,
}

pub fn default_hunt_range_tiles() -> (r: u32)
    ensures
        r == 0,
{
    0
}

pub fn default_idle_teleport_secs() -> (r: u64)
    ensures
        r == 10,
{
    10
}

pub fn default_damage_spike_hp_percent() -> (r: u8)
    ensures
        r == 10,
{
    10
}

pub fn default_v4_dispatch_takeover() -> (r: bool)
    ensures
        r,
{
    true
}

impl Default for HuntConfig {
    fn default() -> (r: Self)
        ensures
            r.hunt_range_tiles == 0,
            r.monster_blacklist@.len() == 0,
            r.skill_name@.len() == 0,
            r.attack_sequence@.len() == 0,
            r.attack_sequence_cycle_ms == 0,
            r.teleport_scroll_name@.len() == 0,
            r.idle_teleport_secs == 10,
            r.walk_driver == WalkDriver::PostMessage,
            r.v4_dispatch_takeover,
            r.damage_spike_hp_percent == 10,
    {
        HuntConfig {
            hunt_range_tiles: default_hunt_range_tiles(),
            monster_blacklist: Vec::new(),
            skill_name: String::new(),
            attack_sequence: Vec::new(),
            attack_sequence_cycle_ms: 0,
            teleport_scroll_name: String::new(),
            idle_teleport_secs: default_idle_teleport_secs(),
            walk_driver: WalkDriver::PostMessage,
            v4_dispatch_takeover: default_v4_dispatch_takeover(),
            damage_spike_hp_percent: default_damage_spike_hp_percent(),
        }
    }
}

/// The views of a list of steps.
pub open spec fn step_views(steps: Seq<AttackSequenceStep>) -> Seq<StepView> {
    Seq::new(steps.len(), |i: int| steps[i]@)
}

/// The sequence that is carried out: the first configured steps in normal
/// form; without any, the single skill of older settings, or a basic attack.
pub open spec fn effective_sequence(cfg: HuntConfig) -> Seq<StepView> {
    let n = if cfg.attack_sequence@.len() <= MAX_ATTACK_SEQUENCE_STEPS {
        cfg.attack_sequence@.len() as int
    } else {
        MAX_ATTACK_SEQUENCE_STEPS as int
    };
    if n > 0 {
        Seq::new(n as nat, |i: int| normal_step(cfg.attack_sequence@[i]@))
    } else if trim(cfg.skill_name@).len() == 0 {
        seq![basic_step(0)]
    } else {
        seq![skill_step(trim(cfg.skill_name@), 0)]
    }
}

impl HuntConfig {
    pub fn effective_attack_sequence(&self) -> (r: Vec<AttackSequenceStep>)
        ensures
            step_views(r@) == effective_sequence(*self),
            1 <= r@.len() <= MAX_ATTACK_SEQUENCE_STEPS,
    {
        let mut out: Vec<AttackSequenceStep> = Vec::new();
        let n: usize = if self.attack_sequence.len() <= MAX_ATTACK_SEQUENCE_STEPS {
            self.attack_sequence.len()
        } else {
            MAX_ATTACK_SEQUENCE_STEPS
        };
        let mut i: usize = 0;
        while i < n
            invariant
                i <= n,
                n <= self.attack_sequence@.len(),
                out@.len() == i,
                forall|j: int|
                    0 <= j < i ==> (#[trigger] out@[j])@ == normal_step(self.attack_sequence@[j]@),
            decreases n - i,
        {
            out.push(self.attack_sequence[i].normalized());
            i = i + 1;
        }
        if n > 0 {
            assert(step_views(out@) =~= effective_sequence(*self));
            return out;
        }
        let skill: String = trimmed(self.skill_name.as_str());
        if skill.as_str().is_empty() {
            out.push(AttackSequenceStep::basic(0));
        } else {
            out.push(AttackSequenceStep::skill(skill, 0));
        }
        assert(step_views(out@) =~= effective_sequence(*self));
        out
    }
}

/// The sequence that is carried out is never empty and never too long, and all
/// its steps are in normal form.
pub proof fn law_effective_sequence(cfg: HuntConfig)
    ensures
        1 <= effective_sequence(cfg).len() <= MAX_ATTACK_SEQUENCE_STEPS,
        forall|i: int|
            0 <= i < effective_sequence(cfg).len() ==> normal_step(
                #[trigger] effective_sequence(cfg)[i],
            ) == effective_sequence(cfg)[i],
{
    crate::text::law_trim_idempotent(cfg.skill_name@);
    assert forall|i: int| 0 <= i < effective_sequence(cfg).len() implies normal_step(
        #[trigger] effective_sequence(cfg)[i],
    ) == effective_sequence(cfg)[i] by {
        if cfg.attack_sequence@.len() > 0 {
            law_normal_step_idempotent(cfg.attack_sequence@[i]@);
        }
    }
}

/// What a tick of the hunt did.
#[derive(Debug)]
pub enum HuntOutcome {
    /// Waiting for a cooldown.
    Cooldown { remaining_ms: u64 },
    /// There was nothing to do.
    NoTarget,
    /// An attack was started.
    Cast { target_id: u32, name: String, player_pos: Option<PlayerPosition> },
    /// A step was taken.
    Walked { target_id: u32, name: String, heading: u8, distance_tiles: u32 },
    /// The action was refused.
    ActionFailed(String),
}

/// A sequence is used as it is set, up to its sixth step: a skill is one where it
/// names one, and anything else is a basic attack. Where none is set there is one
/// step, of the skill that is named or else basic.
pub proof fn law_sequence_as_set(cfg: HuntConfig, i: int)
    ensures
        ({
            let set = cfg.attack_sequence@;
            let used = effective_sequence(cfg);
            &&& set.len() == 0 ==> used.len() == 1 && used[0].interval_ms == 0
            &&& set.len() == 0 && trim(cfg.skill_name@).len() > 0 ==> used[0].kind is Skill
                && used[0].skill_name == trim(cfg.skill_name@)
            &&& set.len() == 0 && trim(cfg.skill_name@).len() == 0 ==> used[0].kind is Basic
            &&& 0 < set.len() <= 6 ==> used.len() == set.len()
            &&& set.len() > 6 ==> used.len() == 6
            &&& 0 <= i < set.len() && i < 6 ==> {
                &&& used[i].interval_ms == set[i].interval_ms
                &&& used[i].kind is Skill <==> set[i].kind is Skill && trim(
                    set[i].skill_name@,
                ).len() > 0
                &&& used[i].kind is Skill ==> used[i].skill_name == trim(set[i].skill_name@)
                &&& used[i].kind is Basic ==> used[i].skill_name.len() == 0
            }
        }),
{
}

/// A step casts the skill that it names, and a basic step none.
pub proof fn law_skill_of_step(step: StepView)
    ensures
        cd_skill(step) is Some <==> step.kind is Skill && trim(step.skill_name).len() > 0,
        cd_skill(step) is Some ==> cd_skill(step)->0 == trim(step.skill_name),
        MELEE_RANGE_TILES == 1,
        RANGED_RANGE_TILES == 8,
{
}

} // verus!
