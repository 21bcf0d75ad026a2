//! From an action to what is done about it, and how that went.
use crate::action::screen_target::PlayerPosition;
use crate::action::walk::WalkDriver;
use crate::hunt4::model::{EntityView, Snapshot};
use crate::hunt4::step::{Action, ActionView, LastOutcome};
use crate::text::{
    contains, contains_lowered, join, joined, occurs, occurs_at, occurs_lowered, same_text,
    starts_with, trim, trim_str,
};
use vstd::prelude::*;

verus! {

/// What is to be done in the game.
#[derive(Debug, PartialEq, Eq)]
pub enum DispatchIntent {
    Noop,
    Walk { target_x: i32, target_y: i32 },
    BootstrapAttack {
        target_id: u32,
        entity_ptr: u32,
        target_raw_x: u32,
        target_y: u32,
        fresh_target: bool,
    },
    CastSkill { skill_name: String, target_id: u32 },
    UseScroll { name_keyword: String },
    AttackLookupFailed { target_id: u32 },
}

/// An intent as a value.
pub enum IntentView {
    Noop,
    Walk { target_x: i32, target_y: i32 },
    BootstrapAttack {
        target_id: u32,
        entity_ptr: u32,
        target_raw_x: u32,
        target_y: u32,
        fresh_target: bool,
    },
    CastSkill { skill_name: Seq<char>, target_id: u32 },
    UseScroll { name_keyword: Seq<char> },
    AttackLookupFailed { target_id: u32 },
}

impl View for DispatchIntent {
    type V = IntentView;

    open spec fn view(&self) -> IntentView {
        match *self {
            DispatchIntent::Noop => IntentView::Noop,
            DispatchIntent::Walk { target_x, target_y } => IntentView::Walk { target_x, target_y },
            DispatchIntent::BootstrapAttack {
                target_id,
                entity_ptr,
                target_raw_x,
                target_y,
                fresh_target,
            } => IntentView::BootstrapAttack {
                target_id,
                entity_ptr,
                target_raw_x,
                target_y,
                fresh_target,
            },
            DispatchIntent::CastSkill { skill_name, target_id } => IntentView::CastSkill {
                skill_name: skill_name@,
                target_id,
            },
            DispatchIntent::UseScroll { name_keyword } => IntentView::UseScroll {
                name_keyword: name_keyword@,
            },
            DispatchIntent::AttackLookupFailed { target_id } => IntentView::AttackLookupFailed {
                target_id,
            },
        }
    }
}

impl Clone for DispatchIntent {
    fn clone(&self) -> (r: Self)
        ensures
            r == *self,
    {
        match self {
            DispatchIntent::Noop => DispatchIntent::Noop,
            DispatchIntent::Walk { target_x, target_y } => DispatchIntent::Walk {
                target_x: *target_x,
                target_y: *target_y,
            },
            DispatchIntent::BootstrapAttack {
                target_id,
                entity_ptr,
                target_raw_x,
                target_y,
                fresh_target,
            } => DispatchIntent::BootstrapAttack {
                target_id: *target_id,
                entity_ptr: *entity_ptr,
                target_raw_x: *target_raw_x,
                target_y: *target_y,
                fresh_target: *fresh_target,
            },
            DispatchIntent::CastSkill { skill_name, target_id } => DispatchIntent::CastSkill {
                skill_name: skill_name.clone(),
                target_id: *target_id,
            },
            DispatchIntent::UseScroll { name_keyword } => DispatchIntent::UseScroll {
                name_keyword: name_keyword.clone(),
            },
            DispatchIntent::AttackLookupFailed { target_id } => DispatchIntent::AttackLookupFailed {
                target_id: *target_id,
            },
        }
    }
}

/// Whether two intents are the same.
pub fn same_intent(a: &DispatchIntent, b: &DispatchIntent) -> (r: bool)
    ensures
        r == (a@ == b@),
{
    match (a, b) {
        (DispatchIntent::Noop, DispatchIntent::Noop) => true,
        (
            DispatchIntent::Walk { target_x: ax, target_y: ay },
            DispatchIntent::Walk { target_x: bx, target_y: by },
        ) => *ax == *bx && *ay == *by,
        (
            DispatchIntent::BootstrapAttack {
                target_id: ai,
                entity_ptr: ap,
                target_raw_x: ax,
                target_y: ay,
                fresh_target: af,
            },
            DispatchIntent::BootstrapAttack {
                target_id: bi,
                entity_ptr: bp,
                target_raw_x: bx,
                target_y: by,
                fresh_target: bf,
            },
        ) => *ai == *bi && *ap == *bp && *ax == *bx && *ay == *by && *af == *bf,
        (
            DispatchIntent::CastSkill { skill_name: an, target_id: ai },
            DispatchIntent::CastSkill { skill_name: bn, target_id: bi },
        ) => *ai == *bi && same_text(an.as_str(), bn.as_str()),
        (
            DispatchIntent::UseScroll { name_keyword: an },
            DispatchIntent::UseScroll { name_keyword: bn },
        ) => same_text(an.as_str(), bn.as_str()),
        (
            DispatchIntent::AttackLookupFailed { target_id: ai },
            DispatchIntent::AttackLookupFailed { target_id: bi },
        ) => *ai == *bi,
        _ => false,
    }
}

/// What must be known of earlier dispatches.
#[derive(Debug, Clone, Copy)]
pub struct DispatchState {
    /// The target on which the last attack was started.
    pub last_bootstrap_target: Option<u32>,
}

impl Default for DispatchState {
    fn default() -> (r: Self)
        ensures
            r.last_bootstrap_target is None,
    {
        DispatchState { last_bootstrap_target: None }
    }
}

/// The first live target with an id, and with an address where one is asked
/// for, from a position on.
pub open spec fn live_target(
    s: Seq<EntityView>,
    target_id: u32,
    entity_ptr: Option<u32>,
    from: int,
) -> Option<EntityView>
    decreases s.len() - from,
{
    if from < 0 || from >= s.len() {
        None
    } else if s[from].target_id == target_id && (entity_ptr is None || entity_ptr
        == Some(s[from].entity_ptr)) && s[from].live() {
        Some(s[from])
    } else {
        live_target(s, target_id, entity_ptr, from + 1)
    }
}

/// The live target with an id and an address, or else one with the id.
pub open spec fn attack_entity(s: Seq<EntityView>, target_id: u32, entity_ptr: u32) -> Option<
    EntityView,
> {
    match live_target(s, target_id, Some(entity_ptr), 0) {
        Some(e) => Some(e),
        None => live_target(s, target_id, None, 0),
    }
}

/// What is to be done about an action.
pub open spec fn intended(
    action: ActionView,
    entities: Seq<EntityView>,
    state: DispatchState,
) -> IntentView {
    match action {
        ActionView::Wait => IntentView::Noop,
        ActionView::WalkTo { tile } => IntentView::Walk { target_x: tile.0, target_y: tile.1 },
        ActionView::AttackTarget { target_id, entity_ptr, skill } => match attack_entity(
            entities,
            target_id,
            entity_ptr,
        ) {
            None => IntentView::AttackLookupFailed { target_id },
            Some(e) => if skill is Some && skill->0.len() > 0 {
                IntentView::CastSkill { skill_name: skill->0, target_id }
            } else {
                IntentView::BootstrapAttack {
                    target_id,
                    entity_ptr: e.entity_ptr,
                    target_raw_x: e.raw_x,
                    target_y: e.y,
                    fresh_target: state.last_bootstrap_target != Some(target_id),
                }
            },
        },
        ActionView::UseTeleportScroll { name_keyword } => IntentView::UseScroll { name_keyword },
    }
}

fn find_live(snapshot: &Snapshot, target_id: u32, entity_ptr: Option<u32>) -> (r: Option<
    &EntityView,
>)
    ensures
        match r {
            Some(e) => live_target(snapshot.entities@, target_id, entity_ptr, 0) == Some(*e),
            None => live_target(snapshot.entities@, target_id, entity_ptr, 0) is None,
        },
{
    let mut i: usize = 0;
    while i < snapshot.entities.len()
        invariant
            i <= snapshot.entities@.len(),
            live_target(snapshot.entities@, target_id, entity_ptr, 0) == live_target(
                snapshot.entities@,
                target_id,
                entity_ptr,
                i as int,
            ),
        decreases snapshot.entities@.len() - i,
    {
        let e: &EntityView = &snapshot.entities[i];
        let at: bool = match entity_ptr {
            Some(ptr) => e.entity_ptr == ptr,
            None => true,
        };
        if e.target_id == target_id && at && e.is_live_attackable() {
            return Some(e);
        }
        i = i + 1;
    }
    None
}

fn find_live_attack_entity(snapshot: &Snapshot, target_id: u32, entity_ptr: u32) -> (r: Option<
    &EntityView,
>)
    ensures
        match r {
            Some(e) => attack_entity(snapshot.entities@, target_id, entity_ptr) == Some(*e),
            None => attack_entity(snapshot.entities@, target_id, entity_ptr) is None,
        },
{
    match find_live(snapshot, target_id, Some(entity_ptr)) {
        Some(e) => Some(e),
        None => find_live(snapshot, target_id, None),
    }
}

/// What is to be done about an action.
pub fn intent_for(action: &Action, snapshot: &Snapshot, state: &DispatchState) -> (r: DispatchIntent)
    ensures
        r@ == intended(action@, snapshot.entities@, *state),
{
    match action {
        Action::Wait => DispatchIntent::Noop,
        Action::WalkTo { tile } => DispatchIntent::Walk { target_x: tile.0, target_y: tile.1 },
        Action::AttackTarget { target_id, entity_ptr, skill } => {
            match find_live_attack_entity(snapshot, *target_id, *entity_ptr) {
                None => DispatchIntent::AttackLookupFailed { target_id: *target_id },
                Some(e) => {
                    if let Some(name) = skill {
                        if !name.as_str().is_empty() {
                            return DispatchIntent::CastSkill {
                                skill_name: name.clone(),
                                target_id: *target_id,
                            };
                        }
                    }
                    let fresh: bool = match state.last_bootstrap_target {
                        Some(id) => id != *target_id,
                        None => true,
                    };
                    DispatchIntent::BootstrapAttack {
                        target_id: *target_id,
                        entity_ptr: e.entity_ptr,
                        target_raw_x: e.raw_x,
                        target_y: e.y,
                        fresh_target: fresh,
                    }
                },
            }
        },
        Action::UseTeleportScroll { name_keyword } => DispatchIntent::UseScroll {
            name_keyword: name_keyword.clone(),
        },
    }
}

/// An attack is only ever dispatched on a target that is alive and in sight;
/// otherwise the attack is reported as failed.
pub proof fn law_attacks_live_targets(
    entities: Seq<EntityView>,
    target_id: u32,
    entity_ptr: u32,
    skill: Option<Seq<char>>,
    state: DispatchState,
)
    ensures
        intended(
            ActionView::AttackTarget { target_id, entity_ptr, skill },
            entities,
            state,
        ) is AttackLookupFailed <==> forall|i: int|
            0 <= i < entities.len() ==> !((#[trigger] entities[i]).target_id == target_id
                && entities[i].live()),
{
    lemma_live_target(entities, target_id, Some(entity_ptr), 0);
    lemma_live_target(entities, target_id, None, 0);
}

proof fn lemma_live_target(
    s: Seq<EntityView>,
    target_id: u32,
    entity_ptr: Option<u32>,
    from: int,
)
    requires
        0 <= from <= s.len(),
    ensures
        match live_target(s, target_id, entity_ptr, from) {
            Some(e) => exists|i: int|
                from <= i < s.len() && #[trigger] s[i] == e && e.target_id == target_id && e.live(),
            None => forall|i: int|
                from <= i < s.len() ==> !((#[trigger] s[i]).target_id == target_id && (entity_ptr
                    is None || entity_ptr == Some(s[i].entity_ptr)) && s[i].live()),
        },
    decreases s.len() - from,
{
    if from < s.len() && !(s[from].target_id == target_id && (entity_ptr is None || entity_ptr
        == Some(s[from].entity_ptr)) && s[from].live()) {
        lemma_live_target(s, target_id, entity_ptr, from + 1);
    }
}

/// Whether a walk under way is broken off before an intent is carried out: only
/// another walk goes on from it.
pub fn should_release_walk_before_dispatch(intent: &DispatchIntent) -> (r: bool)
    ensures
        r == !(intent@ is Walk),
{
    match intent {
        DispatchIntent::Walk { .. } => false,
        _ => true,
    }
}

/// What has to be done outside for an intent.
#[derive(Debug, PartialEq, Eq)]
pub enum DispatchCommand {
    /// Nothing; the intent is settled.
    Settled,
    Walk { driver: WalkDriver, player: PlayerPosition, target_x: i32, target_y: i32 },
    StartAttack { entity_ptr: u32, target_raw_x: u32, target_y: u32, fresh_target: bool },
    CastSkill { skill_name: String, target_id: u32 },
    UseScroll { name_keyword: String },
}

/// What has to be done outside for an intent: one thing, and nothing where
/// there is nothing to do, or where the player's position is missing.
pub open spec fn is_command(
    c: DispatchCommand,
    intent: IntentView,
    player: Option<PlayerPosition>,
    walk_driver: WalkDriver,
) -> bool {
    match intent {
        IntentView::Noop => c is Settled,
        IntentView::Walk { target_x, target_y } => match player {
            Some(p) => c == (DispatchCommand::Walk {
                driver: walk_driver,
                player: p,
                target_x,
                target_y,
            }),
            None => c is Settled,
        },
        IntentView::BootstrapAttack { entity_ptr, target_raw_x, target_y, fresh_target, .. } => c
            == (DispatchCommand::StartAttack { entity_ptr, target_raw_x, target_y, fresh_target }),
        IntentView::CastSkill { skill_name, target_id } => c matches DispatchCommand::CastSkill {
            skill_name: name,
            target_id: id,
        } && name@ == skill_name && id == target_id,
        IntentView::UseScroll { name_keyword } => c matches DispatchCommand::UseScroll {
            name_keyword: keyword,
        } && keyword@ == name_keyword,
        IntentView::AttackLookupFailed { .. } => c is Settled,
    }
}

pub fn dispatch_command(
    intent: &DispatchIntent,
    player: Option<PlayerPosition>,
    walk_driver: WalkDriver,
) -> (r: DispatchCommand)
    ensures
        is_command(r, intent@, player, walk_driver),
{
    match intent {
        DispatchIntent::Noop => DispatchCommand::Settled,
        DispatchIntent::Walk { target_x, target_y } => match player {
            Some(p) => DispatchCommand::Walk {
                driver: walk_driver,
                player: p,
                target_x: *target_x,
                target_y: *target_y,
            },
            None => DispatchCommand::Settled,
        },
        DispatchIntent::BootstrapAttack {
            target_id,
            entity_ptr,
            target_raw_x,
            target_y,
            fresh_target,
        } => DispatchCommand::StartAttack {
            entity_ptr: *entity_ptr,
            target_raw_x: *target_raw_x,
            target_y: *target_y,
            fresh_target: *fresh_target,
        },
        DispatchIntent::CastSkill { skill_name, target_id } => DispatchCommand::CastSkill {
            skill_name: skill_name.clone(),
            target_id: *target_id,
        },
        DispatchIntent::UseScroll { name_keyword } => DispatchCommand::UseScroll {
            name_keyword: name_keyword.clone(),
        },
        DispatchIntent::AttackLookupFailed { target_id } => DispatchCommand::Settled,
    }
}

/// How an intent went, by whether what was done outside succeeded.
pub open spec fn dispatched(intent: IntentView, has_player: bool, done: bool) -> LastOutcome {
    match intent {
        IntentView::Noop => LastOutcome::NoOutcome,
        IntentView::Walk { target_x, target_y } => if has_player && done {
            LastOutcome::WalkOk
        } else {
            LastOutcome::WalkFailed { attempted_tile: (target_x, target_y) }
        },
        IntentView::BootstrapAttack { target_id, .. } => if done {
            LastOutcome::AttackOk { target_id }
        } else {
            LastOutcome::AttackFailed { target_id }
        },
        IntentView::CastSkill { target_id, .. } => if done {
            LastOutcome::AttackOk { target_id }
        } else {
            LastOutcome::AttackFailed { target_id }
        },
        IntentView::UseScroll { .. } => if done {
            LastOutcome::ScrollOk
        } else {
            LastOutcome::ScrollFailed
        },
        IntentView::AttackLookupFailed { target_id } => LastOutcome::AttackFailed { target_id },
    }
}

/// The target on which the last attack was started: a started attack sets it, a
/// skill or a scroll clears it.
pub open spec fn bootstrap_after(before: Option<u32>, intent: IntentView, done: bool) -> Option<u32> {
    match intent {
        IntentView::BootstrapAttack { target_id, .. } => if done {
            Some(target_id)
        } else {
            before
        },
        IntentView::CastSkill { .. } => None,
        IntentView::UseScroll { .. } => None,
        _ => before,
    }
}

/// Records how an intent went, once its command has been carried out.
pub fn dispatch(
    intent: &DispatchIntent,
    player: Option<PlayerPosition>,
    done: bool,
    state: &mut DispatchState,
) -> (r: LastOutcome)
    ensures
        r == dispatched(intent@, player is Some, done),
        final(state).last_bootstrap_target == bootstrap_after(
            old(state).last_bootstrap_target,
            intent@,
            done,
        ),
{
    match intent {
        DispatchIntent::Noop => LastOutcome::NoOutcome,
        DispatchIntent::Walk { target_x, target_y } => if player.is_some() && done {
            LastOutcome::WalkOk
        } else {
            LastOutcome::WalkFailed { attempted_tile: (*target_x, *target_y) }
        },
        DispatchIntent::BootstrapAttack { target_id, .. } => if done {
            state.last_bootstrap_target = Some(*target_id);
            LastOutcome::AttackOk { target_id: *target_id }
        } else {
            LastOutcome::AttackFailed { target_id: *target_id }
        },
        DispatchIntent::CastSkill { target_id, .. } => {
            state.last_bootstrap_target = None;
            if done {
                LastOutcome::AttackOk { target_id: *target_id }
            } else {
                LastOutcome::AttackFailed { target_id: *target_id }
            }
        },
        DispatchIntent::UseScroll { .. } => {
            state.last_bootstrap_target = None;
            if done {
                LastOutcome::ScrollOk
            } else {
                LastOutcome::ScrollFailed
            }
        },
        DispatchIntent::AttackLookupFailed { target_id } => LastOutcome::AttackFailed {
            target_id: *target_id,
        },
    }
}

/// After a started attack the same target is no longer fresh, until a skill or
/// a scroll comes between.
pub proof fn law_fresh_target(
    entities: Seq<EntityView>,
    target_id: u32,
    entity_ptr: u32,
    before: DispatchState,
    after: DispatchState,
    first: IntentView,
    done: bool,
)
    requires
        after.last_bootstrap_target == bootstrap_after(before.last_bootstrap_target, first, done),
    ensures
        match intended(
            ActionView::AttackTarget { target_id, entity_ptr, skill: None },
            entities,
            after,
        ) {
            IntentView::BootstrapAttack { fresh_target, .. } => {
                &&& (first matches IntentView::BootstrapAttack { target_id: id, .. } && id
                    == target_id && done) ==> !fresh_target
                &&& (first is CastSkill || first is UseScroll) ==> fresh_target
                &&& (first is Noop || first is Walk || first is AttackLookupFailed) ==> (
                fresh_target <==> before.last_bootstrap_target != Some(target_id))
            },
            _ => true,
        },
{
}

/// An item of the inventory, and whether it answers to the keyword looked for.
#[derive(Debug)]
pub struct ScrollItem {
    pub item_param: u32,
    pub item_type: u8,
    pub name: String,
    pub matches_keyword: bool,
}

/// Type of the items that are scrolls.
pub const SCROLL_ITEM_TYPE: u8 = 0x06;

/// A keyword that asks for a random teleport.
pub open spec fn asks_for_random_teleport(keyword: Seq<char>) -> bool {
    ||| occurs(keyword, "\u{77AC}"@)
    ||| occurs(keyword, "\u{50B3}"@)
    ||| occurs(keyword, "\u{96A8}\u{6A5F}"@)
    ||| occurs_lowered(keyword, "teleport"@)
}

/// A name that speaks of a blessing or a curse.
pub open spec fn is_blessed_or_cursed(name: Seq<char>) -> bool {
    ||| occurs(name, "\u{795D}"@)
    ||| occurs(name, "\u{5492}"@)
    ||| occurs(name, "\u{8A5B}"@)
    ||| occurs(name, "\u{87E1}"@)
}

/// A name that begins like that of a plain scroll.
pub open spec fn is_plain_scroll_name(name: Seq<char>) -> bool {
    ||| occurs_at(name, "\u{77AC}\u{9593}\u{79FB}\u{52D5}"@, 0)
    ||| occurs_at(name, "\u{50B3}\u{9001}"@, 0)
    ||| occurs_at(name, "\u{96A8}\u{6A5F}"@, 0)
}

/// Which scroll is used first, the lower the sooner: plain scrolls before
/// blessed or cursed ones, for a random teleport.
pub open spec fn scroll_priority(item_type: u8, name: Seq<char>, keyword: Seq<char>) -> u8 {
    if !asks_for_random_teleport(keyword) {
        0
    } else if item_type == SCROLL_ITEM_TYPE && is_plain_scroll_name(name)
        && !is_blessed_or_cursed(name) {
        0
    } else if item_type == SCROLL_ITEM_TYPE && !is_blessed_or_cursed(name) {
        1
    } else if is_plain_scroll_name(name) && !is_blessed_or_cursed(name) {
        2
    } else if item_type == SCROLL_ITEM_TYPE {
        3
    } else {
        4
    }
}

fn is_random_teleport_keyword(keyword: &str) -> (r: bool)
    ensures
        r == asks_for_random_teleport(keyword@),
{
    contains(keyword, "\u{77AC}") || contains(keyword, "\u{50B3}") || contains(
        keyword,
        "\u{96A8}\u{6A5F}",
    ) || contains_lowered(keyword, "teleport")
}

fn teleport_scroll_item_priority(item: &ScrollItem, keyword: &str) -> (r: u8)
    ensures
        r == scroll_priority(item.item_type, item.name@, keyword@),
{
    if !is_random_teleport_keyword(keyword) {
        return 0;
    }
    let name: &str = item.name.as_str();
    let blessed_or_cursed: bool = contains(name, "\u{795D}") || contains(name, "\u{5492}")
        || contains(name, "\u{8A5B}") || contains(name, "\u{87E1}");
    let normal_name: bool = starts_with(name, "\u{77AC}\u{9593}\u{79FB}\u{52D5}") || starts_with(
        name,
        "\u{50B3}\u{9001}",
    ) || starts_with(name, "\u{96A8}\u{6A5F}");
    let scroll: bool = item.item_type == SCROLL_ITEM_TYPE;
    if scroll && normal_name && !blessed_or_cursed {
        0
    } else if scroll && !blessed_or_cursed {
        1
    } else if normal_name && !blessed_or_cursed {
        2
    } else if scroll {
        3
    } else {
        4
    }
}

/// Names shown where no scroll was found.
pub const INVENTORY_SAMPLE: usize = 8;

/// The names of the first items.
pub open spec fn sample_names(items: Seq<ScrollItem>) -> Seq<Seq<char>> {
    Seq::new(
        if items.len() <= INVENTORY_SAMPLE {
            items.len()
        } else {
            INVENTORY_SAMPLE as nat
        },
        |i: int| items[i].name@,
    )
}

fn inventory_name_sample(items: &Vec<ScrollItem>) -> (r: String)
    ensures
        r@ == joined(sample_names(items@), ", "@),
{
    let n: usize = if items.len() <= INVENTORY_SAMPLE {
        items.len()
    } else {
        INVENTORY_SAMPLE
    };
    let mut names: Vec<String> = Vec::new();
    let mut i: usize = 0;
    while i < n
        invariant
            i <= n,
            n <= items@.len(),
            names@.len() == i,
            forall|j: int| 0 <= j < i ==> (#[trigger] names@[j])@ == items@[j].name@,
        decreases n - i,
    {
        names.push(items[i].name.clone());
        i = i + 1;
    }
    assert(crate::text::contents(names@) =~= sample_names(items@));
    join(&names, ", ")
}

/// Why no scroll can be used.
#[derive(Debug, PartialEq, Eq)]
pub enum ScrollError {
    /// There is nothing to look for.
    EmptyKeyword,
    /// No item answers to the keyword.
    NotFound { inventory_sample: String },
}

/// The item at `i` is the one to use: it answers to the keyword, none comes
/// before it, and none before it in the inventory is as good.
pub open spec fn is_scroll_choice(items: Seq<ScrollItem>, keyword: Seq<char>, i: int) -> bool {
    &&& 0 <= i < items.len()
    &&& items[i].matches_keyword
    &&& forall|j: int|
        0 <= j < items.len() && (#[trigger] items[j]).matches_keyword ==> {
            let a = scroll_priority(items[i].item_type, items[i].name@, keyword);
            let b = scroll_priority(items[j].item_type, items[j].name@, keyword);
            a < b || (a == b && i <= j)
        }
}

/// Which item of the inventory to use for a teleport.
pub fn select_teleport_scroll(items: &Vec<ScrollItem>, name_keyword: &str) -> (r: Result<
    usize,
    ScrollError,
>)
    ensures
        match r {
            Ok(i) => trim(name_keyword@).len() > 0 && is_scroll_choice(
                items@,
                trim(name_keyword@),
                i as int,
            ),
            Err(ScrollError::EmptyKeyword) => trim(name_keyword@).len() == 0,
            Err(ScrollError::NotFound { inventory_sample }) => {
                &&& trim(name_keyword@).len() > 0
                &&& forall|j: int| 0 <= j < items@.len() ==> !(#[trigger] items@[j]).matches_keyword
                &&& inventory_sample@ == joined(sample_names(items@), ", "@)
            },
        },
{
    let keyword: &str = trim_str(name_keyword);
    if keyword.is_empty() {
        return Err(ScrollError::EmptyKeyword);
    }
    let mut best: Option<(usize, u8)> = None;
    let mut i: usize = 0;
    while i < items.len()
        invariant
            i <= items@.len(),
            keyword@ == trim(name_keyword@),
            match best {
                Some(b) => b.0 < i && is_scroll_choice(items@.take(i as int), keyword@, b.0 as int)
                    && b.1 == scroll_priority(
                    items@[b.0 as int].item_type,
                    items@[b.0 as int].name@,
                    keyword@,
                ),
                None => forall|j: int| 0 <= j < i ==> !(#[trigger] items@[j]).matches_keyword,
            },
        decreases items@.len() - i,
    {
        let ghost s = items@.take(i as int);
        let ghost t = items@.take(i + 1);
        assert(forall|j: int| 0 <= j < i ==> #[trigger] t[j] == s[j]);
        if items[i].matches_keyword {
            let priority: u8 = teleport_scroll_item_priority(&items[i], keyword);
            let better: bool = match best {
                Some(b) => priority < b.1,
                None => true,
            };
            if better {
                best = Some((i, priority));
                assert(is_scroll_choice(t, keyword@, i as int));
            }
        }
        proof {
            if let Some(b) = best {
                assert(is_scroll_choice(t, keyword@, b.0 as int));
            }
        }
        i = i + 1;
    }
    assert(items@.take(i as int) =~= items@);
    match best {
        Some(b) => Ok(b.0),
        None => Err(ScrollError::NotFound { inventory_sample: inventory_name_sample(items) }),
    }
}

} // verus!
