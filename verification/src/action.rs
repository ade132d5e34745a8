//! The behaviour engine: resumable, cancellable actions polled once per
//! scheduling pass, composed from explicit state-machine combinators.
//!
//! An action either reports `Running`, to be polled again next tick with the
//! same state, or `Done`. Interruption is the only sanctioned discard of
//! progress, and it replaces state wholesale while the underlying action's
//! state is preserved untouched.

use vstd::prelude::*;

use crate::npc::{
    Actor, Content, Dialogue, DialogueId, DialogueKind, DialogueSession, Dir2, NpcAction,
    NpcActivity, NpcInput, NpcView, Response, ResponseList, ResourceMask, Sentiments, WPos,
    WorldView, DayPeriod,
};
use crate::rng::SimRng;

verus! {

/// What one poll of an action reports.
#[derive(Clone, Copy, Debug, PartialEq, Eq, Structural)]
pub enum ActionResult {
    Running,
    Done,
}

/// The urgency tier of a candidate behaviour: `Important` dominates `Casual`
/// when a choice is made.
#[derive(Clone, Copy, Debug, PartialEq, Eq, Structural)]
pub enum Priority {
    Important,
    Casual,
}

/// The per-tick outgoing intent of one NPC. Written by the action tree,
/// never read back by it; consumed by downstream embodiment systems.
#[derive(Debug, PartialEq)]
pub struct Controller {
    /// Discrete one-shot actions queued this tick.
    pub actions: Vec<NpcAction>,
    /// The current activity; mutually exclusive, last write wins.
    pub activity: Option<NpcActivity>,
    /// A requested home-site change (`Some(None)` clears the home).
    pub new_home: Option<Option<u64>>,
    pub look_dir: Option<Dir2>,
    /// A requested hiring change (`Some(None)` ends the hiring).
    pub hiring: Option<Option<(Actor, u64)>>,
    /// Response actions to deliver to other NPCs after this tick's polls.
    pub npc_actions: Vec<(u64, Action)>,
}


/// `post` is `pre` with exactly one one-shot action appended.
pub open spec fn pushed_action(pre: Controller, post: Controller, a: NpcAction) -> bool {
    post.actions@ == pre.actions@.push(a) && post.activity == pre.activity && post.new_home
        == pre.new_home && post.look_dir == pre.look_dir && post.hiring == pre.hiring
        && post.npc_actions == pre.npc_actions
}

impl Controller {

    pub fn new() -> (r: Controller)
        ensures
            r.actions@.len() == 0,
            r.activity is None,
            r.new_home is None,
            r.look_dir is None,
            r.hiring is None,
            r.npc_actions@.len() == 0,
    {
        Controller {
            actions: Vec::new(),
            activity: None,
            new_home: None,
            look_dir: None,
            hiring: None,
            npc_actions: Vec::new(),
        }
    }

    /// Reset to a neutral state before the start of the next brain tick.
    pub fn reset(&mut self)
        ensures
            final(self).activity is None,
            final(self).look_dir is None,
            final(self).actions == old(self).actions,
            final(self).new_home == old(self).new_home,
            final(self).hiring == old(self).hiring,
            final(self).npc_actions == old(self).npc_actions,
    {
        self.activity = None;
        self.look_dir = None;
    }

    pub fn do_idle(&mut self)
        ensures
            *final(self) == (Controller { activity: None, ..*old(self) }),
    {
        self.activity = None;
    }

    pub fn do_talk(&mut self, tgt: Actor)
        ensures
            *final(self) == (Controller { activity: Some(NpcActivity::Talk(tgt)), ..*old(self) }),
    {
        self.activity = Some(NpcActivity::Talk(tgt));
    }

    pub fn do_goto(&mut self, wpos: WPos, speed_factor: u32)
        ensures
            *final(self) == (Controller {
                activity: Some(NpcActivity::Goto(wpos, speed_factor)),
                ..*old(self)
            }),
    {
        self.activity = Some(NpcActivity::Goto(wpos, speed_factor));
    }

    pub fn do_gather(&mut self, resources: ResourceMask)
        ensures
            *final(self) == (Controller {
                activity: Some(NpcActivity::Gather(resources)),
                ..*old(self)
            }),
    {
        self.activity = Some(NpcActivity::Gather(resources));
    }

    pub fn do_hunt_animals(&mut self)
        ensures
            *final(self) == (Controller { activity: Some(NpcActivity::HuntAnimals), ..*old(self) }),
    {
        self.activity = Some(NpcActivity::HuntAnimals);
    }

    pub fn do_dance(&mut self, dir: Option<Dir2>)
        ensures
            *final(self) == (Controller { activity: Some(NpcActivity::Dance(dir)), ..*old(self) }),
    {
        self.activity = Some(NpcActivity::Dance(dir));
    }

    pub fn do_cheer(&mut self, dir: Option<Dir2>)
        ensures
            *final(self) == (Controller { activity: Some(NpcActivity::Cheer(dir)), ..*old(self) }),
    {
        self.activity = Some(NpcActivity::Cheer(dir));
    }

    pub fn do_sit(&mut self, dir: Option<Dir2>, pos: Option<WPos>)
        ensures
            *final(self) == (Controller {
                activity: Some(NpcActivity::Sit(dir, pos)),
                ..*old(self)
            }),
    {
        self.activity = Some(NpcActivity::Sit(dir, pos));
    }

    pub fn say(&mut self, target: Option<Actor>, content: Content)
        ensures
            pushed_action(*old(self), *final(self), NpcAction::Say(target, content)),
    {
        self.actions.push(NpcAction::Say(target, content));
    }

    pub fn attack(&mut self, target: Actor)
        ensures
            pushed_action(*old(self), *final(self), NpcAction::Attack(target)),
    {
        self.actions.push(NpcAction::Attack(target));
    }

    pub fn set_new_home(&mut self, new_home: Option<u64>)
        ensures
            *final(self) == (Controller { new_home: Some(new_home), ..*old(self) }),
    {
        self.new_home = Some(new_home);
    }

    pub fn set_newly_hired(&mut self, actor: Actor, expires: u64)
        ensures
            *final(self) == (Controller { hiring: Some(Some((actor, expires))), ..*old(self) }),
    {
        self.hiring = Some(Some((actor, expires)));
    }

    pub fn end_hiring(&mut self)
        ensures
            *final(self) == (Controller { hiring: Some(None), ..*old(self) }),
    {
        self.hiring = Some(None);
    }

    /// Queue a response action for another NPC, delivered after this tick.
    pub fn npc_action(&mut self, target: u64, response: Action)
        ensures
            final(self).npc_actions@ == old(self).npc_actions@.push((target, response)),
            final(self).actions == old(self).actions,
            final(self).activity == old(self).activity,
            final(self).new_home == old(self).new_home,
            final(self).look_dir == old(self).look_dir,
            final(self).hiring == old(self).hiring,
    {
        self.npc_actions.push((target, response));
    }

    /// Start a new dialogue; the session id is drawn from the brain's stream.
    pub fn dialogue_start(&mut self, rng: &mut SimRng, target: Actor) -> (r: DialogueSession)
        ensures
            r.target == target,
            r.id == DialogueId(
                crate::rng::mix_spec(crate::rng::advance_spec(old(rng).state)),
            ),
            final(rng).state == crate::rng::advance_spec(old(rng).state),
            pushed_action(
                *old(self),
                *final(self),
                NpcAction::Dialogue(target, Dialogue { id: r.id, kind: DialogueKind::Start }),
            ),
    {
        let id = DialogueId(rng.next_u64());
        let session = DialogueSession { target, id };
        self.actions.push(NpcAction::Dialogue(target, Dialogue { id, kind: DialogueKind::Start }));
        session
    }

    /// End an existing dialogue.
    pub fn dialogue_end(&mut self, session: DialogueSession)
        ensures
            pushed_action(
                *old(self),
                *final(self),
                NpcAction::Dialogue(
                    session.target,
                    Dialogue { id: session.id, kind: DialogueKind::End },
                ),
            ),
    {
        self.actions.push(
            NpcAction::Dialogue(session.target, Dialogue { id: session.id, kind: DialogueKind::End }),
        );
    }

    /// Ask a question with tagged response options; returns the tag by which
    /// the answer will be recognised.
    pub fn dialogue_question(
        &mut self,
        rng: &mut SimRng,
        session: DialogueSession,
        msg: Content,
        responses: ResponseList,
    ) -> (tag: u32)
        ensures
            tag == crate::rng::mix_spec(crate::rng::advance_spec(old(rng).state)) as u32,
            final(rng).state == crate::rng::advance_spec(old(rng).state),
            pushed_action(
                *old(self),
                *final(self),
                NpcAction::Dialogue(
                    session.target,
                    Dialogue {
                        id: session.id,
                        kind: DialogueKind::Question { tag, msg, responses },
                    },
                ),
            ),
    {
        let tag = rng.next_u64() as u32;
        self.actions.push(
            NpcAction::Dialogue(
                session.target,
                Dialogue { id: session.id, kind: DialogueKind::Question { tag, msg, responses } },
            ),
        );
        tag
    }

    /// Provide a statement as part of a dialogue.
    pub fn dialogue_statement(&mut self, session: DialogueSession, msg: Content)
        ensures
            pushed_action(
                *old(self),
                *final(self),
                NpcAction::Dialogue(
                    session.target,
                    Dialogue { id: session.id, kind: DialogueKind::Statement(msg) },
                ),
            ),
    {
        self.actions.push(
            NpcAction::Dialogue(
                session.target,
                Dialogue { id: session.id, kind: DialogueKind::Statement(msg) },
            ),
        );
    }

    /// Provide a location marker as part of a dialogue.
    pub fn dialogue_marker(&mut self, session: DialogueSession, wpos: WPos, name: Content)
        ensures
            pushed_action(
                *old(self),
                *final(self),
                NpcAction::Dialogue(
                    session.target,
                    Dialogue { id: session.id, kind: DialogueKind::Marker { wpos, name } },
                ),
            ),
    {
        self.actions.push(
            NpcAction::Dialogue(
                session.target,
                Dialogue { id: session.id, kind: DialogueKind::Marker { wpos, name } },
            ),
        );
    }
}

/// A stateful predicate consulted by combinators, re-evaluated once per poll.
#[derive(Clone, Copy, Debug, PartialEq, Eq, Structural)]
pub enum Predicate {
    Always,
    Never,
    /// Becomes true once `dur` has elapsed since its first evaluation; the
    /// start time is captured lazily on first call.
    Timeout { dur: u64, start: Option<u64> },
    /// Fires whenever the current time passes `next`; after a fire, a fresh
    /// interval in `min..max` is drawn.
    EveryRange { min: u64, max: u64, next: Option<u64> },
    /// Like `EveryRange`, but a fire additionally passes a `num / denom`
    /// probability roll; used to rate-limit probabilistic triggers.
    EveryRangeChance { min: u64, max: u64, next: Option<u64>, num: u32, denom: u32 },
    /// The NPC is not (or no longer) hired by the given actor.
    NotHiredBy(Actor),
    /// Daylight holds.
    DayIsLight,
    /// It is not raining.
    NotRaining,
    /// The NPC has strayed beyond a squared horizontal radius of a position.
    FarFromXY { pos: WPos, radius_sq: u128 },
}

/// Saturating addition on times: a deadline past the end of representable
/// time never arrives.
pub open spec fn sat_add_spec(a: u64, b: u64) -> u64 {
    if a + b > u64::MAX {
        u64::MAX
    } else {
        (a + b) as u64
    }
}

pub fn sat_add(a: u64, b: u64) -> (r: u64)
    ensures
        r == sat_add_spec(a, b),
{
    if a <= u64::MAX - b {
        a + b
    } else {
        u64::MAX
    }
}

/// Coordinates are clamped before squaring so the comparison is total.
pub open spec fn clamp_coord_spec(x: i64) -> i64 {
    if x < -0x1_0000_0000i64 {
        -0x1_0000_0000i64
    } else if x > 0x1_0000_0000i64 {
        0x1_0000_0000i64
    } else {
        x
    }
}

/// Squared horizontal distance over clamped coordinates.
pub open spec fn near_sq_spec(a: WPos, b: WPos) -> int {
    let dx = clamp_coord_spec(a.x) - clamp_coord_spec(b.x);
    let dy = clamp_coord_spec(a.y) - clamp_coord_spec(b.y);
    dx * dx + dy * dy
}

fn clamp_coord(x: i64) -> (r: i64)
    ensures
        r == clamp_coord_spec(x),
{
    if x < -0x1_0000_0000i64 {
        -0x1_0000_0000i64
    } else if x > 0x1_0000_0000i64 {
        0x1_0000_0000i64
    } else {
        x
    }
}

pub fn near_sq(a: &WPos, b: &WPos) -> (r: u128)
    ensures
        r == near_sq_spec(*a, *b),
{
    let dx: i128 = clamp_coord(a.x) as i128 - clamp_coord(b.x) as i128;
    let dy: i128 = clamp_coord(a.y) as i128 - clamp_coord(b.y) as i128;
    proof {
        assert(dx * dx <= 0x2_0000_0000i128 * 0x2_0000_0000i128) by (nonlinear_arith)
            requires -0x2_0000_0000i128 <= dx <= 0x2_0000_0000i128;
        assert(dy * dy <= 0x2_0000_0000i128 * 0x2_0000_0000i128) by (nonlinear_arith)
            requires -0x2_0000_0000i128 <= dy <= 0x2_0000_0000i128;
        assert(dx * dx >= 0) by (nonlinear_arith);
        assert(dy * dy >= 0) by (nonlinear_arith);
    }
    (dx * dx + dy * dy) as u128
}

/// The interval a range predicate draws: degenerate ranges yield their lower
/// bound.
pub open spec fn range_draw_spec(state: u64, min: u64, max: u64) -> u64 {
    if min < max {
        (min + crate::rng::below_spec(state, (max - min) as u64)) as u64
    } else {
        min
    }
}

/// One evaluation step of a predicate: the updated predicate, whether it
/// fired, and the generator after any draws it made.
pub open spec fn pred_step_spec(
    p: Predicate,
    time: u64,
    npc: NpcView,
    world: WorldView,
    rng: SimRng,
) -> (Predicate, bool, SimRng) {
    match p {
        Predicate::Always => (p, true, rng),
        Predicate::Never => (p, false, rng),
        Predicate::Timeout { dur, start } => {
            let s = if start is Some {
                start->0
            } else {
                time
            };
            (Predicate::Timeout { dur, start: Some(s) }, time >= s && time - s >= dur, rng)
        },
        Predicate::EveryRange { min, max, next } => {
            match next {
                Some(n) => {
                    if time >= n {
                        let draw = range_draw_spec(rng.state, min, max);
                        let rng2 = SimRng { state: crate::rng::advance_spec(rng.state) };
                        (
                            Predicate::EveryRange {
                                min,
                                max,
                                next: Some(sat_add_spec(time, draw)),
                            },
                            true,
                            rng2,
                        )
                    } else {
                        (p, false, rng)
                    }
                },
                None => {
                    let draw = range_draw_spec(rng.state, min, max);
                    let rng2 = SimRng { state: crate::rng::advance_spec(rng.state) };
                    (
                        Predicate::EveryRange { min, max, next: Some(sat_add_spec(time, draw)) },
                        false,
                        rng2,
                    )
                },
            }
        },
        Predicate::EveryRangeChance { min, max, next, num, denom } => {
            match next {
                Some(n) => {
                    if time >= n {
                        let draw = range_draw_spec(rng.state, min, max);
                        let rng2 = SimRng { state: crate::rng::advance_spec(rng.state) };
                        let rolled = denom > 0 && crate::rng::below_spec(rng2.state, denom as u64)
                            < num as u64;
                        let rng3 = SimRng { state: crate::rng::advance_spec(rng2.state) };
                        (
                            Predicate::EveryRangeChance {
                                min,
                                max,
                                next: Some(sat_add_spec(time, draw)),
                                num,
                                denom,
                            },
                            rolled,
                            rng3,
                        )
                    } else {
                        (p, false, rng)
                    }
                },
                None => {
                    let draw = range_draw_spec(rng.state, min, max);
                    let rng2 = SimRng { state: crate::rng::advance_spec(rng.state) };
                    (
                        Predicate::EveryRangeChance {
                            min,
                            max,
                            next: Some(sat_add_spec(time, draw)),
                            num,
                            denom,
                        },
                        false,
                        rng2,
                    )
                },
            }
        },
        Predicate::NotHiredBy(a) => {
            let hired_by_a = match npc.hiring {
                Some((act, _)) => act == a,
                None => false,
            };
            (p, !hired_by_a, rng)
        },
        Predicate::DayIsLight => (p, !(world.day_period == DayPeriod::Night), rng),
        Predicate::NotRaining => (p, !world.is_raining, rng),
        Predicate::FarFromXY { pos, radius_sq } => {
            (p, near_sq_spec(npc.pos, pos) > radius_sq, rng)
        },
    }
}

fn range_draw(rng: &mut SimRng, min: u64, max: u64) -> (r: u64)
    ensures
        r == range_draw_spec(old(rng).state, min, max),
        final(rng).state == crate::rng::advance_spec(old(rng).state),
    {
    if min < max {
        rng.gen_range(min, max)
    } else {
        let _burn = rng.next_u64();
        min
    }
}

/// Evaluate a predicate against the context, updating its own state and the
/// draw stream exactly as the model says.
pub fn pred_step(p: Predicate, time: u64, npc: &NpcView, world: &WorldView, rng: &mut SimRng) -> (r:
    (Predicate, bool))
    ensures
        ({
            let (p2, fired, rng2) = pred_step_spec(p, time, *npc, *world, *old(rng));
            r.0 == p2 && r.1 == fired && *final(rng) == rng2
        }),
{
    match p {
        Predicate::Always => (p, true),
        Predicate::Never => (p, false),
        Predicate::Timeout { dur, start } => {
            let s: u64 = match start {
                Some(s0) => s0,
                None => time,
            };
            (Predicate::Timeout { dur, start: Some(s) }, time >= s && time - s >= dur)
        },
        Predicate::EveryRange { min, max, next } => {
            match next {
                Some(n) => {
                    if time >= n {
                        let draw = range_draw(rng, min, max);
                        (
                            Predicate::EveryRange { min, max, next: Some(sat_add(time, draw)) },
                            true,
                        )
                    } else {
                        (p, false)
                    }
                },
                None => {
                    let draw = range_draw(rng, min, max);
                    (Predicate::EveryRange { min, max, next: Some(sat_add(time, draw)) }, false)
                },
            }
        },
        Predicate::EveryRangeChance { min, max, next, num, denom } => {
            match next {
                Some(n) => {
                    if time >= n {
                        let draw = range_draw(rng, min, max);
                        let rolled = if denom > 0 {
                            rng.chance(num, denom)
                        } else {
                            let _burn = rng.next_u64();
                            false
                        };
                        (
                            Predicate::EveryRangeChance {
                                min,
                                max,
                                next: Some(sat_add(time, draw)),
                                num,
                                denom,
                            },
                            rolled,
                        )
                    } else {
                        (p, false)
                    }
                },
                None => {
                    let draw = range_draw(rng, min, max);
                    (
                        Predicate::EveryRangeChance {
                            min,
                            max,
                            next: Some(sat_add(time, draw)),
                            num,
                            denom,
                        },
                        false,
                    )
                },
            }
        },
        Predicate::NotHiredBy(a) => {
            let hired_by_a = match npc.hiring {
                Some((act, _)) => act == a,
                None => false,
            };
            (p, !hired_by_a)
        },
        Predicate::DayIsLight => (p, !(world.day_period == DayPeriod::Night)),
        Predicate::NotRaining => (p, !world.is_raining),
        Predicate::FarFromXY { pos, radius_sq } => {
            let d = near_sq(&npc.pos, &pos);
            (p, d > radius_sq)
        },
    }
}

/// A human-readable tag attached for observability; it has no behavioural
/// effect.
#[derive(Clone, Copy, Debug, PartialEq, Eq, Structural)]
pub enum BehaviorTag {
    Idle,
    Dancing,
    Socialize,
    SmallTalk,
    Adventure,
    Hired,
    Patrol,
    SellWares,
    GatherIngredients,
    Hunting,
    WalkToPlaza,
    WaitAtPlaza,
    WalkToHouse,
    WaitInHouse,
    FindSleep,
    FindShelter,
    Raiding,
    TravelToSite,
    Villager,
    Pirate,
    Monster,
    Wander,
}

/// One immediate write to the controller; the payload of a primitive action.
#[derive(Debug, PartialEq)]
pub enum Effect {
    Idle,
    Talk(Actor),
    Goto(WPos, u32),
    /// Travel flying: target, speed factor, height above terrain, facing,
    /// flight regime.
    GotoFlying(WPos, u32, Option<i64>, Option<Dir2>, crate::npc::FlightMode),
    Gather(ResourceMask),
    HuntAnimals,
    Dance(Option<Dir2>),
    Cheer(Option<Dir2>),
    Sit(Option<Dir2>, Option<WPos>),
    Say(Option<Actor>, Content),
    Attack(Actor),
    SetNewHome(Option<u64>),
    SetNewlyHired(Actor, u64),
    EndHiring,
    DialogueStart(DialogueSession),
    DialogueStatement(DialogueSession, Content),
    DialogueQuestion(DialogueSession, u32, Content, ResponseList),
    DialogueMarker(DialogueSession, WPos, Content),
    DialogueEnd(DialogueSession),
    /// Queue a response action for another NPC.
    NpcResponse(u64, Box<Action>),
}

/// A producer of higher-priority alternatives, consulted every tick before
/// the wrapped action.
#[derive(Debug, PartialEq)]
pub enum InterruptSource {
    /// When the signal predicate fires, a copy of the blueprint supersedes the inner
    /// action until the copy completes.
    Signalled { signal: Predicate, blueprint: Box<Action> },
    /// Takes the next response action queued by another NPC, if any.
    DialogueQueue,
    /// Watches the hiring state: an expired or soured hiring is ended, with
    /// a parting word.
    HiredWatch,
}

/// The branches of a pending question, keyed by response id.
#[derive(Debug, PartialEq)]
pub enum BranchList {
    Nil,
    Cons(u16, Box<Action>, Box<BranchList>),
}

/// A resumable unit of behaviour: an explicit state machine per combinator,
/// each variant holding exactly the data needed to resume next tick.
#[derive(Debug, PartialEq)]
pub enum Action {
    /// Completes immediately with no effect.
    Finish,
    /// Applies one controller effect and completes.
    Just(Effect),
    /// Runs `first` to completion, then `second`. When `first` completes,
    /// `second` is polled within the same call: no tick is lost between them.
    Then { first: Box<Action>, second: Box<Action>, in_second: bool },
    /// Restarts a copy of the blueprint every time the running copy
    /// completes. Never completes itself; `restarts` counts the copies made.
    Repeat { blueprint: Box<Action>, current: Box<Action>, restarts: u64 },
    /// Checks the predicate before each poll of the inner action; when it
    /// fires, completes at once, discarding inner progress without polling it.
    StopIf { pred: Predicate, inner: Box<Action> },
    /// Consults the source every tick before the inner action. A produced
    /// alternative runs to completion while the inner action's state is
    /// preserved untouched; the inner action then resumes where it left off.
    InterruptWith { source: InterruptSource, active: Option<Box<Action>>, inner: Box<Action> },
    /// Evaluates a candidate set once per activation and commits to the
    /// first important candidate, or failing that the first candidate; only
    /// the chosen branch's state persists until it completes.
    Choose { options: crate::behavior::ChoiceSel, chosen: Option<Box<Action>> },
    /// Builds an action from the context on first poll and runs it.
    Eval { sel: crate::behavior::Selector, built: Option<Box<Action>> },
    /// Waits for the answer to a question, then runs the branch registered
    /// for the chosen response; completes at once on an unknown response.
    AwaitResponse { session: DialogueSession, tag: u32, branches: BranchList, chosen: Option<Box<Action>> },
    /// A zero-effect observability label around an action.
    Tag { label: BehaviorTag, inner: Box<Action> },
}

// Deep copies with exact contracts: `clone` derived on these types says
// nothing to the verifier, so blueprints are duplicated by hand.

pub fn duplicate_content(c: &Content) -> (r: Content)
    ensures
        r == *c,
{
    match c {
        Content::Plain(s) => Content::Plain(s.clone()),
        Content::Key(k) => Content::Key(*k),
        Content::KeyWithName(k, s) => Content::KeyWithName(*k, s.clone()),
        Content::KeyWithPlace(k, d, dist) => Content::KeyWithPlace(*k, *d, *dist),
    }
}

pub fn duplicate_response(x: &Response) -> (r: Response)
    ensures
        r == *x,
{
    Response { msg: duplicate_content(&x.msg), given_item: x.given_item }
}

pub fn duplicate_responses(v: &ResponseList) -> (r: ResponseList)
    ensures
        r == *v,
    decreases *v,
{
    match v {
        ResponseList::Nil => ResponseList::Nil,
        ResponseList::Cons(id, resp, rest) => ResponseList::Cons(
            *id,
            duplicate_response(resp),
            Box::new(duplicate_responses(rest)),
        ),
    }
}

pub fn duplicate_effect(e: &Effect) -> (r: Effect)
    ensures
        r == *e,
    decreases *e,
{
    match e {
        Effect::Idle => Effect::Idle,
        Effect::Talk(a) => Effect::Talk(*a),
        Effect::Goto(p, s) => Effect::Goto(*p, *s),
        Effect::GotoFlying(p, s, h, d, m) => Effect::GotoFlying(*p, *s, *h, *d, *m),
        Effect::Gather(v) => Effect::Gather(*v),
        Effect::HuntAnimals => Effect::HuntAnimals,
        Effect::Dance(d) => Effect::Dance(*d),
        Effect::Cheer(d) => Effect::Cheer(*d),
        Effect::Sit(d, p) => Effect::Sit(*d, *p),
        Effect::Say(t, c) => Effect::Say(*t, duplicate_content(c)),
        Effect::Attack(t) => Effect::Attack(*t),
        Effect::SetNewHome(h) => Effect::SetNewHome(*h),
        Effect::SetNewlyHired(a, t) => Effect::SetNewlyHired(*a, *t),
        Effect::EndHiring => Effect::EndHiring,
        Effect::DialogueStart(s) => Effect::DialogueStart(*s),
        Effect::DialogueStatement(s, c) => Effect::DialogueStatement(*s, duplicate_content(c)),
        Effect::DialogueQuestion(s, tag, c, rs) => Effect::DialogueQuestion(
            *s,
            *tag,
            duplicate_content(c),
            duplicate_responses(rs),
        ),
        Effect::DialogueMarker(s, w, c) => Effect::DialogueMarker(*s, *w, duplicate_content(c)),
        Effect::DialogueEnd(s) => Effect::DialogueEnd(*s),
        Effect::NpcResponse(tgt, act) => Effect::NpcResponse(
            *tgt,
            Box::new(duplicate_action(act)),
        ),
    }
}

pub fn duplicate_branches(b: &BranchList) -> (r: BranchList)
    ensures
        r == *b,
    decreases *b,
{
    match b {
        BranchList::Nil => BranchList::Nil,
        BranchList::Cons(id, act, rest) => BranchList::Cons(
            *id,
            Box::new(duplicate_action(act)),
            Box::new(duplicate_branches(rest)),
        ),
    }
}

/// Duplicate an action tree; the copy is equal to the original, so restarting
/// a blueprint is observably a fresh instance of the same behaviour.
pub fn duplicate_action(a: &Action) -> (r: Action)
    ensures
        r == *a,
    decreases *a,
{
    match a {
        Action::Finish => Action::Finish,
        Action::Just(e) => Action::Just(duplicate_effect(e)),
        Action::Then { first, second, in_second } => Action::Then {
            first: Box::new(duplicate_action(first)),
            second: Box::new(duplicate_action(second)),
            in_second: *in_second,
        },
        Action::Repeat { blueprint, current, restarts } => Action::Repeat {
            blueprint: Box::new(duplicate_action(blueprint)),
            current: Box::new(duplicate_action(current)),
            restarts: *restarts,
        },
        Action::StopIf { pred, inner } => Action::StopIf {
            pred: *pred,
            inner: Box::new(duplicate_action(inner)),
        },
        Action::InterruptWith { source, active, inner } => {
            let src = match source {
                InterruptSource::Signalled { signal, blueprint } => InterruptSource::Signalled {
                    signal: *signal,
                    blueprint: Box::new(duplicate_action(blueprint)),
                },
                InterruptSource::DialogueQueue => InterruptSource::DialogueQueue,
                InterruptSource::HiredWatch => InterruptSource::HiredWatch,
            };
            let act = match active {
                Some(al) => Some(Box::new(duplicate_action(al))),
                None => None,
            };
            Action::InterruptWith { source: src, active: act, inner: Box::new(duplicate_action(inner)) }
        },
        Action::Choose { options, chosen } => Action::Choose {
            options: *options,
            chosen: match chosen {
                Some(ch) => Some(Box::new(duplicate_action(ch))),
                None => None,
            },
        },
        Action::Eval { sel, built } => Action::Eval {
            sel: *sel,
            built: match built {
                Some(i0) => Some(Box::new(duplicate_action(i0))),
                None => None,
            },
        },
        Action::AwaitResponse { session, tag, branches, chosen } => Action::AwaitResponse {
            session: *session,
            tag: *tag,
            branches: duplicate_branches(branches),
            chosen: match chosen {
                Some(ch) => Some(Box::new(duplicate_action(ch))),
                None => None,
            },
        },
        Action::Tag { label, inner } => Action::Tag {
            label: *label,
            inner: Box::new(duplicate_action(inner)),
        },
    }
}

/// The total view of a sentiment table: every actor maps to an opinion,
/// absent actors to zero.
pub open spec fn sentiments_map(s: Sentiments) -> Map<Actor, i32> {
    Map::new(|a: Actor| true, |a: Actor| crate::npc::sentiment_lookup(s.entries@, a))
}

/// The mathematical model of a controller.
pub struct ControllerV {
    pub actions: Seq<NpcAction>,
    pub activity: Option<NpcActivity>,
    pub new_home: Option<Option<u64>>,
    pub look_dir: Option<Dir2>,
    pub hiring: Option<Option<(Actor, u64)>>,
    pub npc_actions: Seq<(u64, Action)>,
}

impl View for Controller {
    type V = ControllerV;

    open spec fn view(&self) -> ControllerV {
        ControllerV {
            actions: self.actions@,
            activity: self.activity,
            new_home: self.new_home,
            look_dir: self.look_dir,
            hiring: self.hiring,
            npc_actions: self.npc_actions@,
        }
    }
}

/// Everything one poll of a brain may read or write.
pub struct Ctx {
    /// Simulation time, in time units.
    pub time: u64,
    /// Elapsed time since this brain last ran: the true tick delta for a
    /// loaded NPC, the summed window for a simulated one.
    pub dt: u64,
    pub rng: SimRng,
    pub controller: Controller,
    pub npc: NpcView,
    pub world: WorldView,
    pub inbox: Vec<NpcInput>,
    pub sentiments: Sentiments,
    pub known_reports: Vec<u64>,
    /// Response actions other NPCs queued for this one.
    pub npc_dialogue: Vec<(u64, Action)>,
}

/// The mathematical model of a polling context.
pub struct CtxV {
    pub time: u64,
    pub dt: u64,
    pub rng: SimRng,
    pub controller: ControllerV,
    pub npc: NpcView,
    pub world: WorldView,
    pub inbox: Seq<NpcInput>,
    pub sentiments: Map<Actor, i32>,
    pub known_reports: Seq<u64>,
    pub npc_dialogue: Seq<(u64, Action)>,
}

impl View for Ctx {
    type V = CtxV;

    open spec fn view(&self) -> CtxV {
        CtxV {
            time: self.time,
            dt: self.dt,
            rng: self.rng,
            controller: self.controller@,
            npc: self.npc,
            world: self.world,
            inbox: self.inbox@,
            sentiments: sentiments_map(self.sentiments),
            known_reports: self.known_reports@,
            npc_dialogue: self.npc_dialogue@,
        }
    }
}

/// What applying one effect does to the controller.
pub open spec fn apply_effect_spec(e: Effect, ctrl: ControllerV) -> ControllerV {
    match e {
        Effect::Idle => ControllerV { activity: None, ..ctrl },
        Effect::Talk(a) => ControllerV { activity: Some(NpcActivity::Talk(a)), ..ctrl },
        Effect::Goto(p, s) => ControllerV { activity: Some(NpcActivity::Goto(p, s)), ..ctrl },
        Effect::GotoFlying(p, s, h, d, m) => ControllerV {
            activity: Some(NpcActivity::GotoFlying(p, s, h, d, m)),
            ..ctrl
        },
        Effect::Gather(m) => ControllerV { activity: Some(NpcActivity::Gather(m)), ..ctrl },
        Effect::HuntAnimals => ControllerV { activity: Some(NpcActivity::HuntAnimals), ..ctrl },
        Effect::Dance(d) => ControllerV { activity: Some(NpcActivity::Dance(d)), ..ctrl },
        Effect::Cheer(d) => ControllerV { activity: Some(NpcActivity::Cheer(d)), ..ctrl },
        Effect::Sit(d, p) => ControllerV { activity: Some(NpcActivity::Sit(d, p)), ..ctrl },
        Effect::Say(t, c) => ControllerV {
            actions: ctrl.actions.push(NpcAction::Say(t, c)),
            ..ctrl
        },
        Effect::Attack(t) => ControllerV { actions: ctrl.actions.push(NpcAction::Attack(t)), ..ctrl },
        Effect::SetNewHome(h) => ControllerV { new_home: Some(h), ..ctrl },
        Effect::SetNewlyHired(a, t) => ControllerV { hiring: Some(Some((a, t))), ..ctrl },
        Effect::EndHiring => ControllerV { hiring: Some(None), ..ctrl },
        Effect::DialogueStart(s) => ControllerV {
            actions: ctrl.actions.push(
                NpcAction::Dialogue(s.target, Dialogue { id: s.id, kind: DialogueKind::Start }),
            ),
            ..ctrl
        },
        Effect::DialogueStatement(s, c) => ControllerV {
            actions: ctrl.actions.push(
                NpcAction::Dialogue(
                    s.target,
                    Dialogue { id: s.id, kind: DialogueKind::Statement(c) },
                ),
            ),
            ..ctrl
        },
        Effect::DialogueQuestion(s, tag, c, rs) => ControllerV {
            actions: ctrl.actions.push(
                NpcAction::Dialogue(
                    s.target,
                    Dialogue { id: s.id, kind: DialogueKind::Question { tag, msg: c, responses: rs } },
                ),
            ),
            ..ctrl
        },
        Effect::DialogueMarker(s, w, c) => ControllerV {
            actions: ctrl.actions.push(
                NpcAction::Dialogue(
                    s.target,
                    Dialogue { id: s.id, kind: DialogueKind::Marker { wpos: w, name: c } },
                ),
            ),
            ..ctrl
        },
        Effect::DialogueEnd(s) => ControllerV {
            actions: ctrl.actions.push(
                NpcAction::Dialogue(s.target, Dialogue { id: s.id, kind: DialogueKind::End }),
            ),
            ..ctrl
        },
        Effect::NpcResponse(tgt, act) => ControllerV {
            npc_actions: ctrl.npc_actions.push((tgt, *act)),
            ..ctrl
        },
    }
}

/// Apply one effect to the controller, exactly as the model says. The effect
/// is read, not consumed, so a primitive action can be returned intact.
pub fn apply_effect(e: &Effect, ctrl: &mut Controller)
    ensures
        final(ctrl)@ == apply_effect_spec(*e, old(ctrl)@),
{
    match e {
        Effect::Idle => ctrl.do_idle(),
        Effect::Talk(a) => ctrl.do_talk(*a),
        Effect::Goto(p, s) => ctrl.do_goto(*p, *s),
        Effect::GotoFlying(p, s, h, d, m) => {
            ctrl.activity = Some(NpcActivity::GotoFlying(*p, *s, *h, *d, *m));
        },
        Effect::Gather(m) => ctrl.do_gather(*m),
        Effect::HuntAnimals => ctrl.do_hunt_animals(),
        Effect::Dance(d) => ctrl.do_dance(*d),
        Effect::Cheer(d) => ctrl.do_cheer(*d),
        Effect::Sit(d, p) => ctrl.do_sit(*d, *p),
        Effect::Say(t, c) => ctrl.say(*t, duplicate_content(c)),
        Effect::Attack(t) => ctrl.attack(*t),
        Effect::SetNewHome(h) => ctrl.set_new_home(*h),
        Effect::SetNewlyHired(a, t) => ctrl.set_newly_hired(*a, *t),
        Effect::EndHiring => ctrl.end_hiring(),
        Effect::DialogueStart(s) => {
            ctrl.actions.push(
                NpcAction::Dialogue(s.target, Dialogue { id: s.id, kind: DialogueKind::Start }),
            );
        },
        Effect::DialogueStatement(s, c) => ctrl.dialogue_statement(*s, duplicate_content(c)),
        Effect::DialogueQuestion(s, tag, c, rs) => {
            ctrl.actions.push(
                NpcAction::Dialogue(
                    s.target,
                    Dialogue {
                        id: s.id,
                        kind: DialogueKind::Question {
                            tag: *tag,
                            msg: duplicate_content(c),
                            responses: duplicate_responses(rs),
                        },
                    },
                ),
            );
        },
        Effect::DialogueMarker(s, w, c) => ctrl.dialogue_marker(*s, *w, duplicate_content(c)),
        Effect::DialogueEnd(s) => ctrl.dialogue_end(*s),
        Effect::NpcResponse(tgt, act) => {
            ctrl.npc_actions.push((*tgt, duplicate_action(act)));
        },
    }
}

// ---- selection, scanning and interrupt steps ----

/// The index of the first important candidate, if any.
pub open spec fn first_important_spec(cands: Seq<(Priority, Action)>) -> Option<int>
    decreases cands.len(),
{
    if cands.len() == 0 {
        None
    } else if cands[0].0 == Priority::Important {
        Some(0)
    } else {
        match first_important_spec(cands.skip(1)) {
            Some(i) => Some(i + 1),
            None => None,
        }
    }
}

/// Tie-break rule of a choice: the first important candidate wins; with no
/// important candidate, the first candidate in declaration order.
pub open spec fn pick_spec(cands: Seq<(Priority, Action)>) -> int {
    match first_important_spec(cands) {
        Some(i) => i,
        None => 0,
    }
}

proof fn lemma_first_important(cands: Seq<(Priority, Action)>)
    ensures
        match first_important_spec(cands) {
            Some(i) => 0 <= i < cands.len() && cands[i].0 == Priority::Important,
            None => forall|j: int| 0 <= j < cands.len() ==> (#[trigger] cands[j]).0 != Priority::Important,
        },
    decreases cands.len(),
{
    if cands.len() == 0 {
    } else if cands[0].0 == Priority::Important {
    } else {
        lemma_first_important(cands.skip(1));
        match first_important_spec(cands.skip(1)) {
            Some(i) => {
                assert(cands.skip(1)[i] == cands[i + 1]);
            },
            None => {
                assert forall|j: int| 0 <= j < cands.len() implies (#[trigger] cands[j]).0
                    != Priority::Important by {
                    if j > 0 {
                        assert(cands.skip(1)[j - 1] == cands[j]);
                    }
                }
            },
        }
    }
}

fn pick(cands: &Vec<(Priority, Action)>) -> (r: usize)
    requires
        cands@.len() > 0,
    ensures
        r == pick_spec(cands@),
        r < cands@.len(),
{
    proof {
        lemma_first_important(cands@);
        assert(cands@.skip(0) =~= cands@);
    }
    let mut i: usize = 0;
    while i < cands.len()
        invariant
            i <= cands@.len(),
            first_important_spec(cands@) == (match first_important_spec(cands@.skip(i as int)) {
                Some(k) => Some(k + i),
                None => None::<int>,
            }),
            forall|j: int| 0 <= j < i ==> (#[trigger] cands@[j]).0 != Priority::Important,
        decreases cands@.len() - i,
    {
        if cands[i].0 == Priority::Important {
            proof {
                assert(cands@.skip(i as int)[0] == cands@[i as int]);
            }
            return i;
        }
        proof {
            assert(cands@.skip(i as int)[0] == cands@[i as int]);
            assert(cands@.skip(i as int).skip(1) =~= cands@.skip(i + 1));
        }
        i += 1;
    }
    proof {
        assert(cands@.skip(i as int).len() == 0);
    }
    0
}

/// Whether one inbox entry answers the given question, and with which
/// response id.
pub open spec fn response_hit_spec(inp: NpcInput, session: DialogueSession, tag: u32) -> Option<
    u16,
> {
    match inp {
        NpcInput::Dialogue(from, d) => {
            if from == session.target && d.id == session.id {
                match d.kind {
                    DialogueKind::Response { tag: t, response: _, response_id } => {
                        if t == tag {
                            Some(response_id)
                        } else {
                            None
                        }
                    },
                    _ => None,
                }
            } else {
                None
            }
        },
        _ => None,
    }
}

/// The first inbox entry answering the question, with its position.
pub open spec fn find_response_spec(
    inbox: Seq<NpcInput>,
    session: DialogueSession,
    tag: u32,
) -> Option<(int, u16)>
    decreases inbox.len(),
{
    if inbox.len() == 0 {
        None
    } else {
        match response_hit_spec(inbox[0], session, tag) {
            Some(rid) => Some((0, rid)),
            None => match find_response_spec(inbox.skip(1), session, tag) {
                Some(p) => Some((p.0 + 1, p.1)),
                None => None,
            },
        }
    }
}

fn response_hit(inp: &NpcInput, session: DialogueSession, tag: u32) -> (r: Option<u16>)
    ensures
        r == response_hit_spec(*inp, session, tag),
{
    match inp {
        NpcInput::Dialogue(from, d) => {
            if *from == session.target && d.id == session.id {
                match &d.kind {
                    DialogueKind::Response { tag: t, response: _, response_id } => {
                        if *t == tag {
                            Some(*response_id)
                        } else {
                            None
                        }
                    },
                    _ => None,
                }
            } else {
                None
            }
        },
        _ => None,
    }
}

fn find_response(inbox: &Vec<NpcInput>, session: DialogueSession, tag: u32) -> (r: Option<
    (usize, u16),
>)
    ensures
        match r {
            Some((i, rid)) => find_response_spec(inbox@, session, tag) == Some((i as int, rid))
                && i < inbox@.len(),
            None => find_response_spec(inbox@, session, tag) is None,
        },
{
    proof {
        assert(inbox@.skip(0) =~= inbox@);
    }
    let mut i: usize = 0;
    while i < inbox.len()
        invariant
            i <= inbox@.len(),
            find_response_spec(inbox@, session, tag) == (match find_response_spec(
                inbox@.skip(i as int),
                session,
                tag,
            ) {
                Some(p) => Some((p.0 + i, p.1)),
                None => None::<(int, u16)>,
            }),
        decreases inbox@.len() - i,
    {
        proof {
            assert(inbox@.skip(i as int)[0] == inbox@[i as int]);
            assert(inbox@.skip(i as int).skip(1) =~= inbox@.skip(i + 1));
        }
        match response_hit(&inbox[i], session, tag) {
            Some(rid) => {
                return Some((i, rid));
            },
            None => {},
        }
        i += 1;
    }
    proof {
        assert(inbox@.skip(i as int).len() == 0);
    }
    None
}

/// The branch registered for a response id, if any.
pub open spec fn find_branch_spec(b: BranchList, rid: u16) -> Option<Action>
    decreases b,
{
    match b {
        BranchList::Nil => None,
        BranchList::Cons(id, act, rest) => {
            if id == rid {
                Some(*act)
            } else {
                find_branch_spec(*rest, rid)
            }
        },
    }
}

fn find_branch(b: &BranchList, rid: u16) -> (r: Option<Action>)
    ensures
        r == find_branch_spec(*b, rid),
    decreases *b,
{
    match b {
        BranchList::Nil => None,
        BranchList::Cons(id, act, rest) => {
            if *id == rid {
                Some(duplicate_action(act))
            } else {
                find_branch(rest, rid)
            }
        },
    }
}

/// One consultation of an interrupt source: its updated state, the produced
/// alternative if it fired, and the context after any reads it consumed.
pub open spec fn interrupt_step_spec(src: InterruptSource, c: CtxV) -> (
    InterruptSource,
    Option<Action>,
    CtxV,
) {
    match src {
        InterruptSource::Signalled { signal, blueprint } => {
            let (g2, fired, rng2) = pred_step_spec(signal, c.time, c.npc, c.world, c.rng);
            let c1 = CtxV { rng: rng2, ..c };
            if fired {
                (InterruptSource::Signalled { signal: g2, blueprint }, Some(*blueprint), c1)
            } else {
                (InterruptSource::Signalled { signal: g2, blueprint }, None, c1)
            }
        },
        InterruptSource::DialogueQueue => {
            if c.npc_dialogue.len() > 0 {
                (
                    src,
                    Some(c.npc_dialogue[0].1),
                    CtxV { npc_dialogue: c.npc_dialogue.remove(0), ..c },
                )
            } else {
                (src, None, c)
            }
        },
        InterruptSource::HiredWatch => {
            match c.npc.hiring {
                Some((tgt, expires)) => {
                    if c.time > expires {
                        (
                            src,
                            Some(
                                Action::Just(
                                    Effect::Say(
                                        Some(tgt),
                                        Content::Key(crate::npc::SpeechKey::HireExpired),
                                    ),
                                ),
                            ),
                            CtxV {
                                controller: ControllerV { hiring: Some(None), ..c.controller },
                                ..c
                            },
                        )
                    } else if crate::npc::sentiment_is_spec(
                        c.sentiments[tgt],
                        crate::npc::SENTIMENT_RIVAL,
                    ) {
                        (
                            src,
                            Some(
                                Action::Just(
                                    Effect::Say(
                                        Some(tgt),
                                        Content::Key(crate::npc::SpeechKey::HireCancelledUnhappy),
                                    ),
                                ),
                            ),
                            CtxV {
                                controller: ControllerV { hiring: Some(None), ..c.controller },
                                ..c
                            },
                        )
                    } else {
                        (src, None, c)
                    }
                },
                None => (src, None, c),
            }
        },
    }
}

fn interrupt_step(src: InterruptSource, ctx: &mut Ctx) -> (r: (InterruptSource, Option<Action>))
    ensures
        ({
            let (s2, alt, c2) = interrupt_step_spec(src, old(ctx)@);
            r.0 == s2 && r.1 == alt && final(ctx)@ == c2
        }),
        final(ctx).world == old(ctx).world,
        final(ctx).npc == old(ctx).npc,
        final(ctx).time == old(ctx).time,
        final(ctx).dt == old(ctx).dt,
        final(ctx).sentiments == old(ctx).sentiments,
        final(ctx).known_reports == old(ctx).known_reports,
{
    match src {
        InterruptSource::Signalled { signal, blueprint } => {
            let (g2, fired) = pred_step(signal, ctx.time, &ctx.npc, &ctx.world, &mut ctx.rng);
            if fired {
                let alt = duplicate_action(&blueprint);
                (InterruptSource::Signalled { signal: g2, blueprint }, Some(alt))
            } else {
                (InterruptSource::Signalled { signal: g2, blueprint }, None)
            }
        },
        InterruptSource::DialogueQueue => {
            if ctx.npc_dialogue.len() > 0 {
                let (_, act): (u64, Action) = ctx.npc_dialogue.remove(0);
                (InterruptSource::DialogueQueue, Some(act))
            } else {
                (InterruptSource::DialogueQueue, None)
            }
        },
        InterruptSource::HiredWatch => {
            match ctx.npc.hiring {
                Some((tgt, expires)) => {
                    if ctx.time > expires {
                        ctx.controller.end_hiring();
                        (
                            InterruptSource::HiredWatch,
                            Some(
                                Action::Just(
                                    Effect::Say(
                                        Some(tgt),
                                        Content::Key(crate::npc::SpeechKey::HireExpired),
                                    ),
                                ),
                            ),
                        )
                    } else if ctx.sentiments.is_toward(tgt, crate::npc::SENTIMENT_RIVAL) {
                        ctx.controller.end_hiring();
                        (
                            InterruptSource::HiredWatch,
                            Some(
                                Action::Just(
                                    Effect::Say(
                                        Some(tgt),
                                        Content::Key(crate::npc::SpeechKey::HireCancelledUnhappy),
                                    ),
                                ),
                            ),
                        )
                    } else {
                        (InterruptSource::HiredWatch, None)
                    }
                },
                None => (InterruptSource::HiredWatch, None),
            }
        },
    }
}

/// Bump a restart counter without ever wrapping.
pub open spec fn sat_inc_spec(x: u64) -> u64 {
    if x < u64::MAX {
        (x + 1) as u64
    } else {
        x
    }
}

// ---- the poll step itself ----

/// The complete model of one poll: the resumed action, the context after all
/// its effects and draws, and whether it completed. At most one unit of work
/// happens per poll, except where the contract of a combinator demands
/// same-call progress (sequencing, interruption, activation).
///
/// `fuel` bounds the work a single poll may perform on freshly built or
/// injected actions; exhausted fuel defers them to the next tick, so a poll
/// always returns promptly.
pub open spec fn poll_spec(a: Action, c: CtxV, fuel: u64) -> (Action, CtxV, ActionResult)
    decreases fuel, a,
{
    match a {
        Action::Finish => (a, c, ActionResult::Done),
        Action::Just(e) => (
            a,
            CtxV { controller: apply_effect_spec(e, c.controller), ..c },
            ActionResult::Done,
        ),
        Action::Then { first, second, in_second } => {
            if in_second {
                let (s2, c2, r2) = poll_spec(*second, c, fuel);
                (Action::Then { first, second: Box::new(s2), in_second: true }, c2, r2)
            } else {
                let (f2, c2, r1) = poll_spec(*first, c, fuel);
                if r1 == ActionResult::Done {
                    let (s2, c3, r2) = poll_spec(*second, c2, fuel);
                    (
                        Action::Then { first: Box::new(f2), second: Box::new(s2), in_second: true },
                        c3,
                        r2,
                    )
                } else {
                    (
                        Action::Then { first: Box::new(f2), second, in_second: false },
                        c2,
                        ActionResult::Running,
                    )
                }
            }
        },
        Action::Repeat { blueprint, current, restarts } => {
            let (cur2, c2, r) = poll_spec(*current, c, fuel);
            if r == ActionResult::Done {
                (
                    Action::Repeat { blueprint, current: blueprint, restarts: sat_inc_spec(restarts) },
                    c2,
                    ActionResult::Running,
                )
            } else {
                (
                    Action::Repeat { blueprint, current: Box::new(cur2), restarts },
                    c2,
                    ActionResult::Running,
                )
            }
        },
        Action::StopIf { pred, inner } => {
            let (p2, fired, rng2) = pred_step_spec(pred, c.time, c.npc, c.world, c.rng);
            let c1 = CtxV { rng: rng2, ..c };
            if fired {
                (Action::StopIf { pred: p2, inner }, c1, ActionResult::Done)
            } else {
                let (in2, c2, r) = poll_spec(*inner, c1, fuel);
                (Action::StopIf { pred: p2, inner: Box::new(in2) }, c2, r)
            }
        },
        Action::InterruptWith { source, active, inner } => {
            let (src2, opt_alt, c1) = interrupt_step_spec(source, c);
            match opt_alt {
                Some(alt) => {
                    if fuel == 0 {
                        (
                            Action::InterruptWith { source: src2, active: Some(Box::new(alt)), inner },
                            c1,
                            ActionResult::Running,
                        )
                    } else {
                        let (al2, c2, r) = poll_spec(alt, c1, (fuel - 1) as u64);
                        if r == ActionResult::Done {
                            (
                                Action::InterruptWith { source: src2, active: None, inner },
                                c2,
                                ActionResult::Running,
                            )
                        } else {
                            (
                                Action::InterruptWith {
                                    source: src2,
                                    active: Some(Box::new(al2)),
                                    inner,
                                },
                                c2,
                                ActionResult::Running,
                            )
                        }
                    }
                },
                None => {
                    match active {
                        Some(al) => {
                            let (al2, c2, r) = poll_spec(*al, c1, fuel);
                            if r == ActionResult::Done {
                                (
                                    Action::InterruptWith { source: src2, active: None, inner },
                                    c2,
                                    ActionResult::Running,
                                )
                            } else {
                                (
                                    Action::InterruptWith {
                                        source: src2,
                                        active: Some(Box::new(al2)),
                                        inner,
                                    },
                                    c2,
                                    ActionResult::Running,
                                )
                            }
                        },
                        None => {
                            let (in2, c2, r) = poll_spec(*inner, c1, fuel);
                            (
                                Action::InterruptWith {
                                    source: src2,
                                    active: None,
                                    inner: Box::new(in2),
                                },
                                c2,
                                r,
                            )
                        },
                    }
                },
            }
        },
        Action::Choose { options, chosen } => {
            match chosen {
                Some(ch) => {
                    let (ch2, c2, r) = poll_spec(*ch, c, fuel);
                    if r == ActionResult::Done {
                        (Action::Choose { options, chosen: None }, c2, ActionResult::Done)
                    } else {
                        (
                            Action::Choose { options, chosen: Some(Box::new(ch2)) },
                            c2,
                            ActionResult::Running,
                        )
                    }
                },
                None => {
                    if fuel == 0 {
                        (a, c, ActionResult::Running)
                    } else {
                        let draw = crate::rng::draw_spec(c.rng.state);
                        let c1 = CtxV {
                            rng: SimRng { state: crate::rng::advance_spec(c.rng.state) },
                            ..c
                        };
                        let cands = crate::behavior::candidates_spec(
                            options,
                            c.npc,
                            c.world,
                            c.time,
                            c.sentiments,
                            draw,
                        );
                        if cands.len() == 0 {
                            (Action::Choose { options, chosen: None }, c1, ActionResult::Done)
                        } else {
                            let (ch2, c2, r) = poll_spec(
                                cands[pick_spec(cands)].1,
                                c1,
                                (fuel - 1) as u64,
                            );
                            if r == ActionResult::Done {
                                (Action::Choose { options, chosen: None }, c2, ActionResult::Done)
                            } else {
                                (
                                    Action::Choose { options, chosen: Some(Box::new(ch2)) },
                                    c2,
                                    ActionResult::Running,
                                )
                            }
                        }
                    }
                },
            }
        },
        Action::Eval { sel, built } => {
            match built {
                Some(b0) => {
                    let (b2, c2, r) = poll_spec(*b0, c, fuel);
                    (Action::Eval { sel, built: Some(Box::new(b2)) }, c2, r)
                },
                None => {
                    if fuel == 0 {
                        (a, c, ActionResult::Running)
                    } else {
                        let draw = crate::rng::draw_spec(c.rng.state);
                        let c1 = CtxV {
                            rng: SimRng { state: crate::rng::advance_spec(c.rng.state) },
                            ..c
                        };
                        let b0 = crate::behavior::build_spec(
                            sel,
                            c.npc,
                            c.world,
                            c.time,
                            c.sentiments,
                            draw,
                        );
                        let (b2, c2, r) = poll_spec(b0, c1, (fuel - 1) as u64);
                        (Action::Eval { sel, built: Some(Box::new(b2)) }, c2, r)
                    }
                },
            }
        },
        Action::AwaitResponse { session, tag, branches, chosen } => {
            match chosen {
                Some(ch) => {
                    let (ch2, c2, r) = poll_spec(*ch, c, fuel);
                    (
                        Action::AwaitResponse { session, tag, branches, chosen: Some(Box::new(ch2)) },
                        c2,
                        r,
                    )
                },
                None => {
                    if fuel == 0 {
                        (a, c, ActionResult::Running)
                    } else {
                        match find_response_spec(c.inbox, session, tag) {
                            Some((i, rid)) => {
                                let c1 = CtxV { inbox: c.inbox.remove(i), ..c };
                                match find_branch_spec(branches, rid) {
                                    Some(bact) => {
                                        let (b2, c2, r) = poll_spec(bact, c1, (fuel - 1) as u64);
                                        (
                                            Action::AwaitResponse {
                                                session,
                                                tag,
                                                branches,
                                                chosen: Some(Box::new(b2)),
                                            },
                                            c2,
                                            r,
                                        )
                                    },
                                    None => (
                                        Action::AwaitResponse { session, tag, branches, chosen: None },
                                        c1,
                                        ActionResult::Done,
                                    ),
                                }
                            },
                            None => (a, c, ActionResult::Running),
                        }
                    }
                },
            }
        },
        Action::Tag { label, inner } => {
            let (in2, c2, r) = poll_spec(*inner, c, fuel);
            (Action::Tag { label, inner: Box::new(in2) }, c2, r)
        },
    }
}


#[verifier::rlimit(100)]
#[verifier::spinoff_prover]
fn poll_interrupt(
    source: InterruptSource,
    active: Option<Box<Action>>,
    inner: Box<Action>,
    ctx: &mut Ctx,
    fuel: u64,
) -> (r: (Action, ActionResult))
    ensures
        ({
            let (a2, c2, res) = poll_spec(
                Action::InterruptWith { source, active, inner },
                old(ctx)@,
                fuel,
            );
            r.0 == a2 && final(ctx)@ == c2 && r.1 == res
        }),
        final(ctx).world == old(ctx).world,
        final(ctx).npc == old(ctx).npc,
        final(ctx).time == old(ctx).time,
        final(ctx).dt == old(ctx).dt,
        final(ctx).sentiments == old(ctx).sentiments,
        final(ctx).known_reports == old(ctx).known_reports,
    decreases fuel, (Action::InterruptWith { source, active, inner }), 0int,
{
    let ghost a0 = Action::InterruptWith { source, active, inner };
    let (src2, opt_alt) = interrupt_step(source, ctx);
    match opt_alt {
        Some(alt) => {
            if fuel == 0 {
                (
                    Action::InterruptWith { source: src2, active: Some(Box::new(alt)), inner },
                    ActionResult::Running,
                )
            } else {
                let (al2, r) = poll(alt, ctx, fuel - 1);
                match r {
                    ActionResult::Done => (
                        Action::InterruptWith { source: src2, active: None, inner },
                        ActionResult::Running,
                    ),
                    ActionResult::Running => (
                        Action::InterruptWith { source: src2, active: Some(Box::new(al2)), inner },
                        ActionResult::Running,
                    ),
                }
            }
        },
        None => {
            match active {
                Some(al) => {
                    proof {
                        assert(decreases_to!(a0 => *al));
                    }
                    let (al2, r) = poll(*al, ctx, fuel);
                    match r {
                        ActionResult::Done => (
                            Action::InterruptWith { source: src2, active: None, inner },
                            ActionResult::Running,
                        ),
                        ActionResult::Running => (
                            Action::InterruptWith {
                                source: src2,
                                active: Some(Box::new(al2)),
                                inner,
                            },
                            ActionResult::Running,
                        ),
                    }
                },
                None => {
                    proof {
                        assert(decreases_to!(a0 => *inner));
                    }
                    let (in2, r) = poll(*inner, ctx, fuel);
                    (
                        Action::InterruptWith { source: src2, active: None, inner: Box::new(in2) },
                        r,
                    )
                },
            }
        },
    }
}

#[verifier::rlimit(100)]
#[verifier::spinoff_prover]
fn poll_choose(
    options: crate::behavior::ChoiceSel,
    chosen: Option<Box<Action>>,
    ctx: &mut Ctx,
    fuel: u64,
) -> (r: (Action, ActionResult))
    ensures
        ({
            let (a2, c2, res) = poll_spec(Action::Choose { options, chosen }, old(ctx)@, fuel);
            r.0 == a2 && final(ctx)@ == c2 && r.1 == res
        }),
        final(ctx).world == old(ctx).world,
        final(ctx).npc == old(ctx).npc,
        final(ctx).time == old(ctx).time,
        final(ctx).dt == old(ctx).dt,
        final(ctx).sentiments == old(ctx).sentiments,
        final(ctx).known_reports == old(ctx).known_reports,
    decreases fuel, (Action::Choose { options, chosen }), 0int,
{
    let ghost a0 = Action::Choose { options, chosen };
    match chosen {
        Some(ch) => {
            proof {
                assert(decreases_to!(a0 => *ch));
            }
            let (ch2, r) = poll(*ch, ctx, fuel);
            match r {
                ActionResult::Done => (
                    Action::Choose { options, chosen: None },
                    ActionResult::Done,
                ),
                ActionResult::Running => (
                    Action::Choose { options, chosen: Some(Box::new(ch2)) },
                    ActionResult::Running,
                ),
            }
        },
        None => {
            if fuel == 0 {
                (Action::Choose { options, chosen: None }, ActionResult::Running)
            } else {
                let draw = ctx.rng.next_u64();
                let mut cands = crate::behavior::candidates(
                    &options,
                    &ctx.npc,
                    &ctx.world,
                    ctx.time,
                    &ctx.sentiments,
                    draw,
                );
                if cands.len() == 0 {
                    (Action::Choose { options, chosen: None }, ActionResult::Done)
                } else {
                    let idx = pick(&cands);
                    let (_, cact): (Priority, Action) = cands.swap_remove(idx);
                    let (ch2, r) = poll(cact, ctx, fuel - 1);
                    match r {
                        ActionResult::Done => (
                            Action::Choose { options, chosen: None },
                            ActionResult::Done,
                        ),
                        ActionResult::Running => (
                            Action::Choose { options, chosen: Some(Box::new(ch2)) },
                            ActionResult::Running,
                        ),
                    }
                }
            }
        },
    }
}

#[verifier::rlimit(100)]
#[verifier::spinoff_prover]
fn poll_eval(
    sel: crate::behavior::Selector,
    built: Option<Box<Action>>,
    ctx: &mut Ctx,
    fuel: u64,
) -> (r: (Action, ActionResult))
    ensures
        ({
            let (a2, c2, res) = poll_spec(Action::Eval { sel, built }, old(ctx)@, fuel);
            r.0 == a2 && final(ctx)@ == c2 && r.1 == res
        }),
        final(ctx).world == old(ctx).world,
        final(ctx).npc == old(ctx).npc,
        final(ctx).time == old(ctx).time,
        final(ctx).dt == old(ctx).dt,
        final(ctx).sentiments == old(ctx).sentiments,
        final(ctx).known_reports == old(ctx).known_reports,
    decreases fuel, (Action::Eval { sel, built }), 0int,
{
    let ghost a0 = Action::Eval { sel, built };
    match built {
        Some(b0) => {
            proof {
                assert(decreases_to!(a0 => *b0));
            }
            let (b2, r) = poll(*b0, ctx, fuel);
            (Action::Eval { sel, built: Some(Box::new(b2)) }, r)
        },
        None => {
            if fuel == 0 {
                (Action::Eval { sel, built: None }, ActionResult::Running)
            } else {
                let draw = ctx.rng.next_u64();
                let b0 = crate::behavior::build(
                    &sel,
                    &ctx.npc,
                    &ctx.world,
                    ctx.time,
                    &ctx.sentiments,
                    draw,
                );
                let (b2, r) = poll(b0, ctx, fuel - 1);
                (Action::Eval { sel, built: Some(Box::new(b2)) }, r)
            }
        },
    }
}

#[verifier::rlimit(100)]
#[verifier::spinoff_prover]
fn poll_await(
    session: DialogueSession,
    tag: u32,
    branches: BranchList,
    chosen: Option<Box<Action>>,
    ctx: &mut Ctx,
    fuel: u64,
) -> (r: (Action, ActionResult))
    ensures
        ({
            let (a2, c2, res) = poll_spec(
                Action::AwaitResponse { session, tag, branches, chosen },
                old(ctx)@,
                fuel,
            );
            r.0 == a2 && final(ctx)@ == c2 && r.1 == res
        }),
        final(ctx).world == old(ctx).world,
        final(ctx).npc == old(ctx).npc,
        final(ctx).time == old(ctx).time,
        final(ctx).dt == old(ctx).dt,
        final(ctx).sentiments == old(ctx).sentiments,
        final(ctx).known_reports == old(ctx).known_reports,
    decreases fuel, (Action::AwaitResponse { session, tag, branches, chosen }), 0int,
{
    let ghost a0 = Action::AwaitResponse { session, tag, branches, chosen };
    match chosen {
        Some(ch) => {
            proof {
                assert(decreases_to!(a0 => *ch));
            }
            let (ch2, r) = poll(*ch, ctx, fuel);
            (
                Action::AwaitResponse { session, tag, branches, chosen: Some(Box::new(ch2)) },
                r,
            )
        },
        None => {
            if fuel == 0 {
                (
                    Action::AwaitResponse { session, tag, branches, chosen: None },
                    ActionResult::Running,
                )
            } else {
                match find_response(&ctx.inbox, session, tag) {
                    Some((i, rid)) => {
                        let _consumed = ctx.inbox.remove(i);
                        match find_branch(&branches, rid) {
                            Some(bact) => {
                                let (b2, r) = poll(bact, ctx, fuel - 1);
                                (
                                    Action::AwaitResponse {
                                        session,
                                        tag,
                                        branches,
                                        chosen: Some(Box::new(b2)),
                                    },
                                    r,
                                )
                            },
                            None => (
                                Action::AwaitResponse { session, tag, branches, chosen: None },
                                ActionResult::Done,
                            ),
                        }
                    },
                    None => (
                        Action::AwaitResponse { session, tag, branches, chosen: None },
                        ActionResult::Running,
                    ),
                }
            }
        },
    }
}

/// Poll an action once against the context. The behaviour is exactly the
/// model's: this is the only entry point through which a brain makes
/// progress.
#[verifier::rlimit(100)]
#[verifier::spinoff_prover]
pub fn poll(a: Action, ctx: &mut Ctx, fuel: u64) -> (r: (Action, ActionResult))
    ensures
        ({
            let (a2, c2, res) = poll_spec(a, old(ctx)@, fuel);
            r.0 == a2 && final(ctx)@ == c2 && r.1 == res
        }),
        final(ctx).world == old(ctx).world,
        final(ctx).npc == old(ctx).npc,
        final(ctx).time == old(ctx).time,
        final(ctx).dt == old(ctx).dt,
        final(ctx).sentiments == old(ctx).sentiments,
        final(ctx).known_reports == old(ctx).known_reports,
    decreases fuel, a, 1int,
{
    match a {
        Action::Finish => (Action::Finish, ActionResult::Done),
        Action::Just(e) => {
            apply_effect(&e, &mut ctx.controller);
            (Action::Just(e), ActionResult::Done)
        },
        Action::Then { first, second, in_second } => {
            if in_second {
                let (s2, r2) = poll(*second, ctx, fuel);
                (Action::Then { first, second: Box::new(s2), in_second: true }, r2)
            } else {
                let (f2, r1) = poll(*first, ctx, fuel);
                match r1 {
                    ActionResult::Done => {
                        let (s2, r2) = poll(*second, ctx, fuel);
                        (
                            Action::Then {
                                first: Box::new(f2),
                                second: Box::new(s2),
                                in_second: true,
                            },
                            r2,
                        )
                    },
                    ActionResult::Running => (
                        Action::Then { first: Box::new(f2), second, in_second: false },
                        ActionResult::Running,
                    ),
                }
            }
        },
        Action::Repeat { blueprint, current, restarts } => {
            let (cur2, r) = poll(*current, ctx, fuel);
            match r {
                ActionResult::Done => {
                    let fresh = duplicate_action(&blueprint);
                    let restarts2: u64 = if restarts < u64::MAX {
                        restarts + 1
                    } else {
                        restarts
                    };
                    (
                        Action::Repeat {
                            blueprint,
                            current: Box::new(fresh),
                            restarts: restarts2,
                        },
                        ActionResult::Running,
                    )
                },
                ActionResult::Running => (
                    Action::Repeat { blueprint, current: Box::new(cur2), restarts },
                    ActionResult::Running,
                ),
            }
        },
        Action::StopIf { pred, inner } => {
            let (p2, fired) = pred_step(pred, ctx.time, &ctx.npc, &ctx.world, &mut ctx.rng);
            if fired {
                (Action::StopIf { pred: p2, inner }, ActionResult::Done)
            } else {
                let (in2, r) = poll(*inner, ctx, fuel);
                (Action::StopIf { pred: p2, inner: Box::new(in2) }, r)
            }
        },
        Action::InterruptWith { source, active, inner } => poll_interrupt(source, active, inner, ctx, fuel),
        Action::Choose { options, chosen } => poll_choose(options, chosen, ctx, fuel),
        Action::Eval { sel, built } => poll_eval(sel, built, ctx, fuel),
        Action::AwaitResponse { session, tag, branches, chosen } => poll_await(session, tag, branches, chosen, ctx, fuel),
        Action::Tag { label, inner } => {
            let (in2, r) = poll(*inner, ctx, fuel);
            (Action::Tag { label, inner: Box::new(in2) }, r)
        },
    }
}

// ---- laws of the combinators ----

/// Law of sequencing: when the first action of a sequence completes during a
/// poll, the second is polled within the very same call — its effects land in
/// the same context, with no tick of latency between the two.
pub proof fn lemma_then_no_extra_tick(first: Action, second: Action, c: CtxV, fuel: u64)
    requires
        poll_spec(first, c, fuel).2 == ActionResult::Done,
    ensures
        ({
            let (f2, c2, r1) = poll_spec(first, c, fuel);
            let (s2, c3, r2) = poll_spec(second, c2, fuel);
            poll_spec(
                Action::Then {
                    first: Box::new(first),
                    second: Box::new(second),
                    in_second: false,
                },
                c,
                fuel,
            ) == (
                Action::Then { first: Box::new(f2), second: Box::new(s2), in_second: true },
                c3,
                r2,
            )
        }),
{
}

/// Law of repetition, first half: a repetition never reports completion,
/// whatever its inner action does.
pub proof fn lemma_repeat_never_done(
    blueprint: Box<Action>,
    current: Box<Action>,
    restarts: u64,
    c: CtxV,
    fuel: u64,
)
    ensures
        poll_spec(Action::Repeat { blueprint, current, restarts }, c, fuel).2
            == ActionResult::Running,
{
}

/// An action that reports completion on every poll, in every context.
pub open spec fn completes_immediately(a: Action) -> bool {
    forall|c: CtxV, fuel: u64| (#[trigger] poll_spec(a, c, fuel)).2 == ActionResult::Done
}

/// The action and context after `n` successive polls.
pub open spec fn poll_n_spec(a: Action, c: CtxV, fuel: u64, n: nat) -> (Action, CtxV)
    decreases n,
{
    if n == 0 {
        (a, c)
    } else {
        let (a2, c2, r) = poll_spec(a, c, fuel);
        poll_n_spec(a2, c2, fuel, (n - 1) as nat)
    }
}

/// Law of repetition, second half: wrapped around an action that always
/// completes immediately, a repetition restarts a fresh copy of its blueprint
/// on every one of `n` polls — the restart counter shows exactly `n` fresh
/// instances were made.
pub proof fn lemma_repeat_restarts(
    blueprint: Box<Action>,
    current: Box<Action>,
    restarts: u64,
    c: CtxV,
    fuel: u64,
    n: nat,
)
    requires
        completes_immediately(*blueprint),
        completes_immediately(*current),
        restarts + n <= u64::MAX,
    ensures
        ({
            let (a2, c2) = poll_n_spec(
                Action::Repeat { blueprint, current, restarts },
                c,
                fuel,
                n,
            );
            n > 0 ==> a2 == (Action::Repeat {
                blueprint,
                current: blueprint,
                restarts: (restarts + n) as u64,
            })
        }),
    decreases n,
{
    if n > 0 {
        let (cur2, c1, r1) = poll_spec(*current, c, fuel);
        assert(r1 == ActionResult::Done);
        lemma_repeat_restarts(
            blueprint,
            blueprint,
            (restarts + 1) as u64,
            c1,
            fuel,
            (n - 1) as nat,
        );
    }
}

/// Law of the stop condition: when the predicate fires on a poll — the very
/// first included — the wrapper completes at once. The inner action is not
/// polled at all: its state is returned untouched and the context shows only
/// the predicate's own evaluation, no effect of the inner action.
pub proof fn lemma_stop_if_precedence(pred: Predicate, inner: Box<Action>, c: CtxV, fuel: u64)
    requires
        pred_step_spec(pred, c.time, c.npc, c.world, c.rng).1,
    ensures
        ({
            let (p2, fired, rng2) = pred_step_spec(pred, c.time, c.npc, c.world, c.rng);
            poll_spec(Action::StopIf { pred, inner }, c, fuel) == (
                Action::StopIf { pred: p2, inner },
                (CtxV { rng: rng2, ..c }),
                ActionResult::Done,
            )
        }),
{
}

/// Law of interruption, first half: while the source produces an alternative
/// or an alternative is still running, the wrapped action is not polled and
/// its state is preserved exactly; the wrapper keeps running.
pub proof fn lemma_interrupt_preserves_inner(
    source: InterruptSource,
    active: Option<Box<Action>>,
    inner: Box<Action>,
    c: CtxV,
    fuel: u64,
)
    requires
        interrupt_step_spec(source, c).1 is Some || active is Some,
    ensures
        ({
            let (a2, c2, res) = poll_spec(
                Action::InterruptWith { source, active, inner },
                c,
                fuel,
            );
            res == ActionResult::Running && (a2 matches Action::InterruptWith {
                inner: inner2,
                ..
            } && inner2 == inner)
        }),
{
}

/// Law of interruption, second half: once the source is quiet and no
/// alternative is running, the wrapper is transparent — the inner action is
/// polled from exactly the state it had when the interruption began.
pub proof fn lemma_interrupt_resume(source: InterruptSource, inner: Box<Action>, c: CtxV, fuel: u64)
    requires
        interrupt_step_spec(source, c).1 is None,
    ensures
        ({
            let (s2, alt, c1) = interrupt_step_spec(source, c);
            let (in2, c2, r) = poll_spec(*inner, c1, fuel);
            poll_spec(Action::InterruptWith { source, active: None, inner }, c, fuel) == (
                Action::InterruptWith { source: s2, active: None, inner: Box::new(in2) },
                c2,
                r,
            )
        }),
{
}

} // verus!
