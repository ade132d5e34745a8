//! The per-tick NPC scheduler: loaded NPCs run every tick with the true tick
//! delta; simulated NPCs run once every fixed number of ticks, phase-shifted
//! by a stable per-NPC seed so polls spread evenly, and receive the summed
//! wall time of the missed ticks so time-dependent behaviour stays correct.
//!
//! Polls never write to other NPCs directly: cross-NPC actions are staged in
//! each controller's outbox and delivered serially after all polls, so a
//! message sent this tick is never visible to its recipient the same tick.

use vstd::prelude::*;

use crate::action::{Action, Controller, Ctx, poll, ActionResult};
use crate::npc::{Brain, Npc, NpcInput, NpcView, Role, SimulationMode, WorldView};
use crate::rng::SimRng;

verus! {

/// How many ticks pass between polls of a simulated NPC. Loaded NPCs run
/// every tick.
pub const SIMULATED_TICK_SKIP: u64 = 10;

/// The work budget of one poll: how many freshly built sub-behaviours a
/// single poll may enter before deferring to the next tick.
pub const POLL_FUEL: u64 = 64;

/// Tick deltas stay below this bound, so a window sum is far from overflow.
pub const DT_LIMIT: u64 = 0x1_0000_0000;

pub open spec fn window_sum_spec(s: Seq<u64>) -> int
    decreases s.len(),
{
    if s.len() == 0 {
        0
    } else {
        s[0] + window_sum_spec(s.skip(1))
    }
}

/// A rolling window of the most recent tick deltas, of fixed capacity: once
/// full, pushing a new delta evicts the oldest.
#[derive(Debug, PartialEq)]
pub struct DtWindow {
    pub buf: Vec<u64>,
    pub cap: usize,
}

/// What the window holds after one push.
pub open spec fn window_push_spec(buf: Seq<u64>, cap: int, dt: u64) -> Seq<u64> {
    if buf.len() < cap {
        buf.push(dt)
    } else {
        buf.skip(1).push(dt)
    }
}

/// The window contents after a whole run of pushes, starting empty.
pub open spec fn window_after_spec(cap: int, dts: Seq<u64>) -> Seq<u64>
    decreases dts.len(),
{
    if dts.len() == 0 {
        Seq::empty()
    } else {
        window_push_spec(window_after_spec(cap, dts.drop_last()), cap, dts.last())
    }
}

impl DtWindow {
    pub open spec fn wf(&self) -> bool {
        self.cap >= 1 && self.buf@.len() <= self.cap && (forall|i: int|
            0 <= i < self.buf@.len() ==> #[trigger] self.buf@[i] <= DT_LIMIT)
    }

    pub fn new(cap: usize) -> (r: DtWindow)
        requires
            1 <= cap <= 1024,
        ensures
            r.wf(),
            r.cap == cap,
            r.buf@.len() == 0,
    {
        DtWindow { buf: Vec::new(), cap }
    }

    /// Push this tick's delta, evicting the oldest once the window is full.
    pub fn push(&mut self, dt: u64)
        requires
            old(self).wf(),
            dt <= DT_LIMIT,
        ensures
            final(self).wf(),
            final(self).cap == old(self).cap,
            final(self).buf@ == window_push_spec(old(self).buf@, old(self).cap as int, dt),
    {
        if self.buf.len() >= self.cap {
            let _evicted = self.buf.remove(0);
            proof {
                assert(self.buf@ =~= old(self).buf@.skip(1));
            }
        }
        self.buf.push(dt);
        proof {
            assert forall|i: int| 0 <= i < self.buf@.len() implies #[trigger] self.buf@[i]
                <= DT_LIMIT by {
                if i < self.buf@.len() - 1 {
                    if old(self).buf@.len() < old(self).cap {
                        assert(self.buf@[i] == old(self).buf@[i]);
                    } else {
                        assert(self.buf@[i] == old(self).buf@[i + 1]);
                    }
                }
            }
        }
    }

    /// The summed wall time the window covers.
    pub fn sum(&self) -> (r: u64)
        requires
            self.wf(),
            self.buf@.len() <= 1024,
        ensures
            r == window_sum_spec(self.buf@),
    {
        proof {
            assert(self.buf@.skip(0) =~= self.buf@);
        }
        let mut total: u64 = 0;
        let mut i: usize = 0;
        while i < self.buf.len()
            invariant
                self.wf(),
                i <= self.buf@.len(),
                self.buf@.len() <= 1024,
                total + window_sum_spec(self.buf@.skip(i as int)) == window_sum_spec(self.buf@),
                total <= i * (DT_LIMIT as int),
            decreases self.buf@.len() - i,
        {
            proof {
                assert(self.buf@.skip(i as int)[0] == self.buf@[i as int]);
                assert(self.buf@.skip(i as int).skip(1) =~= self.buf@.skip(i + 1));
                assert((i + 1) * (DT_LIMIT as int) == i * (DT_LIMIT as int) + DT_LIMIT);
                lemma_window_sum_nonneg(self.buf@.skip(i + 1));
            }
            total = total + self.buf[i];
            i += 1;
        }
        proof {
            assert(self.buf@.skip(self.buf@.len() as int).len() == 0);
        }
        total
    }
}

pub proof fn lemma_window_sum_nonneg(s: Seq<u64>)
    ensures
        window_sum_spec(s) >= 0,
    decreases s.len(),
{
    if s.len() > 0 {
        lemma_window_sum_nonneg(s.skip(1));
    }
}

/// Law of the rolling window: after any run of pushes into an empty window,
/// the window holds exactly the most recent `cap` deltas — so the time a
/// simulated NPC is handed is the sum of the deltas since it last ran, not a
/// single tick's.
pub proof fn lemma_window_holds_recent(cap: int, dts: Seq<u64>)
    requires
        cap >= 1,
    ensures
        window_after_spec(cap, dts) == (if dts.len() <= cap {
            dts
        } else {
            dts.skip(dts.len() - cap)
        }),
    decreases dts.len(),
{
    if dts.len() == 0 {
        assert(window_after_spec(cap, dts) =~= dts);
    } else {
        let front = dts.drop_last();
        lemma_window_holds_recent(cap, front);
        if dts.len() <= cap {
            assert(front.len() < cap);
            assert(front.push(dts.last()) =~= dts);
        } else if dts.len() == cap + 1 {
            assert(front.len() == cap);
            assert(front.skip(1).push(dts.last()) =~= dts.skip(1));
        } else {
            assert(front.skip(front.len() - cap).skip(1).push(dts.last()) =~= dts.skip(
                dts.len() - cap,
            ));
        }
    }
}

/// Whether an NPC runs its brain this tick: it must be alive, not a vehicle,
/// and either loaded or at its phase of the skip cycle, the phase offset
/// coming from its stable seed.
pub open spec fn eligible_spec(
    health_pm: i32,
    role: Role,
    mode: SimulationMode,
    seed: u32,
    tick: u64,
) -> bool {
    health_pm > 0 && role != Role::Vehicle && (mode == SimulationMode::Loaded || vstd::wrapping::u64_specs::wrapping_add(
        seed as u64,
        tick,
    ) % SIMULATED_TICK_SKIP == 0)
}

pub fn eligible(health_pm: i32, role: Role, mode: SimulationMode, seed: u32, tick: u64) -> (r:
    bool)
    ensures
        r == eligible_spec(health_pm, role, mode, seed, tick),
{
    health_pm > 0 && role != Role::Vehicle && (mode == SimulationMode::Loaded || (seed
        as u64).wrapping_add(tick) % SIMULATED_TICK_SKIP == 0)
}

/// The elapsed time handed to a brain: the true tick delta for a loaded NPC,
/// the window's summed wall time for a simulated one.
pub fn brain_dt(mode: SimulationMode, dt: u64, window_sum: u64) -> (r: u64)
    ensures
        mode == SimulationMode::Loaded ==> r == dt,
        mode != SimulationMode::Loaded ==> r == window_sum,
{
    match mode {
        SimulationMode::Loaded => dt,
        _ => window_sum,
    }
}

/// The root behaviour a brain starts from when first scheduled: re-evaluate
/// the behaviour selector forever.
pub open spec fn default_brain_spec() -> Action {
    Action::Repeat {
        blueprint: Box::new(
            Action::Eval { sel: crate::behavior::Selector::Think, built: None },
        ),
        current: Box::new(Action::Eval { sel: crate::behavior::Selector::Think, built: None }),
        restarts: 0,
    }
}

pub fn default_brain() -> (r: Brain)
    ensures
        r.action == default_brain_spec(),
{
    Brain {
        action: Action::Repeat {
            blueprint: Box::new(
                Action::Eval { sel: crate::behavior::Selector::Think, built: None },
            ),
            current: Box::new(Action::Eval { sel: crate::behavior::Selector::Think, built: None }),
            restarts: 0,
        },
    }
}

/// The read-only snapshot of an NPC its own brain sees. The mount-link state
/// is supplied by the caller, which owns the link store.
pub open spec fn npc_view_spec(
    n: Npc,
    riding: Option<(u64, bool)>,
    mount_body: Option<crate::npc::BodyTag>,
) -> NpcView {
    NpcView {
        id: n.uid,
        seed: n.seed,
        pos: n.wpos,
        body: n.body,
        role: n.role,
        home: n.home,
        faction: n.faction,
        health_pm: n.health_pm,
        personality: n.personality,
        hiring: n.hiring,
        current_site: n.current_site,
        mode: n.mode,
        riding,
        mount_body,
    }
}

/// A controller at the start of a scheduling pass: activity and facing are
/// neutral; everything else carries over.
pub open spec fn controller_reset_spec(c: crate::action::ControllerV) -> crate::action::ControllerV {
    crate::action::ControllerV { activity: None, look_dir: None, ..c }
}

pub open spec fn is_dialogue_input(i: NpcInput) -> bool {
    match i {
        NpcInput::Dialogue(_, _) => true,
        _ => false,
    }
}

/// How one poll of a brain relates an NPC's state before and after its turn,
/// for the entropy drawn at the scheduling boundary. Persistent identity is
/// untouched; the transient state steps exactly per the action model; of the
/// inbox, only dialogue entries not yet consumable are retained.
pub open spec fn npc_tick_rel(
    pre: Npc,
    post: Npc,
    brain0: Action,
    world: WorldView,
    time: u64,
    dt_eff: u64,
    riding: Option<(u64, bool)>,
    mount_body: Option<crate::npc::BodyTag>,
    seed: u64,
    outbox: Seq<(u64, Action)>,
) -> bool {
    // Reaction pre-pass: unseen reports and interactions are reacted to and
    // consumed, opinions shift, and the provoked reaction (or an attack on
    // the first nearby enemy) is queued ahead of any delivered dialogue, so
    // the root action's interrupt picks it up within this same poll.
    let (kept, known1, sents1, act0) = crate::behavior::inbox_fold_spec(
        pre.inbox@,
        pre.known_reports@,
        crate::action::sentiments_map(pre.sentiments),
        npc_view_spec(pre, riding, mount_body),
        world,
    );
    let react = if act0 is Some {
        act0
    } else {
        match crate::behavior::first_enemy_spec(world.nearby@, sents1) {
            Some(e) => Some(
                Action::Just(crate::action::Effect::Attack(e)),
            ),
            None => None,
        }
    };
    let queue0 = match react {
        Some(a) => seq![(pre.uid, a)] + pre.npc_dialogue@,
        None => pre.npc_dialogue@,
    };
    let ctx0 = crate::action::CtxV {
        time,
        dt: dt_eff,
        rng: SimRng { state: seed },
        controller: controller_reset_spec(pre.controller@),
        npc: npc_view_spec(pre, riding, mount_body),
        world,
        inbox: kept,
        sentiments: sents1,
        known_reports: known1,
        npc_dialogue: queue0,
    };
    let (a2, c2, res) = crate::action::poll_spec(brain0, ctx0, POLL_FUEL);
    post.uid == pre.uid && post.seed == pre.seed && post.wpos == pre.wpos && post.dir == pre.dir
        && post.body == pre.body && post.role == pre.role && post.home == pre.home && post.faction
        == pre.faction && post.health_pm == pre.health_pm && post.personality == pre.personality
        && post.hiring == pre.hiring && post.current_site == pre.current_site && post.mode
        == pre.mode && post.controller@ == (crate::action::ControllerV {
        npc_actions: Seq::empty(),
        ..c2.controller
    }) && outbox == c2.controller.npc_actions && post.inbox@ == c2.inbox.filter(
        |i: NpcInput| is_dialogue_input(i),
    ) && crate::action::sentiments_map(post.sentiments) == c2.sentiments && post.sentiments.wf()
        && post.known_reports@ == c2.known_reports && post.npc_dialogue@ == c2.npc_dialogue && (
    post.brain matches Some(b) && b.action == a2)
}

/// A trivially true fact naming one entropy draw, as a quantifier handle.
pub open spec fn seed_drawn(seed: u64) -> bool {
    true
}

/// Run one NPC's brain for one poll: detach its transient state to a context,
/// reset the controller, poll the root action once, reattach the results, and
/// drop the consumed inbox entries (dialogue turns not yet consumable stay).
/// The outcome follows the action model exactly for the one seed drawn here.
pub fn run_npc_tick(
    npc: &mut Npc,
    world: WorldView,
    time: u64,
    dt_eff: u64,
    riding: Option<(u64, bool)>,
    mount_body: Option<crate::npc::BodyTag>,
) -> (r: (WorldView, Vec<(u64, Action)>))
    requires
        old(npc).sentiments.wf(),
    ensures
        r.0 == world,
        exists|seed: u64|
            #[trigger] seed_drawn(seed) && npc_tick_rel(
                *old(npc),
                *final(npc),
                brain_root_spec(*old(npc)),
                world,
                time,
                dt_eff,
                riding,
                mount_body,
                seed,
                r.1@,
            ),
{
    let seed = crate::rng::fresh_seed();
    let mut brain: Brain = default_brain();
    let had = match &npc.brain {
        Some(_) => true,
        None => false,
    };
    if had {
        let mut slot: Option<Brain> = None;
        core::mem::swap(&mut slot, &mut npc.brain);
        match slot {
            Some(b) => {
                brain = b;
            },
            None => {},
        }
    }
    let ghost brain0 = brain.action;
    let mut controller = Controller::new();
    core::mem::swap(&mut controller, &mut npc.controller);
    controller.reset();
    let mut inbox: Vec<NpcInput> = Vec::new();
    core::mem::swap(&mut inbox, &mut npc.inbox);
    let mut sentiments = crate::npc::Sentiments::new();
    core::mem::swap(&mut sentiments, &mut npc.sentiments);
    let mut known_reports: Vec<u64> = Vec::new();
    core::mem::swap(&mut known_reports, &mut npc.known_reports);
    let mut npc_dialogue: Vec<(u64, Action)> = Vec::new();
    core::mem::swap(&mut npc_dialogue, &mut npc.npc_dialogue);
    let view = NpcView {
        id: npc.uid,
        seed: npc.seed,
        pos: npc.wpos,
        body: npc.body,
        role: npc.role,
        home: npc.home,
        faction: npc.faction,
        health_pm: npc.health_pm,
        personality: npc.personality,
        hiring: npc.hiring,
        current_site: npc.current_site,
        mode: npc.mode,
        riding,
        mount_body,
    };
    // Reaction pre-pass: react to the inbox, then to nearby enemies; the
    // provoked action is queued ahead of delivered dialogue so this very
    // poll's interrupt runs it.
    let (kept_inbox, act0): (Vec<NpcInput>, Option<Action>) = crate::behavior::inbox_step(
        inbox,
        &mut known_reports,
        &mut sentiments,
        &view,
        &world,
    );
    let react: Option<Action> = match act0 {
        Some(a) => Some(a),
        None => {
            match crate::behavior::first_enemy(&world.nearby, &sentiments) {
                Some(e) => Some(Action::Just(crate::action::Effect::Attack(e))),
                None => None,
            }
        },
    };
    let sender_uid: u64 = npc.uid;
    match react {
        Some(a) => {
            npc_dialogue.insert(0, (sender_uid, a));
        },
        None => {},
    }
    let mut ctx = Ctx {
        time,
        dt: dt_eff,
        rng: SimRng::new(seed),
        controller,
        npc: view,
        world,
        inbox: kept_inbox,
        sentiments,
        known_reports,
        npc_dialogue,
    };
    proof {
        assert(ctx@.controller == controller_reset_spec(old(npc).controller@));
        assert(ctx@.npc == npc_view_spec(*old(npc), riding, mount_body));
        // The executable pre-pass matches the model's, entry for entry.
        let (kept_s, known1, sents1, act0_s) = crate::behavior::inbox_fold_spec(
            old(npc).inbox@,
            old(npc).known_reports@,
            crate::action::sentiments_map(old(npc).sentiments),
            npc_view_spec(*old(npc), riding, mount_body),
            world,
        );
        assert(ctx@.inbox == kept_s);
        assert(ctx@.known_reports == known1);
        assert(ctx@.sentiments == sents1);
        let react_s = if act0_s is Some {
            act0_s
        } else {
            match crate::behavior::first_enemy_spec(world.nearby@, sents1) {
                Some(e) => Some(Action::Just(crate::action::Effect::Attack(e))),
                None => None::<Action>,
            }
        };
        match react_s {
            Some(a) => {
                assert(seq![(old(npc).uid, a)] + old(npc).npc_dialogue@ =~= old(
                    npc,
                ).npc_dialogue@.insert(0, (old(npc).uid, a)));
                assert(ctx@.npc_dialogue == seq![(old(npc).uid, a)] + old(npc).npc_dialogue@);
            },
            None => {
                assert(ctx@.npc_dialogue == old(npc).npc_dialogue@);
            },
        }
    }
    let (a2, _res): (Action, ActionResult) = poll(brain.action, &mut ctx, POLL_FUEL);
    let Ctx {
        controller: mut c_out,
        inbox: inbox_out,
        sentiments: sent_out,
        known_reports: kr_out,
        npc_dialogue: nd_out,
        world: w_out,
        ..
    } = ctx;
    // The staged cross-NPC actions leave with the caller; the reattached
    // controller's outbox is empty.
    let mut outbox: Vec<(u64, Action)> = Vec::new();
    let ghost c_full = c_out@;
    core::mem::swap(&mut outbox, &mut c_out.npc_actions);
    proof {
        assert(c_out@ == (crate::action::ControllerV { npc_actions: Seq::empty(), ..c_full }))
            by {
            assert(c_out.npc_actions@ =~= Seq::<(u64, Action)>::empty());
        }
    }
    npc.controller = c_out;
    npc.sentiments = sent_out;
    npc.known_reports = kr_out;
    npc.npc_dialogue = nd_out;
    npc.brain = Some(Brain { action: a2 });
    // Consumed inputs are dropped; unconsumed dialogue turns are retained for
    // a later poll.
    let mut kept: Vec<NpcInput> = Vec::new();
    let mut i: usize = 0;
    proof {
        reveal_with_fuel(Seq::filter, 2);
        assert(inbox_out@.subrange(0, 0) =~= Seq::<NpcInput>::empty());
        assert(inbox_out@.subrange(0, 0).filter(|x: NpcInput| is_dialogue_input(x))
            =~= Seq::<NpcInput>::empty());
    }
    while i < inbox_out.len()
        invariant
            i <= inbox_out@.len(),
            kept@ == inbox_out@.subrange(0, i as int).filter(
                |x: NpcInput| is_dialogue_input(x),
            ),
        decreases inbox_out@.len() - i,
    {
        proof {
            reveal_with_fuel(Seq::filter, 2);
            let sub = inbox_out@.subrange(0, i as int);
            let sub1 = inbox_out@.subrange(0, i + 1);
            assert(sub1 =~= sub.push(inbox_out@[i as int]));
            assert(sub1.drop_last() =~= sub);
            assert(sub1.last() == inbox_out@[i as int]);
        }
        let keep = match &inbox_out[i] {
            NpcInput::Dialogue(_, _) => true,
            _ => false,
        };
        if keep {
            let moved = duplicate_input(&inbox_out[i]);
            kept.push(moved);
        }
        i += 1;
    }
    proof {
        assert(inbox_out@.subrange(0, inbox_out@.len() as int) =~= inbox_out@);
    }
    npc.inbox = kept;
    proof {
        assert(seed_drawn(seed));
    }
    (w_out, outbox)
}

/// Duplicate one inbox entry exactly.
pub(crate) fn duplicate_input(x: &NpcInput) -> (r: NpcInput)
    ensures
        r == *x,
{
    match x {
        NpcInput::Report(id) => NpcInput::Report(*id),
        NpcInput::Interaction(a) => NpcInput::Interaction(*a),
        NpcInput::Dialogue(from, d) => NpcInput::Dialogue(*from, duplicate_dialogue(d)),
    }
}

pub(crate) fn duplicate_dialogue(d: &crate::npc::Dialogue) -> (r: crate::npc::Dialogue)
    ensures
        r == *d,
{
    let kind = match &d.kind {
        crate::npc::DialogueKind::Start => crate::npc::DialogueKind::Start,
        crate::npc::DialogueKind::End => crate::npc::DialogueKind::End,
        crate::npc::DialogueKind::Statement(c) => crate::npc::DialogueKind::Statement(
            crate::action::duplicate_content(c),
        ),
        crate::npc::DialogueKind::Question { tag, msg, responses } => {
            crate::npc::DialogueKind::Question {
                tag: *tag,
                msg: crate::action::duplicate_content(msg),
                responses: crate::action::duplicate_responses(responses),
            }
        },
        crate::npc::DialogueKind::Response { tag, response, response_id } => {
            crate::npc::DialogueKind::Response {
                tag: *tag,
                response: crate::action::duplicate_response(response),
                response_id: *response_id,
            }
        },
        crate::npc::DialogueKind::Marker { wpos, name } => crate::npc::DialogueKind::Marker {
            wpos: *wpos,
            name: crate::action::duplicate_content(name),
        },
    };
    crate::npc::Dialogue { id: d.id, kind }
}

/// The root action a brain runs: its persisted one, or the default on the
/// first eligible tick.
pub open spec fn brain_root_spec(n: Npc) -> Action {
    match n.brain {
        Some(b) => b.action,
        None => default_brain_spec(),
    }
}

/// The elapsed time a brain is handed: the true tick delta when loaded, the
/// window's summed wall time when simulated.
pub open spec fn effective_dt_spec(mode: SimulationMode, dt: u64, sim_dt: u64) -> u64 {
    if mode == SimulationMode::Loaded {
        dt
    } else {
        sim_dt
    }
}

/// `post` is `pre` with nothing changed but response actions appended to its
/// dialogue queue — the only write the serial delivery phase may make.
pub open spec fn same_but_dialogue(pre: Npc, post: Npc) -> bool {
    post.uid == pre.uid && post.seed == pre.seed && post.wpos == pre.wpos && post.dir == pre.dir
        && post.body == pre.body && post.role == pre.role && post.home == pre.home && post.faction
        == pre.faction && post.health_pm == pre.health_pm && post.known_reports == pre.known_reports
        && post.personality == pre.personality && post.sentiments == pre.sentiments && post.hiring
        == pre.hiring && post.current_site == pre.current_site && post.controller == pre.controller
        && post.inbox == pre.inbox && post.mode == pre.mode && post.brain == pre.brain
        && pre.npc_dialogue@.is_prefix_of(post.npc_dialogue@)
}

/// One NPC was polled exactly once against the pre-tick world: for some
/// boundary seed, its new state and staged outbox follow the action model.
pub open spec fn npc_polled(pre: Npc, post: Npc, world: WorldView, time: u64, dt_eff: u64) -> bool {
    exists|seed: u64, outbox: Seq<(u64, Action)>|
        #[trigger] npc_tick_rel(
            pre,
            post,
            brain_root_spec(pre),
            world,
            time,
            dt_eff,
            None,
            None,
            seed,
            outbox,
        )
}

/// What one whole scheduling pass does to one NPC: an eligible NPC is polled
/// exactly once, with the loaded or summed-window time as its mode demands,
/// and afterwards only gains delivered dialogue entries; an NPC that was not
/// eligible is untouched except for delivered dialogue entries.
pub open spec fn tick_outcome_spec(
    pre: Npc,
    post: Npc,
    world: WorldView,
    time: u64,
    dt: u64,
    sim_dt: u64,
    tick: u64,
) -> bool {
    if eligible_spec(pre.health_pm, pre.role, pre.mode, pre.seed, tick) {
        exists|mid: Npc|
            #[trigger] npc_polled(pre, mid, world, time, effective_dt_spec(pre.mode, dt, sim_dt))
                && same_but_dialogue(mid, post)
    } else {
        same_but_dialogue(pre, post)
    }
}

proof fn lemma_same_but_dialogue_refl(n: Npc)
    ensures
        same_but_dialogue(n, n),
{
    assert(n.npc_dialogue@.subrange(0, n.npc_dialogue@.len() as int) =~= n.npc_dialogue@);
}

proof fn lemma_same_but_dialogue_trans(a: Npc, b: Npc, c: Npc)
    requires
        same_but_dialogue(a, b),
        same_but_dialogue(b, c),
    ensures
        same_but_dialogue(a, c),
{
    let la = a.npc_dialogue@.len() as int;
    assert(c.npc_dialogue@.subrange(0, b.npc_dialogue@.len() as int).subrange(0, la)
        =~= c.npc_dialogue@.subrange(0, la));
    assert(a.npc_dialogue@ =~= c.npc_dialogue@.subrange(0, la));
}

/// Drive one whole scheduling pass: push this tick's delta into the window,
/// poll every eligible NPC's brain once — loaded NPCs against the true tick
/// delta, simulated NPCs against the window's summed wall time — and only
/// then deliver the staged cross-NPC response actions serially. Every poll
/// runs against the pre-tick state, so a message staged this tick reaches its
/// recipient's queue only afterwards and is never visible to a poll of the
/// same tick; each delivered entry carries its sender's id.
#[verifier::rlimit(100)]
#[verifier::spinoff_prover]
pub fn tick_all(
    npcs: &mut Vec<Npc>,
    world: WorldView,
    window: &mut DtWindow,
    tick: u64,
    time: u64,
    dt: u64,
)
    requires
        old(window).wf(),
        old(window).cap <= 1024,
        dt <= DT_LIMIT,
        forall|i: int| 0 <= i < old(npcs)@.len() ==> (#[trigger] old(npcs)@[i]).sentiments.wf(),
    ensures
        final(window).wf(),
        final(window).buf@ == window_push_spec(old(window).buf@, old(window).cap as int, dt),
        final(npcs)@.len() == old(npcs)@.len(),
        forall|i: int| 0 <= i < final(npcs)@.len() ==> (#[trigger] final(npcs)@[i]).sentiments.wf(),
        ({
            let sim_dt = window_sum_spec(
                window_push_spec(old(window).buf@, old(window).cap as int, dt),
            ) as u64;
            forall|i: int|
                0 <= i < old(npcs)@.len() ==> tick_outcome_spec(
                    old(npcs)@[i],
                    #[trigger] final(npcs)@[i],
                    world,
                    time,
                    dt,
                    sim_dt,
                    tick,
                )
        }),
{
    window.push(dt);
    let simulated_dt = window.sum();
    let mut w = world;
    // Staged cross-NPC actions: sender, target, action.
    let mut staged: Vec<(u64, u64, Action)> = Vec::new();
    let mut i: usize = 0;
    while i < npcs.len()
        invariant
            w == world,
            npcs@.len() == old(npcs)@.len(),
            i <= npcs@.len(),
            simulated_dt as int == window_sum_spec(
                window_push_spec(old(window).buf@, old(window).cap as int, dt),
            ),
            forall|j: int| i <= j < npcs@.len() ==> npcs@[j] == old(npcs)@[j],
            forall|j: int| 0 <= j < npcs@.len() ==> (#[trigger] npcs@[j]).sentiments.wf(),
            forall|j: int|
                0 <= j < i ==> (if eligible_spec(
                    (#[trigger] old(npcs)@[j]).health_pm,
                    old(npcs)@[j].role,
                    old(npcs)@[j].mode,
                    old(npcs)@[j].seed,
                    tick,
                ) {
                    npc_polled(
                        old(npcs)@[j],
                        npcs@[j],
                        world,
                        time,
                        effective_dt_spec(old(npcs)@[j].mode, dt, simulated_dt),
                    )
                } else {
                    npcs@[j] == old(npcs)@[j]
                }),
        decreases npcs@.len() - i,
    {
        let ghost npcs_pre = npcs@;
        let mut npc: Npc = npcs.remove(i);
        proof {
            assert(npc == old(npcs)@[i as int]);
        }
        let was_eligible = eligible(npc.health_pm, npc.role, npc.mode, npc.seed, tick);
        if was_eligible {
            let dt_eff = brain_dt(npc.mode, dt, simulated_dt);
            let ghost pre_npc = npc;
            let (w2, mut outbox): (WorldView, Vec<(u64, Action)>) = run_npc_tick(
                &mut npc,
                w,
                time,
                dt_eff,
                None,
                None,
            );
            w = w2;
            proof {
                let s = choose|seed: u64|
                    #[trigger] seed_drawn(seed) && npc_tick_rel(
                        pre_npc,
                        npc,
                        brain_root_spec(pre_npc),
                        world,
                        time,
                        dt_eff,
                        None,
                        None,
                        seed,
                        outbox@,
                    );
                assert(npc_polled(pre_npc, npc, world, time, dt_eff));
                assert(dt_eff == effective_dt_spec(pre_npc.mode, dt, simulated_dt));
            }
            let sender: u64 = npc.uid;
            while outbox.len() > 0
                invariant
                    true,
                decreases outbox@.len(),
            {
                let (target, act): (u64, Action) = outbox.remove(0);
                staged.push((sender, target, act));
            }
        }
        npcs.insert(i, npc);
        proof {
            assert(npcs@ =~= npcs_pre.update(i as int, npc));
            assert forall|j: int| i + 1 <= j < npcs@.len() implies npcs@[j] == old(npcs)@[
            j] by {
                assert(npcs@[j] == npcs_pre[j]);
            }
        }
        i += 1;
    }
    // Serial delivery: every poll above ran against the pre-tick state, so
    // nothing delivered here was visible to any poll of this tick.
    let ghost mids = npcs@;
    proof {
        assert forall|j: int|
            0 <= j < mids.len() implies same_but_dialogue(#[trigger] mids[j], mids[j]) by {
            lemma_same_but_dialogue_refl(mids[j]);
        }
    }
    while staged.len() > 0
        invariant
            npcs@.len() == mids.len(),
            forall|j: int| 0 <= j < npcs@.len() ==> (#[trigger] npcs@[j]).sentiments.wf(),
            forall|j: int|
                0 <= j < mids.len() ==> same_but_dialogue(#[trigger] mids[j], npcs@[j]),
        decreases staged@.len(),
    {
        let (sender, target, act): (u64, u64, Action) = staged.remove(0);
        let mut k: usize = 0;
        let mut found: Option<usize> = None;
        while k < npcs.len()
            invariant
                k <= npcs@.len(),
                match found {
                    Some(f) => f < npcs@.len(),
                    None => true,
                },
            decreases npcs@.len() - k,
        {
            if npcs[k].uid == target {
                found = Some(k);
                break;
            }
            k += 1;
        }
        match found {
            Some(f) => {
                let ghost npcs_pre = npcs@;
                let mut npc: Npc = npcs.remove(f);
                let ghost before_push = npc;
                npc.npc_dialogue.push((sender, act));
                proof {
                    assert(before_push.npc_dialogue@.is_prefix_of(npc.npc_dialogue@)) by {
                        assert(before_push.npc_dialogue@ =~= npc.npc_dialogue@.subrange(
                            0,
                            before_push.npc_dialogue@.len() as int,
                        ));
                    }
                    assert(same_but_dialogue(before_push, npc));
                }
                npcs.insert(f, npc);
                proof {
                    assert(npcs@ =~= npcs_pre.update(f as int, npc));
                    assert forall|j: int|
                        0 <= j < mids.len() implies same_but_dialogue(
                        #[trigger] mids[j],
                        npcs@[j],
                    ) by {
                        if j == f {
                            lemma_same_but_dialogue_trans(mids[j], before_push, npc);
                        } else {
                            assert(npcs@[j] == npcs_pre[j]);
                        }
                    }
                }
            },
            None => {},
        }
    }
    proof {
        assert forall|i2: int|
            0 <= i2 < old(npcs)@.len() implies tick_outcome_spec(
            old(npcs)@[i2],
            #[trigger] npcs@[i2],
            world,
            time,
            dt,
            simulated_dt,
            tick,
        ) by {
            if eligible_spec(
                old(npcs)@[i2].health_pm,
                old(npcs)@[i2].role,
                old(npcs)@[i2].mode,
                old(npcs)@[i2].seed,
                tick,
            ) {
                assert(npc_polled(
                    old(npcs)@[i2],
                    mids[i2],
                    world,
                    time,
                    effective_dt_spec(old(npcs)@[i2].mode, dt, simulated_dt),
                ));
                assert(same_but_dialogue(mids[i2], npcs@[i2]));
            } else {
                assert(mids[i2] == old(npcs)@[i2]);
                assert(same_but_dialogue(mids[i2], npcs@[i2]));
            }
        }
    }
}

} // verus!
