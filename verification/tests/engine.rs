use rtsim_core::action::{
    poll, Action, ActionResult, Controller, Ctx, Effect, InterruptSource, Predicate,
};
use rtsim_core::npc::{
    Actor, BodyTag, Content, DayPeriod, Dir2, NpcActivity, NpcView, Personality, Role,
    Sentiments, SimulationMode, SpeechKey, WPos, WorldView,
};
use rtsim_core::rng::SimRng;

fn test_npc_view() -> NpcView {
    NpcView {
        id: 1,
        seed: 7,
        pos: WPos { x: 0, y: 0, z: 0 },
        body: BodyTag::Humanoid,
        role: Role::Civilised(None),
        home: None,
        faction: None,
        health_pm: 10000,
        personality: Personality {
            openness: 127,
            conscientiousness: 127,
            extraversion: 127,
            agreeableness: 127,
            neuroticism: 127,
        },
        hiring: None,
        current_site: None,
        mode: SimulationMode::Loaded,
        riding: None,
        mount_body: None,
    }
}

fn test_world(raining: bool) -> WorldView {
    WorldView {
        day_period: DayPeriod::Noon,
        time_of_day: 0,
        is_raining: raining,
        sites: Vec::new(),
        nearby: Vec::new(),
        reports: Vec::new(),
    }
}

fn test_ctx(time: u64, raining: bool) -> Ctx {
    Ctx {
        time,
        dt: 33_333,
        rng: SimRng::new(42),
        controller: Controller::new(),
        npc: test_npc_view(),
        world: test_world(raining),
        inbox: Vec::new(),
        sentiments: Sentiments::new(),
        known_reports: Vec::new(),
        npc_dialogue: Vec::new(),
    }
}

fn say_hi(tgt: Actor) -> Action {
    Action::Just(Effect::Say(Some(tgt), Content::Key(SpeechKey::Night)))
}

#[test]
fn sequence_makes_progress_on_second_in_same_call() {
    // The first action completes on this very poll; the second must run
    // within the same call, not a tick later.
    let a = Action::Then {
        first: Box::new(Action::Just(Effect::Dance(None))),
        second: Box::new(say_hi(Actor::Npc(9))),
        in_second: false,
    };
    let mut ctx = test_ctx(0, false);
    let (_, res) = poll(a, &mut ctx, 64);
    // Both effects landed in one call: the dance activity and the speech.
    assert_eq!(ctx.controller.activity, Some(NpcActivity::Dance(None)));
    assert_eq!(ctx.controller.actions.len(), 1);
    assert_eq!(res, ActionResult::Done);
}

#[test]
fn repeat_restarts_once_per_poll_and_never_completes() {
    let mut a = Action::Repeat {
        blueprint: Box::new(Action::Just(Effect::Idle)),
        current: Box::new(Action::Just(Effect::Idle)),
        restarts: 0,
    };
    let mut ctx = test_ctx(0, false);
    for i in 0..5u64 {
        let (a2, res) = poll(a, &mut ctx, 64);
        assert_eq!(res, ActionResult::Running);
        match &a2 {
            Action::Repeat { restarts, .. } => assert_eq!(*restarts, i + 1),
            _ => panic!("repeat changed shape"),
        }
        a = a2;
    }
}

#[test]
fn stop_if_true_on_first_poll_never_polls_inner() {
    // The inner action would attack; the stop predicate fires first, so no
    // attack is ever queued.
    let a = Action::StopIf {
        pred: Predicate::Always,
        inner: Box::new(Action::Just(Effect::Attack(Actor::Npc(3)))),
    };
    let mut ctx = test_ctx(0, false);
    let (_, res) = poll(a, &mut ctx, 64);
    assert_eq!(res, ActionResult::Done);
    assert_eq!(ctx.controller.actions.len(), 0);
    assert!(ctx.controller.activity.is_none());
}

#[test]
fn interrupt_preserves_inner_state_and_resumes_it() {
    // The inner action is a sequence that progresses to its second phase.
    // While the interrupt fires, the inner state must stay untouched; when
    // the interruption ends, it resumes from exactly that state.
    let inner = Action::Then {
        first: Box::new(Action::Just(Effect::Idle)),
        second: Box::new(Action::StopIf {
            pred: Predicate::Timeout { dur: 1_000_000_000, start: None },
            inner: Box::new(Action::Repeat {
                blueprint: Box::new(Action::Just(Effect::Idle)),
                current: Box::new(Action::Just(Effect::Idle)),
                restarts: 0,
            }),
        }),
        in_second: false,
    };
    // The interruption fires while it is not raining.
    let signal = Predicate::NotRaining;
    let mut a = Action::InterruptWith {
        source: InterruptSource::Signalled {
            signal,
            blueprint: Box::new(Action::Just(Effect::Cheer(None))),
        },
        active: None,
        inner: Box::new(inner),
    };

    // Tick 1: raining, no interruption; the inner sequence advances to its
    // second phase (state S).
    let mut ctx = test_ctx(0, true);
    let (a2, res) = poll(a, &mut ctx, 64);
    assert_eq!(res, ActionResult::Running);
    let snapshot_inner = match &a2 {
        Action::InterruptWith { inner, .. } => (**inner) == Action::Then {
            first: Box::new(Action::Just(Effect::Idle)),
            second: Box::new(Action::StopIf {
                pred: Predicate::Timeout { dur: 1_000_000_000, start: Some(0) },
                inner: Box::new(Action::Repeat {
                    blueprint: Box::new(Action::Just(Effect::Idle)),
                    current: Box::new(Action::Just(Effect::Idle)),
                    restarts: 1,
                }),
            }),
            in_second: true,
        },
        _ => false,
    };
    assert!(snapshot_inner);
    a = a2;

    // Ticks 2..4: dry weather, the interrupt fires each tick; the inner
    // action's state must be preserved exactly while the alternative runs.
    for t in 1..4u64 {
        let mut ctx_i = test_ctx(t * 33_333, false);
        let (a2, res) = poll(a, &mut ctx_i, 64);
        assert_eq!(res, ActionResult::Running);
        // The alternative (cheering) ran instead of the inner action.
        assert_eq!(ctx_i.controller.activity, Some(NpcActivity::Cheer(None)));
        match &a2 {
            Action::InterruptWith { inner, .. } => match &**inner {
                Action::Then { in_second, .. } => assert!(*in_second),
                _ => panic!("inner changed shape"),
            },
            _ => panic!("wrapper changed shape"),
        }
        a = a2;
    }

    // Tick 5: raining again, the interruption ends; the inner action resumes
    // from its preserved second phase (the repeat keeps counting up from
    // where it was, not from zero).
    let mut ctx5 = test_ctx(200_000, true);
    let (a2, res) = poll(a, &mut ctx5, 64);
    assert_eq!(res, ActionResult::Running);
    match &a2 {
        Action::InterruptWith { inner, .. } => match &**inner {
            Action::Then { second, in_second, .. } => {
                assert!(*in_second);
                match &**second {
                    Action::StopIf { inner, .. } => match &**inner {
                        Action::Repeat { restarts, .. } => assert_eq!(*restarts, 2),
                        _ => panic!("inner repeat changed shape"),
                    },
                    _ => panic!("stop-if changed shape"),
                }
            },
            _ => panic!("sequence changed shape"),
        },
        _ => panic!("wrapper changed shape"),
    }
}

#[test]
fn timeout_predicate_captures_start_lazily() {
    let mut ctx = test_ctx(5_000_000, false);
    let a = Action::StopIf {
        pred: Predicate::Timeout { dur: 2_000_000, start: None },
        inner: Box::new(Action::Repeat {
            blueprint: Box::new(Action::Just(Effect::Idle)),
            current: Box::new(Action::Just(Effect::Idle)),
            restarts: 0,
        }),
    };
    // First poll: the timer starts now, so the wrapper keeps running.
    let (a2, res) = poll(a, &mut ctx, 64);
    assert_eq!(res, ActionResult::Running);
    // Two seconds later the timer fires before the inner action is polled.
    let mut ctx2 = test_ctx(7_000_000, false);
    let (_, res2) = poll(a2, &mut ctx2, 64);
    assert_eq!(res2, ActionResult::Done);
}

#[test]
fn rng_is_deterministic_and_bounded() {
    let mut a = SimRng::new(123);
    let mut b = SimRng::new(123);
    for _ in 0..10 {
        let x = a.gen_below(17);
        let y = b.gen_below(17);
        assert_eq!(x, y);
        assert!(x < 17);
    }
    assert!(SimRng::new(1).next_u64() != SimRng::new(2).next_u64());
}
