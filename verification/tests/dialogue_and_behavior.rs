use rtsim_core::action::{
    poll, Action, ActionResult, BranchList, Controller, Ctx, Effect, Priority,
};
use rtsim_core::behavior::{rps_outcome, rps_result_key, ChoiceSel, RpsHand, RpsOutcome, Selector};
use rtsim_core::npc::{
    Actor, BodyTag, Content, DayPeriod, Dialogue, DialogueId, DialogueKind, DialogueSession,
    NpcAction, NpcInput, NpcView, Personality, Response, ResponseList, Role, Sentiments,
    SimulationMode, SpeechKey, WPos, WorldView, SENTIMENT_ENEMY,
};
use rtsim_core::rng::SimRng;

fn view(role: Role, body: BodyTag) -> NpcView {
    NpcView {
        id: 1,
        seed: 7,
        pos: WPos { x: 0, y: 0, z: 0 },
        body,
        role,
        home: None,
        faction: None,
        health_pm: 10000,
        personality: Personality {
            openness: 127,
            conscientiousness: 127,
            extraversion: 127,
            agreeableness: 127,
            neuroticism: 127,
        },
        hiring: None,
        current_site: None,
        mode: SimulationMode::Loaded,
        riding: None,
        mount_body: None,
    }
}

fn ctx_with(npc: NpcView, inbox: Vec<NpcInput>) -> Ctx {
    Ctx {
        time: 0,
        dt: 33_333,
        rng: SimRng::new(42),
        controller: Controller::new(),
        npc,
        world: WorldView {
            day_period: DayPeriod::Noon,
            time_of_day: 0,
            is_raining: false,
            sites: Vec::new(),
            nearby: Vec::new(),
            reports: Vec::new(),
        },
        inbox,
        sentiments: Sentiments::new(),
        known_reports: Vec::new(),
        npc_dialogue: Vec::new(),
    }
}

#[test]
fn question_then_await_runs_chosen_branch() {
    let session = DialogueSession { target: Actor::Character(8), id: DialogueId(55) };
    // Waiting for the answer to question tag 9, with two registered branches.
    let a = Action::AwaitResponse {
        session,
        tag: 9,
        branches: BranchList::Cons(
            1,
            Box::new(Action::Just(Effect::Dance(None))),
            Box::new(BranchList::Cons(
                2,
                Box::new(Action::Just(Effect::Cheer(None))),
                Box::new(BranchList::Nil),
            )),
        ),
        chosen: None,
    };
    // No answer yet: the action waits, consuming nothing.
    let mut quiet = ctx_with(view(Role::Civilised(None), BodyTag::Humanoid), Vec::new());
    let (a, res) = poll(a, &mut quiet, 64);
    assert_eq!(res, ActionResult::Running);

    // The validated answer arrives in the inbox, picking response 2.
    let answer = NpcInput::Dialogue(
        Actor::Character(8),
        Dialogue {
            id: DialogueId(55),
            kind: DialogueKind::Response {
                tag: 9,
                response: Response {
                    msg: Content::Key(SpeechKey::ResponseNoProblem),
                    given_item: None,
                },
                response_id: 2,
            },
        },
    );
    let mut answered = ctx_with(view(Role::Civilised(None), BodyTag::Humanoid), vec![answer]);
    let (_, res) = poll(a, &mut answered, 64);
    // The branch for response 2 ran within the same call, and the answer was
    // consumed from the inbox.
    assert_eq!(res, ActionResult::Done);
    assert_eq!(
        answered.controller.activity,
        Some(rtsim_core::npc::NpcActivity::Cheer(None))
    );
    assert!(answered.inbox.is_empty());
}

#[test]
fn unknown_response_ends_dialogue_without_effect() {
    let session = DialogueSession { target: Actor::Npc(3), id: DialogueId(1) };
    let a = Action::AwaitResponse {
        session,
        tag: 4,
        branches: BranchList::Nil,
        chosen: None,
    };
    let answer = NpcInput::Dialogue(
        Actor::Npc(3),
        Dialogue {
            id: DialogueId(1),
            kind: DialogueKind::Response {
                tag: 4,
                response: Response {
                    msg: Content::Key(SpeechKey::ResponseNoProblem),
                    given_item: None,
                },
                response_id: 42,
            },
        },
    );
    let mut ctx = ctx_with(view(Role::Civilised(None), BodyTag::Humanoid), vec![answer]);
    let (_, res) = poll(a, &mut ctx, 64);
    assert_eq!(res, ActionResult::Done);
    assert!(ctx.controller.actions.is_empty());
}

#[test]
fn controller_builds_structured_dialogue() {
    let mut c = Controller::new();
    let mut rng = SimRng::new(5);
    let session = c.dialogue_start(&mut rng, Actor::Character(2));
    assert_eq!(session.target, Actor::Character(2));
    let tag = c.dialogue_question(
        &mut rng,
        session,
        Content::Key(SpeechKey::QuestionGeneral),
        ResponseList::Cons(
            1,
            Response { msg: Content::Key(SpeechKey::CancelInteraction), given_item: None },
            Box::new(ResponseList::Nil),
        ),
    );
    c.dialogue_statement(session, Content::Key(SpeechKey::InfoUnknown));
    c.dialogue_end(session);
    assert_eq!(c.actions.len(), 4);
    match &c.actions[1] {
        NpcAction::Dialogue(tgt, d) => {
            assert_eq!(*tgt, Actor::Character(2));
            assert_eq!(d.id, session.id);
            match &d.kind {
                DialogueKind::Question { tag: t, .. } => assert_eq!(*t, tag),
                other => panic!("expected a question, got {:?}", other),
            }
        },
        other => panic!("expected a dialogue action, got {:?}", other),
    }
}

#[test]
fn think_reacts_to_queued_dialogue_first() {
    // A response action queued by another NPC supersedes the routine: the
    // think root runs it before its own behaviour.
    let a = Action::Eval { sel: Selector::Think, built: None };
    let mut ctx = ctx_with(view(Role::Civilised(None), BodyTag::Humanoid), Vec::new());
    ctx.npc_dialogue.push((6, Action::Just(Effect::Talk(Actor::Npc(6)))));
    let (_, res) = poll(a, &mut ctx, 64);
    assert_eq!(res, ActionResult::Running);
    assert_eq!(
        ctx.controller.activity,
        Some(rtsim_core::npc::NpcActivity::Talk(Actor::Npc(6)))
    );
    assert!(ctx.npc_dialogue.is_empty());
}

#[test]
fn talk_to_rebuffs_a_rival() {
    let foe = Actor::Character(4);
    let a = Action::Eval { sel: Selector::TalkTo(foe), built: None };
    let mut ctx = ctx_with(view(Role::Civilised(None), BodyTag::Humanoid), Vec::new());
    ctx.sentiments.change_by(foe, -800, -1000);
    assert!(ctx.sentiments.is_toward(foe, SENTIMENT_ENEMY));
    let (_, res) = poll(a, &mut ctx, 64);
    assert_eq!(res, ActionResult::Done);
    assert_eq!(ctx.controller.actions.len(), 1);
    match &ctx.controller.actions[0] {
        NpcAction::Say(Some(t), Content::Key(SpeechKey::RejectRival)) => assert_eq!(*t, foe),
        other => panic!("expected a rebuff, got {:?}", other),
    }
}

#[test]
fn choose_commits_to_first_important_candidate() {
    // With only a casual idle candidate, the choice picks it and completes
    // with it in the same call.
    let a = Action::Choose { options: ChoiceSel::IdleOnly, chosen: None };
    let mut ctx = ctx_with(view(Role::Civilised(None), BodyTag::Humanoid), Vec::new());
    let (_, res) = poll(a, &mut ctx, 64);
    assert_eq!(res, ActionResult::Done);
    assert!(ctx.controller.activity.is_none());
    // Priority ordering: important dominates casual.
    assert!(Priority::Important != Priority::Casual);
}

#[test]
fn exhausted_fuel_defers_fresh_work_to_next_tick() {
    // With no work budget, a deferred build waits instead of running; state
    // and context are left untouched.
    let a = Action::Eval { sel: Selector::Think, built: None };
    let mut ctx = ctx_with(view(Role::Civilised(None), BodyTag::Humanoid), Vec::new());
    let (a2, res) = poll(a, &mut ctx, 0);
    assert_eq!(res, ActionResult::Running);
    assert_eq!(a2, Action::Eval { sel: Selector::Think, built: None });
    assert!(ctx.controller.activity.is_none());
}

#[test]
fn game_rounds_resolve_exactly() {
    assert_eq!(rps_outcome(RpsHand::Rock, RpsHand::Scissors), RpsOutcome::WeWin);
    assert_eq!(rps_outcome(RpsHand::Rock, RpsHand::Paper), RpsOutcome::WeLose);
    assert_eq!(rps_outcome(RpsHand::Paper, RpsHand::Paper), RpsOutcome::Draw);
    assert_eq!(rps_outcome(RpsHand::Scissors, RpsHand::Paper), RpsOutcome::WeWin);
    assert_eq!(rps_result_key(RpsOutcome::WeLose), SpeechKey::GameLose);
    let mut rng = SimRng::new(9);
    let _ = rtsim_core::behavior::rps_draw_hand(&mut rng);
}
