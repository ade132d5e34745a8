use rtsim_core::action::{poll, Action, ActionResult, BehaviorTag, Controller, Ctx, Effect, Priority};
use rtsim_core::behavior::{
    directions_build, hire_offer_build, inbox_step, villager_build, ChoiceSel, Selector,
    COINS_ITEM,
};
use rtsim_core::behavior::candidates;
use rtsim_core::npc::{
    Dialogue, DialogueId, DialogueKind, DialogueSession, NpcActivity, ResponseList,
};
use rtsim_core::rng::SimRng;
use rtsim_core::mounting::NpcLinks;
use rtsim_core::npc::{
    Actor, BodyTag, DayPeriod, Npc, NpcAction, NpcInput, Npcs, PlotKind, PlotView, Profession,
    Report, ReportKind, Role, Sentiments, SimulationMode, SiteView, WPos, WorldView,
    SENTIMENT_ENEMY,
};
use rtsim_core::scheduler::{tick_all, DtWindow, SIMULATED_TICK_SKIP};

fn npc_view(role: Role, home: Option<u64>) -> rtsim_core::npc::NpcView {
    rtsim_core::npc::NpcView {
        id: 1,
        seed: 7,
        pos: WPos { x: 0, y: 0, z: 0 },
        body: BodyTag::Humanoid,
        role,
        home,
        faction: None,
        health_pm: 10000,
        personality: rtsim_core::npc::Personality {
            openness: 127,
            conscientiousness: 127,
            extraversion: 127,
            agreeableness: 127,
            neuroticism: 127,
        },
        hiring: None,
        current_site: home,
        mode: SimulationMode::Loaded,
        riding: None,
        mount_body: None,
    }
}

fn world_with_reports(reports: Vec<(u64, Report)>) -> WorldView {
    WorldView {
        day_period: DayPeriod::Noon,
        time_of_day: 1_000_000,
        is_raining: false,
        sites: Vec::new(),
        nearby: Vec::new(),
        reports,
    }
}

#[test]
fn witnessed_murder_shifts_opinion_and_is_reacted_to_once() {
    let killer = Actor::Npc(9);
    let victim = Actor::Character(4);
    let world = world_with_reports(vec![(
        77,
        Report { kind: ReportKind::Death { killer: Some(killer), actor: victim }, at_tod: 900_000 },
    )]);
    let view = npc_view(Role::Civilised(None), None);
    let mut known: Vec<u64> = Vec::new();
    let mut sents = Sentiments::new();
    let (kept, act) = inbox_step(vec![NpcInput::Report(77)], &mut known, &mut sents, &view, &world);
    assert!(kept.is_empty());
    assert_eq!(known, vec![77]);
    // The killer is despised; the murdered player is pitied, not hated.
    assert_eq!(sents.toward(killer), -750);
    assert_eq!(sents.toward(victim), 0);
    assert!(act.is_some());

    // The same report a second time is already known: consumed, no reaction.
    let (kept2, act2) =
        inbox_step(vec![NpcInput::Report(77)], &mut known, &mut sents, &view, &world);
    assert!(kept2.is_empty());
    assert!(act2.is_none());
    assert_eq!(sents.toward(killer), -750);
}

#[test]
fn theft_at_home_angers_the_owner() {
    let thief = Actor::Character(2);
    let world = world_with_reports(vec![(
        5,
        Report {
            kind: ReportKind::Theft { thief, site: Some(3), is_plant: true },
            at_tod: 999_000,
        },
    )]);
    let view = npc_view(Role::Civilised(Some(Profession::Farmer)), Some(3));
    let mut known: Vec<u64> = Vec::new();
    let mut sents = Sentiments::new();
    let (_, act) = inbox_step(vec![NpcInput::Report(5)], &mut known, &mut sents, &view, &world);
    assert_eq!(sents.toward(thief), -200);
    assert!(act.is_some());

    // A theft elsewhere is consumed without reaction.
    let view_away = npc_view(Role::Civilised(Some(Profession::Farmer)), Some(8));
    let mut known2: Vec<u64> = Vec::new();
    let mut sents2 = Sentiments::new();
    let (_, act2) =
        inbox_step(vec![NpcInput::Report(5)], &mut known2, &mut sents2, &view_away, &world);
    assert!(act2.is_none());
    assert_eq!(sents2.toward(thief), 0);
}

#[test]
fn interaction_starts_a_conversation_and_dialogue_is_retained() {
    let world = world_with_reports(Vec::new());
    let view = npc_view(Role::Civilised(None), None);
    let mut known: Vec<u64> = Vec::new();
    let mut sents = Sentiments::new();
    let inbox = vec![NpcInput::Interaction(Actor::Character(6))];
    let (kept, act) = inbox_step(inbox, &mut known, &mut sents, &view, &world);
    assert!(kept.is_empty());
    match act {
        Some(Action::Eval { sel: Selector::TalkTo(who), .. }) => {
            assert_eq!(who, Actor::Character(6))
        },
        other => panic!("expected a conversation, got {:?}", other),
    }
}

#[test]
fn scheduler_reacts_to_an_enemy_nearby() {
    let foe = Actor::Character(66);
    let mut npc = Npc::new(7, WPos { x: 0, y: 0, z: 0 }, BodyTag::Humanoid, Role::Civilised(None));
    npc.mode = SimulationMode::Loaded;
    npc.sentiments.change_by(foe, -800, -1000);
    assert!(npc.sentiments.is_toward(foe, SENTIMENT_ENEMY));
    let world = WorldView {
        day_period: DayPeriod::Noon,
        time_of_day: 0,
        is_raining: false,
        sites: Vec::new(),
        nearby: vec![rtsim_core::npc::NearbyActor {
            actor: foe,
            pos: WPos { x: 1, y: 0, z: 0 },
            role: None,
        }],
        reports: Vec::new(),
    };
    let mut npcs = vec![npc];
    let mut window = DtWindow::new(SIMULATED_TICK_SKIP as usize);
    tick_all(&mut npcs, world, &mut window, 0, 0, 33_333);
    // The reaction pre-pass queued an attack and the brain's interrupt ran it
    // within the same poll.
    assert!(npcs[0]
        .controller
        .actions
        .iter()
        .any(|a| matches!(a, NpcAction::Attack(t) if *t == foe)));
}

fn town(id: u64) -> SiteView {
    SiteView {
        id,
        pos: WPos { x: 100, y: 100, z: 0 },
        population: 4,
        plots: vec![
            PlotView { kind: PlotKind::House, pos: WPos { x: 110, y: 100, z: 0 } },
            PlotView { kind: PlotKind::Plaza, pos: WPos { x: 90, y: 100, z: 0 } },
            PlotView { kind: PlotKind::FarmField, pos: WPos { x: 80, y: 100, z: 0 } },
        ],
        nearby_sites_by_size: Vec::new(),
        name: None,
    }
}

#[test]
fn villager_shelters_at_night_and_farms_by_day() {
    let mut world = world_with_reports(Vec::new());
    world.sites = vec![town(3)];
    world.day_period = DayPeriod::Night;
    let view = npc_view(Role::Civilised(None), Some(3));
    match villager_build(3, &view, &world, 12345) {
        Action::Tag { label, .. } => assert_eq!(label, BehaviorTag::FindSleep),
        other => panic!("expected the sleep routine, got {:?}", other),
    }

    world.day_period = DayPeriod::Noon;
    let farmer = npc_view(Role::Civilised(Some(Profession::Farmer)), Some(3));
    match villager_build(3, &farmer, &world, 12345) {
        Action::Tag { label, .. } => assert_eq!(label, BehaviorTag::GatherIngredients),
        other => panic!("expected field work, got {:?}", other),
    }

    // An unknown site degrades to idling, never to an error.
    assert_eq!(
        villager_build(99, &view, &world, 1),
        Action::Just(rtsim_core::action::Effect::Idle)
    );
}

#[test]
fn population_assigns_monotonic_uids() {
    let mut npcs = Npcs::new();
    let a = npcs.create_npc(Npc::new(1, WPos { x: 0, y: 0, z: 0 }, BodyTag::Humanoid, Role::Wild));
    let b = npcs.create_npc(Npc::new(2, WPos { x: 0, y: 0, z: 0 }, BodyTag::Humanoid, Role::Wild));
    assert_eq!(a, 0);
    assert_eq!(b, 1);
    assert_eq!(npcs.npcs[0].uid, 0);
    assert_eq!(npcs.npcs[1].uid, 1);
    assert_eq!(npcs.uid_counter, 2);
}

#[test]
fn remove_mount_frees_all_riders() {
    let mut links = NpcLinks::new();
    links.steer(1, Actor::Npc(2), true).unwrap();
    links.ride(1, Actor::Npc(3), true).unwrap();
    links.remove_mount(1);
    assert!(links.get_steerer_link(1).is_none());
    assert!(links.get_mount_link(Actor::Npc(2)).is_none());
    assert!(links.get_mount_link(Actor::Npc(3)).is_none());
    assert!(links.mount_map.iter().all(|(m, _)| *m != 1));
    // The mount can be mounted afresh.
    assert!(links.steer(1, Actor::Npc(4), true).is_ok());
}

#[test]
fn directions_point_at_the_nearest_landmark() {
    let mut site = town(3);
    // Two plazas: the close one must be the one pointed at.
    site.plots.push(PlotView { kind: PlotKind::Plaza, pos: WPos { x: 500, y: 500, z: 0 } });
    let session = DialogueSession { target: Actor::Character(8), id: DialogueId(5) };
    let a = directions_build(session, &site, &WPos { x: 91, y: 100, z: 0 }, 44);

    // Ask, then answer "the plaza".
    let mut ctx = Ctx {
        time: 0,
        dt: 1,
        rng: SimRng::new(1),
        controller: Controller::new(),
        npc: npc_view(Role::Civilised(None), Some(3)),
        world: world_with_reports(Vec::new()),
        inbox: Vec::new(),
        sentiments: Sentiments::new(),
        known_reports: Vec::new(),
        npc_dialogue: Vec::new(),
    };
    let (a, res) = poll(a, &mut ctx, 64);
    assert_eq!(res, ActionResult::Running); // question asked, awaiting the answer
    assert_eq!(ctx.controller.actions.len(), 1);

    ctx.inbox.push(NpcInput::Dialogue(
        Actor::Character(8),
        Dialogue {
            id: DialogueId(5),
            kind: DialogueKind::Response {
                tag: 44,
                response: rtsim_core::npc::Response {
                    msg: rtsim_core::npc::Content::Key(
                        rtsim_core::npc::SpeechKey::DirectionPlaza,
                    ),
                    given_item: None,
                },
                response_id: 2,
            },
        },
    ));
    let (_, res) = poll(a, &mut ctx, 64);
    assert_eq!(res, ActionResult::Done);
    // A marker at the near plaza, then the directions phrase.
    let has_marker = ctx.controller.actions.iter().any(|x| match x {
        NpcAction::Dialogue(_, d) => match &d.kind {
            DialogueKind::Marker { wpos, .. } => *wpos == WPos { x: 90, y: 100, z: 0 },
            _ => false,
        },
        _ => false,
    });
    assert!(has_marker);
}

#[test]
fn hiring_prices_scale_with_experience() {
    let session = DialogueSession { target: Actor::Character(2), id: DialogueId(9) };
    let adventurer = npc_view(Role::Civilised(Some(Profession::Adventurer(3))), None);
    // A draw whose low bits land on the offering half.
    let mut draw: u64 = 0;
    let offer = loop {
        let a = hire_offer_build(Actor::Character(2), session, &adventurer, 100, 7, draw);
        match &a {
            Action::Then { first, .. } => match &**first {
                Action::Just(rtsim_core::action::Effect::DialogueQuestion(_, _, _, rs)) => {
                    break rs_prices(rs);
                },
                _ => {},
            },
            _ => {},
        }
        draw += 1;
        assert!(draw < 16, "an offer should come up within a few draws");
    };
    // Level three doubles the base three times: 60 * 8 and 300 * 8 coins.
    assert_eq!(offer, vec![(COINS_ITEM, 480), (COINS_ITEM, 2400)]);
}

fn rs_prices(rs: &rtsim_core::npc::ResponseList) -> Vec<(u64, u32)> {
    let mut out = Vec::new();
    let mut cur = rs;
    loop {
        match cur {
            rtsim_core::npc::ResponseList::Cons(_, r, rest) => {
                if let Some(p) = r.given_item {
                    out.push(p);
                }
                cur = rest;
            },
            rtsim_core::npc::ResponseList::Nil => break,
        }
    }
    out
}

#[test]
fn night_shelter_socializes_until_daylight() {
    // The wait stage of the night shelter is the social loiter, not idling.
    let mut world = world_with_reports(Vec::new());
    world.sites = vec![town(3)];
    world.day_period = DayPeriod::Night;
    let view = npc_view(Role::Civilised(None), Some(3));
    let tree = villager_build(3, &view, &world, 12345);
    let wait_stage = match tree {
        Action::Tag { label: BehaviorTag::FindSleep, inner } => match *inner {
            Action::Then { second, .. } => match *second {
                Action::Then { second, .. } => match *second {
                    Action::Then { first, .. } => match *first {
                        Action::StopIf { inner, .. } => *inner,
                        other => panic!("expected the daylight stop, got {:?}", other),
                    },
                    other => panic!("expected the wait stage, got {:?}", other),
                },
                other => panic!("expected the indoor stretch, got {:?}", other),
            },
            other => panic!("expected the walk to the house, got {:?}", other),
        },
        other => panic!("expected the sleep routine, got {:?}", other),
    };
    match wait_stage {
        Action::Repeat { blueprint, .. } => match *blueprint {
            Action::Eval { sel: Selector::Socialize, .. } => {},
            other => panic!("the shelter wait must socialize, got {:?}", other),
        },
        other => panic!("expected a repetition, got {:?}", other),
    }
}

#[test]
fn shelter_seeking_is_the_important_tier() {
    let mut world = world_with_reports(Vec::new());
    world.sites = vec![town(3)];
    let view = npc_view(Role::Civilised(None), Some(3));
    let sents = Sentiments::new();

    world.day_period = DayPeriod::Night;
    let night = candidates(&ChoiceSel::VillagerAt(3), &view, &world, 0, &sents, 1);
    assert_eq!(night.len(), 1);
    assert_eq!(night[0].0, Priority::Important);

    world.day_period = DayPeriod::Noon;
    let noon = candidates(&ChoiceSel::VillagerAt(3), &view, &world, 0, &sents, 1);
    assert_eq!(noon[0].0, Priority::Casual);

    // Guards stay on duty: for them the routine is never promoted.
    let guard = npc_view(Role::Civilised(Some(Profession::Guard)), Some(3));
    world.day_period = DayPeriod::Night;
    let on_duty = candidates(&ChoiceSel::VillagerAt(3), &guard, &world, 0, &sents, 1);
    assert_eq!(on_duty[0].0, Priority::Casual);
}

#[test]
fn remove_mount_clears_riders_and_spares_other_mounts() {
    let mut links = NpcLinks::new();
    links.steer(1, Actor::Npc(2), true).unwrap();
    links.ride(1, Actor::Npc(3), true).unwrap();
    let other = links.steer(9, Actor::Npc(8), true).unwrap();

    links.remove_mount(1);
    // The removed mount's riders are all freed and its links dissolved.
    assert!(links.get_mount_link(Actor::Npc(2)).is_none());
    assert!(links.get_mount_link(Actor::Npc(3)).is_none());
    assert!(links.get_steerer_link(1).is_none());
    assert!(links.mount_map.iter().all(|(m, _)| *m != 1));
    // The other mount is untouched: same steerer, same link.
    assert_eq!(links.get_steerer_link(9).map(|l| l.rider), Some(Actor::Npc(8)));
    assert_eq!(links.get(other).map(|l| l.mount), Some(9));
}

#[test]
fn a_steering_rider_flies_the_airship() {
    let mut pilot = npc_view(Role::Civilised(None), None);
    pilot.riding = Some((40, true));
    pilot.mount_body = Some(BodyTag::ShipAirBalloon);
    let mut ctx = Ctx {
        time: 0,
        dt: 33_333,
        rng: SimRng::new(9),
        controller: Controller::new(),
        npc: pilot,
        world: world_with_reports(Vec::new()),
        inbox: Vec::new(),
        sentiments: Sentiments::new(),
        known_reports: Vec::new(),
        npc_dialogue: Vec::new(),
    };
    let a = Action::Eval { sel: Selector::Think, built: None };
    let (_, res) = poll(a, &mut ctx, 64);
    assert_eq!(res, ActionResult::Running);
    assert!(matches!(
        ctx.controller.activity,
        Some(NpcActivity::GotoFlying(_, _, _, _, _))
    ));
}
