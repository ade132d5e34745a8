//! The behaviour library: named selectors that build concrete action trees
//! from the current context when a deferred or choice node first activates.
//!
//! Selection is deliberately a pure function of the context snapshot and one
//! pre-drawn random word, so a brain's course is reproducible from its seed.

use vstd::prelude::*;

use crate::action::{Action, BehaviorTag, Effect, InterruptSource, Predicate, Priority};
use crate::action::BranchList;
use crate::npc::{
    change_by_spec, personality_is_spec, sentiment_is_spec, Actor, BodyTag, CompassDir, Content,
    DialogueSession, FlightMode, NpcInput, NpcView, PersonalityTrait, PlotKind, PlotView,
    Profession, Report, ReportKind, Response, ResponseList, Role, Sentiments, SiteView, SpeechKey,
    WPos, WorldView, SENTIMENT_ENEMY, SENTIMENT_VILLAIN,
};
use crate::rng::{advance_spec, below_spec};

verus! {

/// A named, deferred construction of a single action from the context.
#[derive(Clone, Copy, Debug, PartialEq, Eq, Structural)]
pub enum Selector {
    /// Do nothing this activation.
    Idle,
    /// The root of every brain: pick the behaviour fitting body and role,
    /// guarded by the queued-dialogue interrupt.
    Think,
    /// Loiter socially: sometimes dance for a while, otherwise talk to a
    /// nearby actor if one is around.
    Socialize,
    /// Make smalltalk with an actor: a remark chosen from the surroundings
    /// or personality, then said after a short wait.
    SmalltalkTo(Actor),
    /// React to an interaction: rivals are rebuffed, others get smalltalk.
    TalkTo(Actor),
    /// Roam: pick a direction and wander for a while.
    Wander,
    /// A villager's routine at the visited site: shelter at night or in the
    /// rain, work the profession, otherwise loiter at the plaza.
    Villager(u64),
    /// A pirate's routine: follow the employer when hired, loiter at the
    /// hideout, or claim the nearest hideout as home.
    Pirate(bool),
    /// Visit another town's workshop for a while, then move on.
    Adventure,
    /// Wide-ranging flight: toward the home site when away, roaming near it.
    BirdLarge,
    /// Stay at the employer's service until the hiring lapses or sours.
    Hired(Actor),
}

/// A named, deferred construction of a prioritised candidate set.
#[derive(Clone, Copy, Debug, PartialEq, Eq, Structural)]
pub enum ChoiceSel {
    /// The only candidate is to idle.
    IdleOnly,
    /// The villager routine at a site, tiered: seeking shelter from the dark
    /// or the rain is important and dominates; everything else is casual.
    VillagerAt(u64),
}

/// One second of simulation time.
pub const SECOND: u64 = 1_000_000;

pub open spec fn just_say(tgt: Actor, key: SpeechKey) -> Action {
    Action::Just(Effect::Say(Some(tgt), Content::Key(key)))
}

/// Idle in place until a timer fires.
pub open spec fn idle_for(dur: u64) -> Action {
    Action::StopIf {
        pred: Predicate::Timeout { dur, start: None },
        inner: Box::new(
            Action::Repeat {
                blueprint: Box::new(Action::Just(Effect::Idle)),
                current: Box::new(Action::Just(Effect::Idle)),
                restarts: 0,
            },
        ),
    }
}

/// Dance until a timer fires.
pub open spec fn dance_for(dur: u64) -> Action {
    Action::Tag {
        label: BehaviorTag::Dancing,
        inner: Box::new(
            Action::StopIf {
                pred: Predicate::Timeout { dur, start: None },
                inner: Box::new(
                    Action::Repeat {
                        blueprint: Box::new(Action::Just(Effect::Dance(None))),
                        current: Box::new(Action::Just(Effect::Dance(None))),
                        restarts: 0,
                    },
                ),
            },
        ),
    }
}

/// Smalltalk: pick a remark, wait a moment, then say it.
pub open spec fn smalltalk_tree(tgt: Actor, remark: Content, wait: u64) -> Action {
    Action::Tag {
        label: BehaviorTag::SmallTalk,
        inner: Box::new(
            Action::Then {
                first: Box::new(idle_for(wait)),
                second: Box::new(Action::Just(Effect::Say(Some(tgt), remark))),
                in_second: false,
            },
        ),
    }
}

/// A nearby site worth mentioning, named with its bearing and rough length.
pub open spec fn site_mention_spec(npc: NpcView, world: WorldView, state: u64) -> Option<Content> {
    match npc.current_site {
        Some(cs) => match site_lookup_spec(world.sites@, cs) {
            Some(here) => {
                if here.nearby_sites_by_size@.len() > 0 {
                    let pick = here.nearby_sites_by_size@[below_spec(
                        state,
                        here.nearby_sites_by_size@.len() as u64,
                    ) as int];
                    match site_lookup_spec(world.sites@, pick) {
                        Some(there) => Some(
                            Content::KeyWithPlace(
                                SpeechKey::TellSite,
                                compass_dir_spec(npc.pos, there.pos),
                                dist_approx_spec(npc.pos, there.pos),
                            ),
                        ),
                        None => None,
                    }
                } else {
                    None
                }
            },
            None => None,
        },
        None => None,
    }
}

/// The first nearby monster, for pointing at.
pub open spec fn first_monster_spec(nearby: Seq<crate::npc::NearbyActor>) -> Option<WPos>
    decreases nearby.len(),
{
    if nearby.len() == 0 {
        None
    } else if nearby[0].role == Some(Role::Monster) {
        Some(nearby[0].pos)
    } else {
        first_monster_spec(nearby.skip(1))
    }
}

/// The remark smalltalk opens with: a nearby site with its bearing, the
/// current town, a monster sighted close by, the dark, a work song, or a
/// personality-coloured generality.
pub open spec fn smalltalk_remark_spec(
    npc: NpcView,
    world: WorldView,
    sentiments: Map<Actor, i32>,
    draw: u64,
) -> Content {
    let s0 = draw;
    let s1 = advance_spec(s0);
    let pick = below_spec(s0, 10);
    if pick < 2 && site_mention_spec(npc, world, s1) is Some {
        site_mention_spec(npc, world, s1)->0
    } else if pick < 4 && npc.current_site is Some {
        Content::Key(SpeechKey::Site)
    } else if pick < 6 && first_monster_spec(world.nearby@) is Some {
        Content::KeyWithPlace(
            SpeechKey::TellMonster,
            compass_dir_spec(npc.pos, first_monster_spec(world.nearby@)->0),
            dist_approx_spec(npc.pos, first_monster_spec(world.nearby@)->0),
        )
    } else if pick < 8 && world.day_period == crate::npc::DayPeriod::Night {
        Content::Key(SpeechKey::Night)
    } else if (match npc.profession_spec() {
        Some(crate::npc::Profession::Pirate(_)) => true,
        _ => false,
    }) {
        Content::Key(SpeechKey::PirateShanty)
    } else {
        generic_comment_spec(npc.personality, advance_spec(s1))
    }
}

/// The personality-coloured fallback remark, as a pure function of the
/// personality and one random word.
pub open spec fn generic_comment_spec(p: crate::npc::Personality, state: u64) -> Content {
    let eligible = eligible_traits_spec(p);
    if eligible.len() == 0 {
        Content::Key(SpeechKey::Villager)
    } else {
        Content::Key(
            crate::npc::trait_speech_key(eligible[below_spec(state, eligible.len() as u64) as int]),
        )
    }
}

pub open spec fn eligible_traits_spec(p: crate::npc::Personality) -> Seq<PersonalityTrait> {
    crate::npc::all_traits_spec().filter(|t: PersonalityTrait| personality_is_spec(p, t))
}

fn generic_comment(p: &crate::npc::Personality, state: u64) -> (r: Content)
    ensures
        r == generic_comment_spec(*p, state),
{
    let all = crate::npc::all_traits();
    let mut eligible: Vec<PersonalityTrait> = Vec::new();
    let mut i: usize = 0;
    proof {
        reveal_with_fuel(Seq::filter, 2);
        assert(all@.subrange(0, 0) =~= Seq::<PersonalityTrait>::empty());
        assert(all@.subrange(0, 0).filter(|t: PersonalityTrait| personality_is_spec(*p, t))
            =~= Seq::<PersonalityTrait>::empty());
    }
    while i < all.len()
        invariant
            all@ == crate::npc::all_traits_spec(),
            i <= all@.len(),
            eligible@ == all@.subrange(0, i as int).filter(
                |t: PersonalityTrait| personality_is_spec(*p, t),
            ),
        decreases all@.len() - i,
    {
        proof {
            reveal_with_fuel(Seq::filter, 2);
            let sub = all@.subrange(0, i as int);
            let sub1 = all@.subrange(0, i + 1);
            assert(sub1 =~= sub.push(all@[i as int]));
            assert(sub1.drop_last() =~= sub);
            assert(sub1.last() == all@[i as int]);
        }
        if p.is(all[i]) {
            eligible.push(all[i]);
        }
        i += 1;
    }
    proof {
        assert(all@.subrange(0, all@.len() as int) =~= all@);
    }
    if eligible.len() == 0 {
        Content::Key(SpeechKey::Villager)
    } else {
        let mut rng = crate::rng::SimRng::new(state);
        let idx = rng.gen_below(eligible.len() as u64) as usize;
        Content::Key(crate::npc::speech_key_for_trait(eligible[idx]))
    }
}

/// Saturating displacement of a coordinate.
pub open spec fn clamp_add_spec(a: i64, b: i64) -> i64 {
    if a + b > i64::MAX {
        i64::MAX
    } else if a + b < i64::MIN {
        i64::MIN
    } else {
        (a + b) as i64
    }
}

/// A short random displacement from the current position.
pub open spec fn wander_target_spec(pos: crate::npc::WPos, draw: u64) -> crate::npc::WPos {
    crate::npc::WPos {
        x: clamp_add_spec(pos.x, (below_spec(draw, 49) - 24) as i64),
        y: clamp_add_spec(pos.y, (below_spec(advance_spec(draw), 49) - 24) as i64),
        z: pos.z,
    }
}

/// What a selector builds, as a pure function of the context snapshot and
/// one random word.
pub open spec fn build_spec(
    sel: Selector,
    npc: NpcView,
    world: WorldView,
    time: u64,
    sentiments: Map<Actor, i32>,
    draw: u64,
) -> Action {
    match sel {
        Selector::Idle => Action::Just(Effect::Idle),
        Selector::Think => Action::InterruptWith {
            source: InterruptSource::DialogueQueue,
            active: None,
            inner: Box::new(
                match npc.body {
                    BodyTag::Humanoid => match npc.riding {
                        Some((_, true)) => match npc.mount_body {
                            Some(BodyTag::ShipAirBalloon) | Some(BodyTag::ShipAirship) => {
                                Action::Eval { sel: Selector::BirdLarge, built: None }
                            },
                            Some(BodyTag::ShipBoat) => Action::Eval {
                                sel: Selector::Wander,
                                built: None,
                            },
                            _ => Action::Just(Effect::Idle),
                        },
                        Some((_, false)) => Action::Eval { sel: Selector::Socialize, built: None },
                        None => match npc.hiring {
                        Some((employer, _)) => Action::Eval {
                            sel: Selector::Hired(employer),
                            built: None,
                        },
                        None => match npc.profession_spec() {
                            Some(Profession::Adventurer(_)) | Some(Profession::Merchant) => {
                                Action::Eval { sel: Selector::Adventure, built: None }
                            },
                            Some(Profession::Pirate(l)) => Action::Eval {
                                sel: Selector::Pirate(l),
                                built: None,
                            },
                            _ => match npc.home {
                                Some(h) => Action::Choose {
                                    options: ChoiceSel::VillagerAt(h),
                                    chosen: None,
                                },
                                None => Action::Eval { sel: Selector::Socialize, built: None },
                            },
                        },
                    },
                    },
                    BodyTag::BirdLarge => Action::Eval { sel: Selector::BirdLarge, built: None },
                    _ => match npc.role {
                        Role::Civilised(_) => Action::Eval {
                            sel: Selector::Socialize,
                            built: None,
                        },
                        Role::Monster => Action::Eval { sel: Selector::Wander, built: None },
                        _ => Action::Just(Effect::Idle),
                    },
                },
            ),
        },
        Selector::Socialize => {
            if npc.mode == crate::npc::SimulationMode::Loaded && !personality_is_spec(
                npc.personality,
                PersonalityTrait::Introverted,
            ) {
                if below_spec(draw, 100) < 15 {
                    dance_for((6 * SECOND) as u64)
                } else if world.nearby.len() > 0 {
                    let pick = below_spec(advance_spec(draw), world.nearby.len() as u64);
                    Action::Eval {
                        sel: Selector::SmalltalkTo(world.nearby[pick as int].actor),
                        built: None,
                    }
                } else {
                    Action::Just(Effect::Idle)
                }
            } else {
                Action::Just(Effect::Idle)
            }
        },
        Selector::SmalltalkTo(tgt) => {
            // Conversations between two simulated characters are sometimes cut
            // short, so they cannot chatter forever.
            if (tgt is Npc) && below_spec(draw, 10) < 2 {
                Action::Just(Effect::Idle)
            } else {
                let remark = smalltalk_remark_spec(npc, world, sentiments, advance_spec(draw));
                let wait = if tgt is Character {
                    0u64
                } else {
                    (SECOND + SECOND / 2) as u64
                };
                smalltalk_tree(tgt, remark, wait)
            }
        },
        Selector::TalkTo(tgt) => {
            if crate::npc::sentiment_is_spec(sentiments[tgt], SENTIMENT_ENEMY) {
                just_say(tgt, SpeechKey::RejectRival)
            } else {
                Action::Eval { sel: Selector::SmalltalkTo(tgt), built: None }
            }
        },
        Selector::Wander => Action::Tag {
            label: BehaviorTag::Wander,
            inner: Box::new(
                Action::StopIf {
                    // stop when strayed beyond the leg's reach; the timeout
                    // catches a leg that cannot make progress
                    pred: Predicate::FarFromXY { pos: npc.pos, radius_sq: 841 },
                    inner: Box::new(
                        Action::StopIf {
                            pred: Predicate::Timeout { dur: (10 * SECOND) as u64, start: None },
                            inner: Box::new(
                                Action::Repeat {
                                    blueprint: Box::new(
                                        Action::Just(
                                            Effect::Goto(wander_target_spec(npc.pos, draw), 7000),
                                        ),
                                    ),
                                    current: Box::new(
                                        Action::Just(
                                            Effect::Goto(wander_target_spec(npc.pos, draw), 7000),
                                        ),
                                    ),
                                    restarts: 0,
                                },
                            ),
                        },
                    ),
                },
            ),
        },
        Selector::Villager(site_id) => villager_spec(site_id, npc, world, draw),
        Selector::Pirate(is_leader) => pirate_spec(npc, world, draw),
        Selector::Adventure => adventure_spec(npc, world, draw),
        Selector::BirdLarge => bird_large_spec(npc, world, draw),
        Selector::Hired(tgt) => hired_spec(tgt),
    }
}

pub fn build(
    sel: &Selector,
    npc: &NpcView,
    world: &WorldView,
    time: u64,
    sentiments: &crate::npc::Sentiments,
    draw: u64,
) -> (r: Action)
    ensures
        r == build_spec(*sel, *npc, *world, time, crate::action::sentiments_map(*sentiments), draw),
{
    match sel {
        Selector::Idle => Action::Just(Effect::Idle),
        Selector::Think => Action::InterruptWith {
            source: InterruptSource::DialogueQueue,
            active: None,
            inner: Box::new(
                match npc.body {
                    BodyTag::Humanoid => match npc.riding {
                        Some((_, true)) => match npc.mount_body {
                            Some(BodyTag::ShipAirBalloon) | Some(BodyTag::ShipAirship) => {
                                Action::Eval { sel: Selector::BirdLarge, built: None }
                            },
                            Some(BodyTag::ShipBoat) => Action::Eval {
                                sel: Selector::Wander,
                                built: None,
                            },
                            _ => Action::Just(Effect::Idle),
                        },
                        Some((_, false)) => Action::Eval { sel: Selector::Socialize, built: None },
                        None => match npc.hiring {
                        Some((employer, _)) => Action::Eval {
                            sel: Selector::Hired(employer),
                            built: None,
                        },
                        None => match npc.profession() {
                            Some(Profession::Adventurer(_)) | Some(Profession::Merchant) => {
                                Action::Eval { sel: Selector::Adventure, built: None }
                            },
                            Some(Profession::Pirate(l)) => Action::Eval {
                                sel: Selector::Pirate(l),
                                built: None,
                            },
                            _ => match npc.home {
                                Some(h) => Action::Choose {
                                    options: ChoiceSel::VillagerAt(h),
                                    chosen: None,
                                },
                                None => Action::Eval { sel: Selector::Socialize, built: None },
                            },
                        },
                    },
                    },
                    BodyTag::BirdLarge => Action::Eval { sel: Selector::BirdLarge, built: None },
                    _ => match npc.role {
                        Role::Civilised(_) => Action::Eval {
                            sel: Selector::Socialize,
                            built: None,
                        },
                        Role::Monster => Action::Eval { sel: Selector::Wander, built: None },
                        _ => Action::Just(Effect::Idle),
                    },
                },
            ),
        },
        Selector::Socialize => {
            if (match npc.mode {
                crate::npc::SimulationMode::Loaded => true,
                _ => false,
            }) && !npc.personality.is(PersonalityTrait::Introverted) {
                let mut rng = crate::rng::SimRng::new(draw);
                let roll = rng.gen_below(100);
                if roll < 15 {
                    exec_dance_for(6 * SECOND)
                } else if world.nearby.len() > 0 {
                    let pick = rng.gen_below(world.nearby.len() as u64) as usize;
                    Action::Eval {
                        sel: Selector::SmalltalkTo(world.nearby[pick].actor),
                        built: None,
                    }
                } else {
                    Action::Just(Effect::Idle)
                }
            } else {
                Action::Just(Effect::Idle)
            }
        },
        Selector::SmalltalkTo(tgt) => {
            let mut rng = crate::rng::SimRng::new(draw);
            let cut = rng.gen_below(10);
            let is_npc = match tgt {
                Actor::Npc(_) => true,
                _ => false,
            };
            if is_npc && cut < 2 {
                Action::Just(Effect::Idle)
            } else {
                let remark = smalltalk_remark(npc, world, sentiments, crate::rng::advance(draw));
                let wait: u64 = match tgt {
                    Actor::Character(_) => 0,
                    _ => SECOND + SECOND / 2,
                };
                Action::Tag {
                    label: BehaviorTag::SmallTalk,
                    inner: Box::new(
                        Action::Then {
                            first: Box::new(exec_idle_for(wait)),
                            second: Box::new(Action::Just(Effect::Say(Some(*tgt), remark))),
                            in_second: false,
                        },
                    ),
                }
            }
        },
        Selector::TalkTo(tgt) => {
            if sentiments.is_toward(*tgt, SENTIMENT_ENEMY) {
                Action::Just(Effect::Say(Some(*tgt), Content::Key(SpeechKey::RejectRival)))
            } else {
                Action::Eval { sel: Selector::SmalltalkTo(*tgt), built: None }
            }
        },
        Selector::Villager(site_id) => villager_build(*site_id, npc, world, draw),
        Selector::Pirate(_) => pirate_build(npc, world, draw),
        Selector::Adventure => adventure_build(npc, world, draw),
        Selector::BirdLarge => bird_large_build(npc, world, draw),
        Selector::Hired(tgt) => hired_build(*tgt),
        Selector::Wander => {
            let mut rng = crate::rng::SimRng::new(draw);
            let dx = rng.gen_below(49) as i64 - 24;
            let dy = rng.gen_below(49) as i64 - 24;
            let target = crate::npc::WPos {
                x: clamp_add(npc.pos.x, dx),
                y: clamp_add(npc.pos.y, dy),
                z: npc.pos.z,
            };
            Action::Tag {
                label: BehaviorTag::Wander,
                inner: Box::new(
                    Action::StopIf {
                        pred: Predicate::FarFromXY { pos: npc.pos, radius_sq: 841 },
                        inner: Box::new(
                            Action::StopIf {
                                pred: Predicate::Timeout { dur: 10 * SECOND, start: None },
                                inner: Box::new(
                                    Action::Repeat {
                                        blueprint: Box::new(
                                            Action::Just(Effect::Goto(target, 7000)),
                                        ),
                                        current: Box::new(
                                            Action::Just(Effect::Goto(target, 7000)),
                                        ),
                                        restarts: 0,
                                    },
                                ),
                            },
                        ),
                    },
                ),
            }
        },
    }
}

fn clamp_add(a: i64, b: i64) -> (r: i64)
    ensures
        r == clamp_add_spec(a, b),
{
    if b >= 0 {
        if a <= i64::MAX - b {
            a + b
        } else {
            i64::MAX
        }
    } else {
        if a >= i64::MIN - b {
            a + b
        } else {
            i64::MIN
        }
    }
}

fn exec_idle_for(dur: u64) -> (r: Action)
    ensures
        r == idle_for(dur),
{
    Action::StopIf {
        pred: Predicate::Timeout { dur, start: None },
        inner: Box::new(
            Action::Repeat {
                blueprint: Box::new(Action::Just(Effect::Idle)),
                current: Box::new(Action::Just(Effect::Idle)),
                restarts: 0,
            },
        ),
    }
}

fn exec_dance_for(dur: u64) -> (r: Action)
    ensures
        r == dance_for(dur),
{
    Action::Tag {
        label: BehaviorTag::Dancing,
        inner: Box::new(
            Action::StopIf {
                pred: Predicate::Timeout { dur, start: None },
                inner: Box::new(
                    Action::Repeat {
                        blueprint: Box::new(Action::Just(Effect::Dance(None))),
                        current: Box::new(Action::Just(Effect::Dance(None))),
                        restarts: 0,
                    },
                ),
            },
        ),
    }
}

fn site_mention(npc: &NpcView, world: &WorldView, state: u64) -> (r: Option<Content>)
    ensures
        r == site_mention_spec(*npc, *world, state),
{
    match npc.current_site {
        Some(cs) => match find_site(world, cs) {
            Some(here) => {
                if here.nearby_sites_by_size.len() > 0 {
                    let mut rng = crate::rng::SimRng::new(state);
                    let idx = rng.gen_below(here.nearby_sites_by_size.len() as u64) as usize;
                    let pick = here.nearby_sites_by_size[idx];
                    match find_site(world, pick) {
                        Some(there) => Some(
                            Content::KeyWithPlace(
                                SpeechKey::TellSite,
                                compass_dir(&npc.pos, &there.pos),
                                dist_approx(&npc.pos, &there.pos),
                            ),
                        ),
                        None => None,
                    }
                } else {
                    None
                }
            },
            None => None,
        },
        None => None,
    }
}

fn first_monster(nearby: &Vec<crate::npc::NearbyActor>) -> (r: Option<WPos>)
    ensures
        r == first_monster_spec(nearby@),
{
    proof {
        assert(nearby@.skip(0) =~= nearby@);
    }
    let mut i: usize = 0;
    while i < nearby.len()
        invariant
            i <= nearby@.len(),
            first_monster_spec(nearby@) == first_monster_spec(nearby@.skip(i as int)),
        decreases nearby@.len() - i,
    {
        proof {
            assert(nearby@.skip(i as int)[0] == nearby@[i as int]);
            assert(nearby@.skip(i as int).skip(1) =~= nearby@.skip(i + 1));
        }
        let is_monster = match nearby[i].role {
            Some(Role::Monster) => true,
            _ => false,
        };
        if is_monster {
            return Some(nearby[i].pos);
        }
        i += 1;
    }
    proof {
        assert(nearby@.skip(i as int).len() == 0);
    }
    None
}

fn smalltalk_remark(
    npc: &NpcView,
    world: &WorldView,
    sentiments: &crate::npc::Sentiments,
    draw: u64,
) -> (r: Content)
    ensures
        r == smalltalk_remark_spec(*npc, *world, crate::action::sentiments_map(*sentiments), draw),
{
    let mut rng = crate::rng::SimRng::new(draw);
    let pick = rng.gen_below(10);
    let s1 = crate::rng::advance(draw);
    let mention = site_mention(npc, world, s1);
    let monster = first_monster(&world.nearby);
    let is_night = match world.day_period {
        crate::npc::DayPeriod::Night => true,
        _ => false,
    };
    if pick < 2 && mention.is_some() {
        match mention {
            Some(c) => c,
            None => Content::Key(SpeechKey::Site),
        }
    } else if pick < 4 && npc.current_site.is_some() {
        Content::Key(SpeechKey::Site)
    } else if pick < 6 && monster.is_some() {
        match monster {
            Some(p) => Content::KeyWithPlace(
                SpeechKey::TellMonster,
                compass_dir(&npc.pos, &p),
                dist_approx(&npc.pos, &p),
            ),
            None => Content::Key(SpeechKey::Site),
        }
    } else if pick < 8 && is_night {
        Content::Key(SpeechKey::Night)
    } else if (match npc.profession() {
        Some(crate::npc::Profession::Pirate(_)) => true,
        _ => false,
    }) {
        Content::Key(SpeechKey::PirateShanty)
    } else {
        generic_comment(&npc.personality, crate::rng::advance(s1))
    }
}

/// The candidate set a choice node evaluates on activation, in declaration
/// order.
pub open spec fn candidates_spec(
    options: ChoiceSel,
    npc: NpcView,
    world: WorldView,
    time: u64,
    sentiments: Map<Actor, i32>,
    draw: u64,
) -> Seq<(Priority, Action)> {
    match options {
        ChoiceSel::IdleOnly => seq![(Priority::Casual, Action::Just(Effect::Idle))],
        ChoiceSel::VillagerAt(site_id) => seq![
            (
                villager_priority_spec(npc, world),
                villager_spec(site_id, npc, world, draw),
            ),
        ],
    }
}

/// Sheltering from the dark or the rain takes precedence over everything a
/// villager might otherwise do.
pub open spec fn villager_priority_spec(npc: NpcView, world: WorldView) -> Priority {
    if (world.day_period == crate::npc::DayPeriod::Night || world.is_raining)
        && npc.profession_spec() != Some(Profession::Guard) {
        Priority::Important
    } else {
        Priority::Casual
    }
}

fn villager_priority(npc: &NpcView, world: &WorldView) -> (r: Priority)
    ensures
        r == villager_priority_spec(*npc, *world),
{
    let guard = match npc.profession() {
        Some(Profession::Guard) => true,
        _ => false,
    };
    let dark = match world.day_period {
        crate::npc::DayPeriod::Night => true,
        _ => false,
    };
    if (dark || world.is_raining) && !guard {
        Priority::Important
    } else {
        Priority::Casual
    }
}

pub fn candidates(
    options: &ChoiceSel,
    npc: &NpcView,
    world: &WorldView,
    time: u64,
    sentiments: &crate::npc::Sentiments,
    draw: u64,
) -> (r: Vec<(Priority, Action)>)
    ensures
        r@ == candidates_spec(
            *options,
            *npc,
            *world,
            time,
            crate::action::sentiments_map(*sentiments),
            draw,
        ),
{
    match options {
        ChoiceSel::IdleOnly => {
            let mut v: Vec<(Priority, Action)> = Vec::new();
            v.push((Priority::Casual, Action::Just(Effect::Idle)));
            proof {
                assert(v@ =~= seq![(Priority::Casual, Action::Just(Effect::Idle))]);
            }
            v
        },
        ChoiceSel::VillagerAt(site_id) => {
            let mut v: Vec<(Priority, Action)> = Vec::new();
            let p = villager_priority(npc, world);
            let a = villager_build(*site_id, npc, world, draw);
            v.push((p, a));
            proof {
                assert(v@ =~= seq![
                    (
                        villager_priority_spec(*npc, *world),
                        villager_spec(*site_id, *npc, *world, draw),
                    ),
                ]);
            }
            v
        },
    }
}

/// A hand in the trading-floor pastime NPCs play during dialogue.
#[derive(Clone, Copy, Debug, PartialEq, Eq, Structural)]
pub enum RpsHand {
    Rock,
    Paper,
    Scissors,
}

#[derive(Clone, Copy, Debug, PartialEq, Eq, Structural)]
pub enum RpsOutcome {
    Draw,
    WeWin,
    WeLose,
}

/// Who wins a round: rock blunts scissors, paper wraps rock, scissors cut
/// paper; equal hands draw.
pub open spec fn rps_outcome_spec(ours: RpsHand, theirs: RpsHand) -> RpsOutcome {
    if ours == theirs {
        RpsOutcome::Draw
    } else if (ours == RpsHand::Rock && theirs == RpsHand::Scissors) || (ours == RpsHand::Paper
        && theirs == RpsHand::Rock) || (ours == RpsHand::Scissors && theirs == RpsHand::Paper) {
        RpsOutcome::WeWin
    } else {
        RpsOutcome::WeLose
    }
}

pub fn rps_outcome(ours: RpsHand, theirs: RpsHand) -> (r: RpsOutcome)
    ensures
        r == rps_outcome_spec(ours, theirs),
{
    if ours == theirs {
        RpsOutcome::Draw
    } else {
        match (ours, theirs) {
            (RpsHand::Rock, RpsHand::Scissors) => RpsOutcome::WeWin,
            (RpsHand::Paper, RpsHand::Rock) => RpsOutcome::WeWin,
            (RpsHand::Scissors, RpsHand::Paper) => RpsOutcome::WeWin,
            _ => RpsOutcome::WeLose,
        }
    }
}

/// The announced result of a round, from our side.
pub fn rps_result_key(outcome: RpsOutcome) -> (r: SpeechKey)
    ensures
        r == (match outcome {
            RpsOutcome::Draw => SpeechKey::GameDraw,
            RpsOutcome::WeWin => SpeechKey::GameWin,
            RpsOutcome::WeLose => SpeechKey::GameLose,
        }),
{
    match outcome {
        RpsOutcome::Draw => SpeechKey::GameDraw,
        RpsOutcome::WeWin => SpeechKey::GameWin,
        RpsOutcome::WeLose => SpeechKey::GameLose,
    }
}

/// The hand an NPC throws, drawn uniformly from its stream.
pub fn rps_draw_hand(rng: &mut crate::rng::SimRng) -> (r: RpsHand)
    ensures
        r == (match below_spec(old(rng).state, 3) {
            0u64 => RpsHand::Rock,
            1u64 => RpsHand::Paper,
            _ => RpsHand::Scissors,
        }),
{
    let pick = rng.gen_below(3);
    if pick == 0 {
        RpsHand::Rock
    } else if pick == 1 {
        RpsHand::Paper
    } else {
        RpsHand::Scissors
    }
}

// ---- reacting to the inbox ----

/// How long after the event a witness still reacts aloud.
pub const REPORT_RESPONSE_WINDOW: u64 = 300 * SECOND;


/// A pointwise update of the opinion table's model.
pub open spec fn opinion_set(m: Map<Actor, i32>, k: Actor, v: i32) -> Map<Actor, i32> {
    Map::new(|a: Actor| true, |a: Actor| if a == k {
        v
    } else {
        m[a]
    })
}

pub open spec fn report_lookup_spec(reports: Seq<(u64, Report)>, id: u64) -> Option<Report>
    decreases reports.len(),
{
    if reports.len() == 0 {
        None
    } else if reports[0].0 == id {
        Some(reports[0].1)
    } else {
        report_lookup_spec(reports.skip(1), id)
    }
}

/// Whether a report is still fresh enough to speak about.
pub open spec fn within_response_window(tod: u64, at: u64) -> bool {
    tod >= at && tod - at < REPORT_RESPONSE_WINDOW
}

/// What one inbox entry does: whether it is retained, the reports now known,
/// the updated opinions, and the reaction it provokes, if any. Reports are
/// reacted to once (deduplicated through the known set) and consumed;
/// interactions provoke a conversation and are consumed; dialogue turns are
/// retained for the conversation actions that consume them.
pub open spec fn input_step_spec(
    inp: NpcInput,
    known: Seq<u64>,
    sents: Map<Actor, i32>,
    npc: NpcView,
    world: WorldView,
) -> (bool, Seq<u64>, Map<Actor, i32>, Option<Action>) {
    match inp {
        NpcInput::Report(rid) => {
            if known.contains(rid) {
                (false, known, sents, None)
            } else {
                match report_lookup_spec(world.reports@, rid) {
                    Some(rep) => match rep.kind {
                        ReportKind::Death { killer, actor } => {
                            if npc.role is Civilised {
                                let victim_enemy = sentiment_is_spec(
                                    sents[actor],
                                    SENTIMENT_ENEMY,
                                );
                                let s1 = match killer {
                                    Some(k) => opinion_set(
                                        sents,
                                        k,
                                        change_by_spec(
                                            sents[k],
                                            if victim_enemy {
                                                250i32
                                            } else {
                                                -750i32
                                            },
                                            SENTIMENT_VILLAIN,
                                        ) as i32,
                                    ),
                                    None => sents,
                                };
                                let s2 = if actor is Character {
                                    opinion_set(
                                        s1,
                                        actor,
                                        if s1[actor] >= SENTIMENT_ENEMY {
                                            s1[actor]
                                        } else {
                                            SENTIMENT_ENEMY
                                        },
                                    )
                                } else {
                                    s1
                                };
                                let phrase = match killer {
                                    Some(_) => if victim_enemy {
                                        SpeechKey::WitnessEnemyMurder
                                    } else {
                                        SpeechKey::WitnessMurder
                                    },
                                    None => SpeechKey::WitnessDeath,
                                };
                                let act = if within_response_window(world.time_of_day, rep.at_tod) {
                                    Some(Action::Just(Effect::Say(killer, Content::Key(phrase))))
                                } else {
                                    None
                                };
                                (false, known.push(rid), s2, act)
                            } else {
                                (false, known, sents, None)
                            }
                        },
                        ReportKind::Theft { thief, site, is_plant } => {
                            if site is Some && npc.home == site {
                                let s1 = opinion_set(
                                    sents,
                                    thief,
                                    change_by_spec(sents[thief], -200i32, SENTIMENT_ENEMY) as i32,
                                );
                                let phrase = if npc.profession_spec() == Some(Profession::Farmer)
                                    && is_plant {
                                    SpeechKey::WitnessTheftOwned
                                } else {
                                    SpeechKey::WitnessTheft
                                };
                                let act = if within_response_window(world.time_of_day, rep.at_tod) {
                                    Some(
                                        Action::Just(
                                            Effect::Say(Some(thief), Content::Key(phrase)),
                                        ),
                                    )
                                } else {
                                    None
                                };
                                (false, known.push(rid), s1, act)
                            } else {
                                (false, known, sents, None)
                            }
                        },
                    },
                    None => (false, known, sents, None),
                }
            }
        },
        NpcInput::Interaction(by) => (
            false,
            known,
            sents,
            Some(Action::Eval { sel: Selector::TalkTo(by), built: None }),
        ),
        NpcInput::Dialogue(_, _) => (true, known, sents, None),
    }
}

/// The whole inbox processed in order: the retained entries, the known set,
/// the opinions, and the reaction — the latest reaction wins, as entries are
/// handled in arrival order.
pub open spec fn inbox_fold_spec(
    inbox: Seq<NpcInput>,
    known: Seq<u64>,
    sents: Map<Actor, i32>,
    npc: NpcView,
    world: WorldView,
) -> (Seq<NpcInput>, Seq<u64>, Map<Actor, i32>, Option<Action>)
    decreases inbox.len(),
{
    if inbox.len() == 0 {
        (Seq::empty(), known, sents, None)
    } else {
        let (keep, k1, s1, a1) = input_step_spec(inbox[0], known, sents, npc, world);
        let (rest, k2, s2, a2) = inbox_fold_spec(inbox.skip(1), k1, s1, npc, world);
        (
            (if keep {
                seq![inbox[0]] + rest
            } else {
                rest
            }),
            k2,
            s2,
            (if a2 is Some {
                a2
            } else {
                a1
            }),
        )
    }
}

fn known_contains(v: &Vec<u64>, x: u64) -> (r: bool)
    ensures
        r == v@.contains(x),
{
    let mut i: usize = 0;
    while i < v.len()
        invariant
            i <= v@.len(),
            forall|j: int| 0 <= j < i ==> #[trigger] v@[j] != x,
        decreases v@.len() - i,
    {
        if v[i] == x {
            proof {
                assert(v@[i as int] == x);
            }
            return true;
        }
        i += 1;
    }
    proof {
        if v@.contains(x) {
            let w = choose|w: int| 0 <= w < v@.len() && v@[w] == x;
            assert(false);
        }
    }
    false
}

fn report_find(reports: &Vec<(u64, Report)>, id: u64) -> (r: Option<Report>)
    ensures
        r == report_lookup_spec(reports@, id),
{
    proof {
        assert(reports@.skip(0) =~= reports@);
    }
    let mut i: usize = 0;
    while i < reports.len()
        invariant
            i <= reports@.len(),
            report_lookup_spec(reports@, id) == report_lookup_spec(reports@.skip(i as int), id),
        decreases reports@.len() - i,
    {
        proof {
            assert(reports@.skip(i as int)[0] == reports@[i as int]);
            assert(reports@.skip(i as int).skip(1) =~= reports@.skip(i + 1));
        }
        if reports[i].0 == id {
            return Some(reports[i].1);
        }
        i += 1;
    }
    proof {
        assert(reports@.skip(i as int).len() == 0);
    }
    None
}

/// Process the inbox once, in arrival order: react to unseen reports
/// (deduplicated through the known set, with the opinion changes and the
/// witness phrase inside the response window), start a conversation on an
/// interaction, and retain dialogue turns. Returns the retained entries and
/// the provoked reaction, if any.
#[verifier::rlimit(100)]
#[verifier::spinoff_prover]
pub fn inbox_step(
    inbox: Vec<NpcInput>,
    known: &mut Vec<u64>,
    sents: &mut Sentiments,
    npc: &NpcView,
    world: &WorldView,
) -> (r: (Vec<NpcInput>, Option<Action>))
    requires
        old(sents).wf(),
    ensures
        final(sents).wf(),
        ({
            let (kept, k2, s2, act) = inbox_fold_spec(
                inbox@,
                old(known)@,
                crate::action::sentiments_map(*old(sents)),
                *npc,
                *world,
            );
            r.0@ == kept && final(known)@ == k2 && crate::action::sentiments_map(*final(sents))
                == s2 && r.1 == act
        }),
{
    let ghost target = inbox_fold_spec(
        inbox@,
        old(known)@,
        crate::action::sentiments_map(*old(sents)),
        *npc,
        *world,
    );
    let mut kept: Vec<NpcInput> = Vec::new();
    let mut act: Option<Action> = None;
    let mut i: usize = 0;
    proof {
        assert(inbox@.skip(0) =~= inbox@);
        assert(kept@ + inbox_fold_spec(
            inbox@,
            old(known)@,
            crate::action::sentiments_map(*old(sents)),
            *npc,
            *world,
        ).0 =~= inbox_fold_spec(
            inbox@,
            old(known)@,
            crate::action::sentiments_map(*old(sents)),
            *npc,
            *world,
        ).0);
    }
    while i < inbox.len()
        invariant
            sents.wf(),
            i <= inbox@.len(),
            ({
                let (rest, k2, s2, a2) = inbox_fold_spec(
                    inbox@.skip(i as int),
                    known@,
                    crate::action::sentiments_map(*sents),
                    *npc,
                    *world,
                );
                target == ((kept@ + rest), k2, s2, (if a2 is Some {
                    a2
                } else {
                    act
                }))
            }),
        decreases inbox@.len() - i,
    {
        proof {
            assert(inbox@.skip(i as int)[0] == inbox@[i as int]);
            assert(inbox@.skip(i as int).skip(1) =~= inbox@.skip(i + 1));
        }
        let ghost known_pre = known@;
        let ghost map_pre = crate::action::sentiments_map(*sents);
        let ghost kept_pre = kept@;
        let ghost act_pre = act;
        match &inbox[i] {
            NpcInput::Report(rid) => {
                if !known_contains(known, *rid) {
                    match report_find(&world.reports, *rid) {
                        Some(rep) => {
                            match rep.kind {
                                ReportKind::Death { killer, actor } => {
                                    let civil = match npc.role {
                                        Role::Civilised(_) => true,
                                        _ => false,
                                    };
                                    if civil {
                                        let victim_enemy = sents.is_toward(
                                            actor,
                                            SENTIMENT_ENEMY,
                                        );
                                        match killer {
                                            Some(k) => {
                                                let delta: i32 = if victim_enemy {
                                                    250
                                                } else {
                                                    -750
                                                };
                                                sents.change_by(k, delta, SENTIMENT_VILLAIN);
                                                proof {
                                                    let m_now = crate::action::sentiments_map(
                                                        *sents,
                                                    );
                                                    let m_goal = opinion_set(
                                                        map_pre,
                                                        k,
                                                        change_by_spec(
                                                            map_pre[k],
                                                            delta,
                                                            SENTIMENT_VILLAIN,
                                                        ) as i32,
                                                    );
                                                    assert forall|a: Actor| #[trigger] m_now[a]
                                                        == m_goal[a] by {
                                                        assert(m_now[a] == sents.toward_spec(a));
                                                    }
                                                    assert(m_now =~~= m_goal);
                                                }
                                            },
                                            None => {},
                                        }
                                        let ghost map_mid = crate::action::sentiments_map(*sents);
                                        let is_char = match actor {
                                            Actor::Character(_) => true,
                                            _ => false,
                                        };
                                        if is_char {
                                            sents.limit_below(actor, SENTIMENT_ENEMY);
                                            proof {
                                                let m_now = crate::action::sentiments_map(*sents);
                                                let m_goal = opinion_set(
                                                    map_mid,
                                                    actor,
                                                    if map_mid[actor] >= SENTIMENT_ENEMY {
                                                        map_mid[actor]
                                                    } else {
                                                        SENTIMENT_ENEMY
                                                    },
                                                );
                                                assert forall|a: Actor| #[trigger] m_now[a]
                                                    == m_goal[a] by {
                                                    assert(m_now[a] == sents.toward_spec(a));
                                                }
                                                assert(m_now =~~= m_goal);
                                            }
                                        }
                                        known.push(*rid);
                                        if world.time_of_day >= rep.at_tod && world.time_of_day
                                            - rep.at_tod < REPORT_RESPONSE_WINDOW {
                                            let phrase: SpeechKey = match killer {
                                                Some(_) => if victim_enemy {
                                                    SpeechKey::WitnessEnemyMurder
                                                } else {
                                                    SpeechKey::WitnessMurder
                                                },
                                                None => SpeechKey::WitnessDeath,
                                            };
                                            act = Some(
                                                Action::Just(
                                                    Effect::Say(killer, Content::Key(phrase)),
                                                ),
                                            );
                                        }
                                    }
                                },
                                ReportKind::Theft { thief, site, is_plant } => {
                                    let at_home = match site {
                                        Some(s) => npc.home == Some(s),
                                        None => false,
                                    };
                                    if at_home {
                                        sents.change_by(thief, -200, SENTIMENT_ENEMY);
                                        proof {
                                            let m_now = crate::action::sentiments_map(*sents);
                                            let m_goal = opinion_set(
                                                map_pre,
                                                thief,
                                                change_by_spec(
                                                    map_pre[thief],
                                                    -200i32,
                                                    SENTIMENT_ENEMY,
                                                ) as i32,
                                            );
                                            assert forall|a: Actor| #[trigger] m_now[a]
                                                == m_goal[a] by {
                                                assert(m_now[a] == sents.toward_spec(a));
                                            }
                                            assert(m_now =~~= m_goal);
                                        }
                                        known.push(*rid);
                                        if world.time_of_day >= rep.at_tod && world.time_of_day
                                            - rep.at_tod < REPORT_RESPONSE_WINDOW {
                                            let farmer = match npc.profession() {
                                                Some(Profession::Farmer) => true,
                                                _ => false,
                                            };
                                            let phrase: SpeechKey = if farmer && is_plant {
                                                SpeechKey::WitnessTheftOwned
                                            } else {
                                                SpeechKey::WitnessTheft
                                            };
                                            act = Some(
                                                Action::Just(
                                                    Effect::Say(
                                                        Some(thief),
                                                        Content::Key(phrase),
                                                    ),
                                                ),
                                            );
                                        }
                                    }
                                },
                            }
                        },
                        None => {},
                    }
                }
            },
            NpcInput::Interaction(by) => {
                act = Some(Action::Eval { sel: Selector::TalkTo(*by), built: None });
            },
            NpcInput::Dialogue(_, _) => {
                let moved = crate::scheduler::duplicate_input(&inbox[i]);
                kept.push(moved);
            },
        }
        proof {
            let (keep, k1, s1, a1) = input_step_spec(inbox@[i as int], known_pre, map_pre, *npc, *world);
            assert(known@ == k1);
            assert(crate::action::sentiments_map(*sents) == s1);
            assert(kept@ == (if keep {
                kept_pre + seq![inbox@[i as int]]
            } else {
                kept_pre
            }));
            assert(act == (if a1 is Some {
                a1
            } else {
                act_pre
            }));
            let (rest1, kk2, ss2, aa2) = inbox_fold_spec(
                inbox@.skip(i + 1),
                k1,
                s1,
                *npc,
                *world,
            );
            if keep {
                assert((kept_pre + seq![inbox@[i as int]]) + rest1 =~= kept_pre + (seq![
                    inbox@[i as int],
                ] + rest1));
            }
        }
        i += 1;
    }
    proof {
        assert(inbox@.skip(inbox@.len() as int).len() == 0);
        assert(kept@ + Seq::<NpcInput>::empty() =~= kept@);
    }
    (kept, act)
}

/// The first nearby actor this NPC counts as an enemy, if any.
pub open spec fn first_enemy_spec(
    nearby: Seq<crate::npc::NearbyActor>,
    sents: Map<Actor, i32>,
) -> Option<Actor>
    decreases nearby.len(),
{
    if nearby.len() == 0 {
        None
    } else if sentiment_is_spec(sents[nearby[0].actor], SENTIMENT_ENEMY) {
        Some(nearby[0].actor)
    } else {
        first_enemy_spec(nearby.skip(1), sents)
    }
}

pub fn first_enemy(nearby: &Vec<crate::npc::NearbyActor>, sents: &Sentiments) -> (r: Option<Actor>)
    ensures
        r == first_enemy_spec(nearby@, crate::action::sentiments_map(*sents)),
{
    proof {
        assert(nearby@.skip(0) =~= nearby@);
    }
    let mut i: usize = 0;
    while i < nearby.len()
        invariant
            i <= nearby@.len(),
            first_enemy_spec(nearby@, crate::action::sentiments_map(*sents)) == first_enemy_spec(
                nearby@.skip(i as int),
                crate::action::sentiments_map(*sents),
            ),
        decreases nearby@.len() - i,
    {
        proof {
            assert(nearby@.skip(i as int)[0] == nearby@[i as int]);
            assert(nearby@.skip(i as int).skip(1) =~= nearby@.skip(i + 1));
            assert(crate::action::sentiments_map(*sents)[nearby@[i as int].actor]
                == sents.toward_spec(nearby@[i as int].actor));
        }
        if sents.is_toward(nearby[i].actor, SENTIMENT_ENEMY) {
            return Some(nearby[i].actor);
        }
        i += 1;
    }
    proof {
        assert(nearby@.skip(i as int).len() == 0);
    }
    None
}

// ---- world-query helpers for the behaviour builders ----

pub open spec fn site_lookup_spec(sites: Seq<SiteView>, id: u64) -> Option<SiteView>
    decreases sites.len(),
{
    if sites.len() == 0 {
        None
    } else if sites[0].id == id {
        Some(sites[0])
    } else {
        site_lookup_spec(sites.skip(1), id)
    }
}

fn find_site(world: &WorldView, id: u64) -> (r: Option<&SiteView>)
    ensures
        match r {
            Some(s) => site_lookup_spec(world.sites@, id) == Some(*s),
            None => site_lookup_spec(world.sites@, id) is None,
        },
{
    proof {
        assert(world.sites@.skip(0) =~= world.sites@);
    }
    let mut i: usize = 0;
    while i < world.sites.len()
        invariant
            i <= world.sites@.len(),
            site_lookup_spec(world.sites@, id) == site_lookup_spec(world.sites@.skip(i as int), id),
        decreases world.sites@.len() - i,
    {
        proof {
            assert(world.sites@.skip(i as int)[0] == world.sites@[i as int]);
            assert(world.sites@.skip(i as int).skip(1) =~= world.sites@.skip(i + 1));
        }
        if world.sites[i].id == id {
            return Some(&world.sites[i]);
        }
        i += 1;
    }
    proof {
        assert(world.sites@.skip(i as int).len() == 0);
    }
    None
}

/// The positions of a site's plots of one kind, in stored order.
pub open spec fn plots_of_kind_spec(plots: Seq<PlotView>, kind: PlotKind) -> Seq<WPos>
    decreases plots.len(),
{
    if plots.len() == 0 {
        Seq::empty()
    } else {
        let rest = plots_of_kind_spec(plots.drop_last(), kind);
        if plots.last().kind == kind {
            rest.push(plots.last().pos)
        } else {
            rest
        }
    }
}

proof fn lemma_plots_of_kind_push(plots: Seq<PlotView>, p: PlotView, kind: PlotKind)
    ensures
        plots_of_kind_spec(plots.push(p), kind) == (if p.kind == kind {
            plots_of_kind_spec(plots, kind).push(p.pos)
        } else {
            plots_of_kind_spec(plots, kind)
        }),
{
    let q = plots.push(p);
    assert(q.last() == p);
    assert(q.drop_last() =~= plots);
}

/// One plot of the kind, picked by the draw; none when the site has none.
pub open spec fn plot_pick_spec(site: SiteView, kind: PlotKind, state: u64) -> Option<WPos> {
    let ps = plots_of_kind_spec(site.plots@, kind);
    if ps.len() == 0 {
        None
    } else {
        Some(ps[below_spec(state, ps.len() as u64) as int])
    }
}

fn plot_pick(site: &SiteView, kind: PlotKind, state: u64) -> (r: Option<WPos>)
    ensures
        r == plot_pick_spec(*site, kind, state),
{
    let mut ps: Vec<WPos> = Vec::new();
    let mut i: usize = 0;
    proof {
        assert(site.plots@.subrange(0, 0) =~= Seq::<PlotView>::empty());
        assert(plots_of_kind_spec(site.plots@.subrange(0, 0), kind) =~= Seq::<WPos>::empty());
    }
    while i < site.plots.len()
        invariant
            i <= site.plots@.len(),
            ps@ == plots_of_kind_spec(site.plots@.subrange(0, i as int), kind),
        decreases site.plots@.len() - i,
    {
        proof {
            lemma_plots_of_kind_push(site.plots@.subrange(0, i as int), site.plots@[i as int], kind);
            assert(site.plots@.subrange(0, i as int).push(site.plots@[i as int])
                =~= site.plots@.subrange(0, i + 1));
        }
        if site.plots[i].kind == kind {
            ps.push(site.plots[i].pos);
        }
        i += 1;
    }
    proof {
        assert(site.plots@.subrange(0, site.plots@.len() as int) =~= site.plots@);
    }
    if ps.len() == 0 {
        None
    } else {
        let mut rng = crate::rng::SimRng::new(state);
        let idx = rng.gen_below(ps.len() as u64) as usize;
        Some(ps[idx])
    }
}

/// The nearest site with a hideout plot, by squared distance, earliest on
/// ties.
pub open spec fn nearest_hideout_spec(sites: Seq<SiteView>, pos: WPos) -> Option<(u64, WPos)>
    decreases sites.len(),
{
    if sites.len() == 0 {
        None
    } else {
        let rest = nearest_hideout_spec(sites.drop_last(), pos);
        let s = sites.last();
        if plots_of_kind_spec(s.plots@, PlotKind::PirateHideout).len() > 0 {
            match rest {
                Some((bid, bpos)) => {
                    if crate::action::near_sq_spec(pos, s.pos) < crate::action::near_sq_spec(
                        pos,
                        bpos,
                    ) {
                        Some((s.id, s.pos))
                    } else {
                        rest
                    }
                },
                None => Some((s.id, s.pos)),
            }
        } else {
            rest
        }
    }
}

proof fn lemma_nearest_hideout_push(sites: Seq<SiteView>, s: SiteView, pos: WPos)
    ensures
        nearest_hideout_spec(sites.push(s), pos) == (if plots_of_kind_spec(
            s.plots@,
            PlotKind::PirateHideout,
        ).len() > 0 {
            match nearest_hideout_spec(sites, pos) {
                Some((bid, bpos)) => {
                    if crate::action::near_sq_spec(pos, s.pos) < crate::action::near_sq_spec(
                        pos,
                        bpos,
                    ) {
                        Some((s.id, s.pos))
                    } else {
                        nearest_hideout_spec(sites, pos)
                    }
                },
                None => Some((s.id, s.pos)),
            }
        } else {
            nearest_hideout_spec(sites, pos)
        }),
{
    let q = sites.push(s);
    assert(q.last() == s);
    assert(q.drop_last() =~= sites);
}

fn nearest_hideout(world: &WorldView, pos: &WPos) -> (r: Option<(u64, WPos)>)
    ensures
        r == nearest_hideout_spec(world.sites@, *pos),
{
    let mut best: Option<(u64, WPos)> = None;
    let mut i: usize = 0;
    proof {
        assert(world.sites@.subrange(0, 0) =~= Seq::<SiteView>::empty());
    }
    while i < world.sites.len()
        invariant
            i <= world.sites@.len(),
            best == nearest_hideout_spec(world.sites@.subrange(0, i as int), *pos),
        decreases world.sites@.len() - i,
    {
        proof {
            lemma_nearest_hideout_push(
                world.sites@.subrange(0, i as int),
                world.sites@[i as int],
                *pos,
            );
            assert(world.sites@.subrange(0, i as int).push(world.sites@[i as int])
                =~= world.sites@.subrange(0, i + 1));
        }
        let has = has_plot_of_kind(&world.sites[i], PlotKind::PirateHideout);
        if has {
            let better: bool = match &best {
                Some((_, bpos)) => {
                    let dn = crate::action::near_sq(pos, &world.sites[i].pos);
                    let db = crate::action::near_sq(pos, bpos);
                    dn < db
                },
                None => true,
            };
            if better {
                best = Some((world.sites[i].id, world.sites[i].pos));
            }
        }
        i += 1;
    }
    proof {
        assert(world.sites@.subrange(0, world.sites@.len() as int) =~= world.sites@);
    }
    best
}

fn has_plot_of_kind(site: &SiteView, kind: PlotKind) -> (r: bool)
    ensures
        r == (plots_of_kind_spec(site.plots@, kind).len() > 0),
{
    let mut i: usize = 0;
    proof {
        assert(site.plots@.subrange(0, 0) =~= Seq::<PlotView>::empty());
        assert(plots_of_kind_spec(site.plots@.subrange(0, 0), kind) =~= Seq::<WPos>::empty());
    }
    while i < site.plots.len()
        invariant
            i <= site.plots@.len(),
            plots_of_kind_spec(site.plots@.subrange(0, i as int), kind).len() == 0,
        decreases site.plots@.len() - i,
    {
        proof {
            lemma_plots_of_kind_push(site.plots@.subrange(0, i as int), site.plots@[i as int], kind);
            assert(site.plots@.subrange(0, i as int).push(site.plots@[i as int])
                =~= site.plots@.subrange(0, i + 1));
        }
        if site.plots[i].kind == kind {
            proof {
                assert(plots_of_kind_spec(site.plots@.subrange(0, i + 1), kind).len() > 0);
                lemma_plots_prefix_len(site.plots@, i + 1, kind);
            }
            return true;
        }
        i += 1;
    }
    proof {
        assert(site.plots@.subrange(0, site.plots@.len() as int) =~= site.plots@);
    }
    false
}

proof fn lemma_plots_prefix_len(plots: Seq<PlotView>, n: int, kind: PlotKind)
    requires
        0 <= n <= plots.len(),
    ensures
        plots_of_kind_spec(plots, kind).len() >= plots_of_kind_spec(
            plots.subrange(0, n),
            kind,
        ).len(),
    decreases plots.len() - n,
{
    if n < plots.len() {
        lemma_plots_of_kind_push(plots.subrange(0, n), plots[n], kind);
        assert(plots.subrange(0, n).push(plots[n]) =~= plots.subrange(0, n + 1));
        lemma_plots_prefix_len(plots, n + 1, kind);
    } else {
        assert(plots.subrange(0, plots.len() as int) =~= plots);
    }
}

/// Sites holding a workshop, other than the one currently visited.
pub open spec fn workshop_sites_spec(sites: Seq<SiteView>, current: Option<u64>) -> Seq<(u64, WPos)>
    decreases sites.len(),
{
    if sites.len() == 0 {
        Seq::empty()
    } else {
        let rest = workshop_sites_spec(sites.drop_last(), current);
        let s = sites.last();
        if plots_of_kind_spec(s.plots@, PlotKind::Workshop).len() > 0 && current != Some(s.id) {
            rest.push((s.id, s.pos))
        } else {
            rest
        }
    }
}

proof fn lemma_workshop_sites_push(sites: Seq<SiteView>, s: SiteView, current: Option<u64>)
    ensures
        workshop_sites_spec(sites.push(s), current) == (if plots_of_kind_spec(
            s.plots@,
            PlotKind::Workshop,
        ).len() > 0 && current != Some(s.id) {
            workshop_sites_spec(sites, current).push((s.id, s.pos))
        } else {
            workshop_sites_spec(sites, current)
        }),
{
    let q = sites.push(s);
    assert(q.last() == s);
    assert(q.drop_last() =~= sites);
}

fn workshop_sites(world: &WorldView, current: Option<u64>) -> (r: Vec<(u64, WPos)>)
    ensures
        r@ == workshop_sites_spec(world.sites@, current),
{
    let mut out: Vec<(u64, WPos)> = Vec::new();
    let mut i: usize = 0;
    proof {
        assert(world.sites@.subrange(0, 0) =~= Seq::<SiteView>::empty());
        assert(workshop_sites_spec(world.sites@.subrange(0, 0), current) =~= Seq::<
            (u64, WPos),
        >::empty());
    }
    while i < world.sites.len()
        invariant
            i <= world.sites@.len(),
            out@ == workshop_sites_spec(world.sites@.subrange(0, i as int), current),
        decreases world.sites@.len() - i,
    {
        proof {
            lemma_workshop_sites_push(
                world.sites@.subrange(0, i as int),
                world.sites@[i as int],
                current,
            );
            assert(world.sites@.subrange(0, i as int).push(world.sites@[i as int])
                =~= world.sites@.subrange(0, i + 1));
        }
        let has = has_plot_of_kind(&world.sites[i], PlotKind::Workshop);
        let differs: bool = match current {
            Some(c) => world.sites[i].id != c,
            None => true,
        };
        if has && differs {
            out.push((world.sites[i].id, world.sites[i].pos));
        }
        i += 1;
    }
    proof {
        assert(world.sites@.subrange(0, world.sites@.len() as int) =~= world.sites@);
    }
    out
}

// ---- behaviour tree building blocks ----

/// A repetition of one blueprint, fresh.
pub open spec fn repeat_of(a: Action) -> Action {
    Action::Repeat { blueprint: Box::new(a), current: Box::new(a), restarts: 0 }
}

fn exec_repeat_of(a: Action) -> (r: Action)
    ensures
        r == repeat_of(r_blueprint(r)),
        r == repeat_of(a),
{
    let c = crate::action::duplicate_action(&a);
    Action::Repeat { blueprint: Box::new(a), current: Box::new(c), restarts: 0 }
}

pub open spec fn r_blueprint(r: Action) -> Action {
    match r {
        Action::Repeat { blueprint, .. } => *blueprint,
        _ => r,
    }
}

pub open spec fn timeout_pred(dur: u64) -> Predicate {
    Predicate::Timeout { dur, start: None }
}

/// A duration drawn from a range, in time units.
pub open spec fn dur_range_spec(state: u64, lo: u64, hi: u64) -> u64
    recommends
        lo < hi,
{
    (lo + below_spec(state, (hi - lo) as u64)) as u64
}

fn dur_range(state: u64, lo: u64, hi: u64) -> (r: u64)
    requires
        lo < hi,
    ensures
        r == dur_range_spec(state, lo, hi),
{
    let mut rng = crate::rng::SimRng::new(state);
    rng.gen_range(lo, hi)
}

/// Fruit, mushrooms and plants: what a forager gathers.
pub const FORAGE_MASK: u16 = 84;

/// The villager fallback: walk to a plaza and socialize there for a while.
pub open spec fn plaza_loiter_spec(site: SiteView, d_pick: u64, d_dur: u64) -> Action {
    match plot_pick_spec(site, PlotKind::Plaza, d_pick) {
        Some(p) => Action::Tag {
            label: BehaviorTag::WalkToPlaza,
            inner: Box::new(
                Action::Then {
                    first: Box::new(Action::Just(Effect::Goto(p, 5000))),
                    second: Box::new(
                        Action::Tag {
                            label: BehaviorTag::WaitAtPlaza,
                            inner: Box::new(
                                Action::StopIf {
                                    pred: timeout_pred(
                                        dur_range_spec(d_dur, (30 * SECOND) as u64, (90
                                            * SECOND) as u64),
                                    ),
                                    inner: Box::new(
                                        repeat_of(
                                            Action::Eval { sel: Selector::Socialize, built: None },
                                        ),
                                    ),
                                },
                            ),
                        },
                    ),
                    in_second: false,
                },
            ),
        },
        None => Action::Finish,
    }
}

fn plaza_loiter(site: &SiteView, d_pick: u64, d_dur: u64) -> (r: Action)
    ensures
        r == plaza_loiter_spec(*site, d_pick, d_dur),
{
    match plot_pick(site, PlotKind::Plaza, d_pick) {
        Some(p) => Action::Tag {
            label: BehaviorTag::WalkToPlaza,
            inner: Box::new(
                Action::Then {
                    first: Box::new(Action::Just(Effect::Goto(p, 5000))),
                    second: Box::new(
                        Action::Tag {
                            label: BehaviorTag::WaitAtPlaza,
                            inner: Box::new(
                                Action::StopIf {
                                    pred: Predicate::Timeout {
                                        dur: dur_range(d_dur, 30 * SECOND, 90 * SECOND),
                                        start: None,
                                    },
                                    inner: Box::new(
                                        exec_repeat_of(
                                            Action::Eval { sel: Selector::Socialize, built: None },
                                        ),
                                    ),
                                },
                            ),
                        },
                    ),
                    in_second: false,
                },
            ),
        },
        None => Action::Finish,
    }
}

/// Go to a position, then socialize there until a stop condition fires,
/// announcing on the way in and out.
pub open spec fn shelter_spec(
    label: BehaviorTag,
    going_key: SpeechKey,
    stop: Predicate,
    done_key: SpeechKey,
    target: WPos,
) -> Action {
    Action::Tag {
        label,
        inner: Box::new(
            Action::Then {
                first: Box::new(Action::Just(Effect::Say(None, Content::Key(going_key)))),
                second: Box::new(
                    Action::Then {
                        first: Box::new(Action::Just(Effect::Goto(target, 6500))),
                        second: Box::new(
                            Action::Then {
                                first: Box::new(
                                    Action::StopIf {
                                        pred: stop,
                                        inner: Box::new(
                                            repeat_of(
                                                Action::Eval {
                                                    sel: Selector::Socialize,
                                                    built: None,
                                                },
                                            ),
                                        ),
                                    },
                                ),
                                second: Box::new(
                                    Action::Just(Effect::Say(None, Content::Key(done_key))),
                                ),
                                in_second: false,
                            },
                        ),
                        in_second: false,
                    },
                ),
                in_second: false,
            },
        ),
    }
}

fn shelter(
    label: BehaviorTag,
    going_key: SpeechKey,
    stop: Predicate,
    done_key: SpeechKey,
    target: WPos,
) -> (r: Action)
    ensures
        r == shelter_spec(label, going_key, stop, done_key, target),
{
    Action::Tag {
        label,
        inner: Box::new(
            Action::Then {
                first: Box::new(Action::Just(Effect::Say(None, Content::Key(going_key)))),
                second: Box::new(
                    Action::Then {
                        first: Box::new(Action::Just(Effect::Goto(target, 6500))),
                        second: Box::new(
                            Action::Then {
                                first: Box::new(
                                    Action::StopIf {
                                        pred: stop,
                                        inner: Box::new(
                                            exec_repeat_of(
                                                Action::Eval {
                                                    sel: Selector::Socialize,
                                                    built: None,
                                                },
                                            ),
                                        ),
                                    },
                                ),
                                second: Box::new(
                                    Action::Just(Effect::Say(None, Content::Key(done_key))),
                                ),
                                in_second: false,
                            },
                        ),
                        in_second: false,
                    },
                ),
                in_second: false,
            },
        ),
    }
}

/// The villager routine at one site, as a pure tree: shelter from the dark
/// and the rain (guards stay out), work the profession, or loiter socially.
pub open spec fn villager_spec(site_id: u64, npc: NpcView, world: WorldView, draw: u64) -> Action {
    let d1 = advance_spec(draw);
    let d2 = advance_spec(d1);
    match site_lookup_spec(world.sites@, site_id) {
        None => Action::Just(Effect::Idle),
        Some(site) => {
            let guard = npc.profession_spec() == Some(Profession::Guard);
            if world.day_period == crate::npc::DayPeriod::Night && !guard {
                match plot_pick_spec(site, PlotKind::House, draw) {
                    Some(h) => shelter_spec(
                        BehaviorTag::FindSleep,
                        SpeechKey::NightTime,
                        Predicate::DayIsLight,
                        SpeechKey::DayTime,
                        h,
                    ),
                    None => Action::Finish,
                }
            } else if world.is_raining && !guard {
                match plot_pick_spec(site, PlotKind::House, draw) {
                    Some(h) => shelter_spec(
                        BehaviorTag::FindShelter,
                        SpeechKey::SeekingShelterRain,
                        Predicate::NotRaining,
                        SpeechKey::RainStopped,
                        h,
                    ),
                    None => Action::Finish,
                }
            } else {
                match npc.profession_spec() {
                    Some(Profession::Farmer) => match plot_pick_spec(
                        site,
                        PlotKind::FarmField,
                        draw,
                    ) {
                        Some(f) => Action::Tag {
                            label: BehaviorTag::GatherIngredients,
                            inner: Box::new(
                                Action::Then {
                                    first: Box::new(Action::Just(Effect::Goto(f, 5000))),
                                    second: Box::new(
                                        Action::StopIf {
                                            pred: timeout_pred(
                                                dur_range_spec(d1, (30 * SECOND) as u64, (120
                                                    * SECOND) as u64),
                                            ),
                                            inner: Box::new(
                                                repeat_of(
                                                    Action::Just(
                                                        Effect::Gather(
                                                            crate::npc::ResourceMask(FORAGE_MASK),
                                                        ),
                                                    ),
                                                ),
                                            ),
                                        },
                                    ),
                                    in_second: false,
                                },
                            ),
                        },
                        None => plaza_loiter_spec(site, d2, d1),
                    },
                    Some(Profession::Hunter) => Action::Tag {
                        label: BehaviorTag::Hunting,
                        inner: Box::new(
                            Action::Then {
                                first: Box::new(
                                    Action::Just(
                                        Effect::Say(None, Content::Key(SpeechKey::StartHunting)),
                                    ),
                                ),
                                second: Box::new(
                                    Action::StopIf {
                                        pred: timeout_pred(
                                            dur_range_spec(d1, (30 * SECOND) as u64, (60
                                                * SECOND) as u64),
                                        ),
                                        inner: Box::new(
                                            repeat_of(Action::Just(Effect::HuntAnimals)),
                                        ),
                                    },
                                ),
                                in_second: false,
                            },
                        ),
                    },
                    Some(Profession::Guard) => match plot_pick_spec(site, PlotKind::Plaza, draw) {
                        Some(p) => Action::Tag {
                            label: BehaviorTag::Patrol,
                            inner: Box::new(
                                Action::InterruptWith {
                                    source: InterruptSource::Signalled {
                                        signal: Predicate::EveryRangeChance {
                                            min: SECOND,
                                            max: (5 * SECOND) as u64,
                                            next: None,
                                            num: 1,
                                            denom: 100,
                                        },
                                        blueprint: Box::new(
                                            Action::Just(
                                                Effect::Say(
                                                    None,
                                                    Content::Key(SpeechKey::GuardThought),
                                                ),
                                            ),
                                        ),
                                    },
                                    active: None,
                                    inner: Box::new(
                                        Action::Then {
                                            first: Box::new(Action::Just(Effect::Goto(p, 4000))),
                                            second: Box::new(
                                                Action::StopIf {
                                                    pred: timeout_pred(
                                                        dur_range_spec(
                                                            d1,
                                                            (30 * SECOND) as u64,
                                                            (90 * SECOND) as u64,
                                                        ),
                                                    ),
                                                    inner: Box::new(
                                                        repeat_of(Action::Just(Effect::Idle)),
                                                    ),
                                                },
                                            ),
                                            in_second: false,
                                        },
                                    ),
                                },
                            ),
                        },
                        None => Action::Finish,
                    },
                    Some(Profession::Merchant) => {
                        let directed = world.nearby.len() > 0 && below_spec(d2, 10) < 3;
                        let target = if directed {
                            Some(
                                world.nearby@[below_spec(
                                    advance_spec(d2),
                                    world.nearby.len() as u64,
                                ) as int].actor,
                            )
                        } else {
                            None
                        };
                        let key = if directed {
                            SpeechKey::MerchantSellDirected
                        } else {
                            SpeechKey::MerchantSellUndirected
                        };
                        Action::Tag {
                            label: BehaviorTag::SellWares,
                            inner: Box::new(
                                Action::StopIf {
                                    pred: timeout_pred((60 * SECOND) as u64),
                                    inner: Box::new(
                                        repeat_of(
                                            Action::Then {
                                                first: Box::new(
                                                    Action::Just(
                                                        Effect::Say(target, Content::Key(key)),
                                                    ),
                                                ),
                                                second: Box::new(idle_for((8 * SECOND) as u64)),
                                                in_second: false,
                                            },
                                        ),
                                    ),
                                },
                            ),
                        }
                    },
                    _ => plaza_loiter_spec(site, d2, d1),
                }
            }
        },
    }
}

/// The pirate routine: serve the employer when hired, loiter at the home
/// hideout, or claim the nearest hideout as home.
pub open spec fn pirate_spec(npc: NpcView, world: WorldView, draw: u64) -> Action {
    let d1 = advance_spec(draw);
    match npc.hiring {
        Some((leader, _)) => Action::Eval { sel: Selector::Hired(leader), built: None },
        None => match npc.home {
            Some(h) => match site_lookup_spec(world.sites@, h) {
                Some(site) => match plot_pick_spec(site, PlotKind::PirateHideout, draw) {
                    Some(p) => Action::Tag {
                        label: BehaviorTag::Pirate,
                        inner: Box::new(
                            Action::Then {
                                first: Box::new(Action::Just(Effect::Goto(p, 5000))),
                                second: Box::new(
                                    Action::StopIf {
                                        pred: timeout_pred(
                                            dur_range_spec(d1, (30 * SECOND) as u64, (90
                                                * SECOND) as u64),
                                        ),
                                        inner: Box::new(
                                            repeat_of(
                                                Action::Eval {
                                                    sel: Selector::Socialize,
                                                    built: None,
                                                },
                                            ),
                                        ),
                                    },
                                ),
                                in_second: false,
                            },
                        ),
                    },
                    // a home without a hideout is abandoned
                    None => Action::Just(Effect::SetNewHome(None)),
                },
                None => Action::Just(Effect::SetNewHome(None)),
            },
            None => match nearest_hideout_spec(world.sites@, npc.pos) {
                Some((id, _)) => Action::Just(Effect::SetNewHome(Some(id))),
                None => Action::Just(Effect::Idle),
            },
        },
    }
}

fn pirate_build(npc: &NpcView, world: &WorldView, draw: u64) -> (r: Action)
    ensures
        r == pirate_spec(*npc, *world, draw),
{
    let d1 = crate::rng::advance(draw);
    match npc.hiring {
        Some((leader, _)) => Action::Eval { sel: Selector::Hired(leader), built: None },
        None => match npc.home {
            Some(h) => match find_site(world, h) {
                Some(site) => match plot_pick(site, PlotKind::PirateHideout, draw) {
                    Some(p) => Action::Tag {
                        label: BehaviorTag::Pirate,
                        inner: Box::new(
                            Action::Then {
                                first: Box::new(Action::Just(Effect::Goto(p, 5000))),
                                second: Box::new(
                                    Action::StopIf {
                                        pred: Predicate::Timeout {
                                            dur: dur_range(d1, 30 * SECOND, 90 * SECOND),
                                            start: None,
                                        },
                                        inner: Box::new(
                                            exec_repeat_of(
                                                Action::Eval {
                                                    sel: Selector::Socialize,
                                                    built: None,
                                                },
                                            ),
                                        ),
                                    },
                                ),
                                in_second: false,
                            },
                        ),
                    },
                    None => Action::Just(Effect::SetNewHome(None)),
                },
                None => Action::Just(Effect::SetNewHome(None)),
            },
            None => match nearest_hideout(world, &npc.pos) {
                Some((id, _)) => Action::Just(Effect::SetNewHome(Some(id))),
                None => Action::Just(Effect::Idle),
            },
        },
    }
}

/// Travel to another town's workshop, spend a while there as a villager,
/// then move on.
pub open spec fn adventure_spec(npc: NpcView, world: WorldView, draw: u64) -> Action {
    let cands = workshop_sites_spec(world.sites@, npc.current_site);
    if cands.len() == 0 {
        Action::Finish
    } else {
        let pick = cands[below_spec(draw, cands.len() as u64) as int];
        let wait = if npc.profession_spec() == Some(Profession::Merchant) {
            (900 * SECOND) as u64
        } else {
            (180 * SECOND) as u64
        };
        Action::Tag {
            label: BehaviorTag::Adventure,
            inner: Box::new(
                Action::Then {
                    first: Box::new(
                        Action::Just(Effect::Say(None, Content::Key(SpeechKey::MovingOn))),
                    ),
                    second: Box::new(
                        Action::Then {
                            first: Box::new(Action::Just(Effect::Goto(pick.1, 6000))),
                            second: Box::new(
                                Action::Tag {
                                    label: BehaviorTag::TravelToSite,
                                    inner: Box::new(
                                        Action::StopIf {
                                            pred: timeout_pred(wait),
                                            inner: Box::new(
                                                repeat_of(
                                                    Action::Eval {
                                                        sel: Selector::Villager(pick.0),
                                                        built: None,
                                                    },
                                                ),
                                            ),
                                        },
                                    ),
                                },
                            ),
                            in_second: false,
                        },
                    ),
                    in_second: false,
                },
            ),
        }
    }
}

fn adventure_build(npc: &NpcView, world: &WorldView, draw: u64) -> (r: Action)
    ensures
        r == adventure_spec(*npc, *world, draw),
{
    let cands = workshop_sites(world, npc.current_site);
    if cands.len() == 0 {
        Action::Finish
    } else {
        let mut rng = crate::rng::SimRng::new(draw);
        let idx = rng.gen_below(cands.len() as u64) as usize;
        let pick: (u64, WPos) = cands[idx];
        let merchant = match npc.profession() {
            Some(Profession::Merchant) => true,
            _ => false,
        };
        let wait: u64 = if merchant {
            900 * SECOND
        } else {
            180 * SECOND
        };
        Action::Tag {
            label: BehaviorTag::Adventure,
            inner: Box::new(
                Action::Then {
                    first: Box::new(
                        Action::Just(Effect::Say(None, Content::Key(SpeechKey::MovingOn))),
                    ),
                    second: Box::new(
                        Action::Then {
                            first: Box::new(Action::Just(Effect::Goto(pick.1, 6000))),
                            second: Box::new(
                                Action::Tag {
                                    label: BehaviorTag::TravelToSite,
                                    inner: Box::new(
                                        Action::StopIf {
                                            pred: Predicate::Timeout { dur: wait, start: None },
                                            inner: Box::new(
                                                exec_repeat_of(
                                                    Action::Eval {
                                                        sel: Selector::Villager(pick.0),
                                                        built: None,
                                                    },
                                                ),
                                            ),
                                        },
                                    ),
                                },
                            ),
                            in_second: false,
                        },
                    ),
                    in_second: false,
                },
            ),
        }
    }
}

/// Wide-ranging flight: make for the home site when away from it, otherwise
/// roam in a random direction, re-aiming when the leg times out.
pub open spec fn bird_large_spec(npc: NpcView, world: WorldView, draw: u64) -> Action {
    let toward_home = match npc.home {
        Some(h) => if npc.current_site != Some(h) {
            site_lookup_spec(world.sites@, h)
        } else {
            None
        },
        None => None,
    };
    let target = match toward_home {
        Some(site) => site.pos,
        None => wander_target_spec(npc.pos, draw),
    };
    Action::Tag {
        label: BehaviorTag::Wander,
        inner: Box::new(
            Action::StopIf {
                pred: timeout_pred((10 * SECOND) as u64),
                inner: Box::new(
                    repeat_of(
                        Action::Just(
                            Effect::GotoFlying(
                                target,
                                2000,
                                Some(40),
                                None,
                                FlightMode::FlyThrough,
                            ),
                        ),
                    ),
                ),
            },
        ),
    }
}

fn bird_large_build(npc: &NpcView, world: &WorldView, draw: u64) -> (r: Action)
    ensures
        r == bird_large_spec(*npc, *world, draw),
{
    let mut toward_home: Option<WPos> = None;
    match npc.home {
        Some(h) => {
            let away = match npc.current_site {
                Some(c) => c != h,
                None => true,
            };
            if away {
                match find_site(world, h) {
                    Some(site) => {
                        toward_home = Some(site.pos);
                    },
                    None => {},
                }
            }
        },
        None => {},
    }
    let target: WPos = match toward_home {
        Some(p) => p,
        None => {
            let mut rng = crate::rng::SimRng::new(draw);
            let dx = rng.gen_below(49) as i64 - 24;
            let dy = rng.gen_below(49) as i64 - 24;
            WPos { x: clamp_add(npc.pos.x, dx), y: clamp_add(npc.pos.y, dy), z: npc.pos.z }
        },
    };
    Action::Tag {
        label: BehaviorTag::Wander,
        inner: Box::new(
            Action::StopIf {
                pred: Predicate::Timeout { dur: 10 * SECOND, start: None },
                inner: Box::new(
                    exec_repeat_of(
                        Action::Just(
                            Effect::GotoFlying(
                                target,
                                2000,
                                Some(40),
                                None,
                                FlightMode::FlyThrough,
                            ),
                        ),
                    ),
                ),
            },
        ),
    }
}

/// Stay at the employer's service until the hiring lapses or sours; the
/// hiring watch ends it with a parting word.
pub open spec fn hired_spec(tgt: Actor) -> Action {
    Action::Tag {
        label: BehaviorTag::Hired,
        inner: Box::new(
            Action::InterruptWith {
                source: InterruptSource::HiredWatch,
                active: None,
                inner: Box::new(
                    Action::StopIf {
                        pred: Predicate::NotHiredBy(tgt),
                        inner: Box::new(repeat_of(Action::Just(Effect::Idle))),
                    },
                ),
            },
        ),
    }
}

fn hired_build(tgt: Actor) -> (r: Action)
    ensures
        r == hired_spec(tgt),
{
    Action::Tag {
        label: BehaviorTag::Hired,
        inner: Box::new(
            Action::InterruptWith {
                source: InterruptSource::HiredWatch,
                active: None,
                inner: Box::new(
                    Action::StopIf {
                        pred: Predicate::NotHiredBy(tgt),
                        inner: Box::new(exec_repeat_of(Action::Just(Effect::Idle))),
                    },
                ),
            },
        ),
    }
}

/// The villager routine, built to match its tree exactly.
#[verifier::rlimit(100)]
#[verifier::spinoff_prover]
pub fn villager_build(site_id: u64, npc: &NpcView, world: &WorldView, draw: u64) -> (r: Action)
    ensures
        r == villager_spec(site_id, *npc, *world, draw),
{
    let d1 = crate::rng::advance(draw);
    let d2 = crate::rng::advance(d1);
    match find_site(world, site_id) {
        None => Action::Just(Effect::Idle),
        Some(site) => {
            let guard = match npc.profession() {
                Some(Profession::Guard) => true,
                _ => false,
            };
            let dark = match world.day_period {
                crate::npc::DayPeriod::Night => true,
                _ => false,
            };
            if dark && !guard {
                match plot_pick(site, PlotKind::House, draw) {
                    Some(h) => shelter(
                        BehaviorTag::FindSleep,
                        SpeechKey::NightTime,
                        Predicate::DayIsLight,
                        SpeechKey::DayTime,
                        h,
                    ),
                    None => Action::Finish,
                }
            } else if world.is_raining && !guard {
                match plot_pick(site, PlotKind::House, draw) {
                    Some(h) => shelter(
                        BehaviorTag::FindShelter,
                        SpeechKey::SeekingShelterRain,
                        Predicate::NotRaining,
                        SpeechKey::RainStopped,
                        h,
                    ),
                    None => Action::Finish,
                }
            } else {
                match npc.profession() {
                    Some(Profession::Farmer) => {
                        match plot_pick(site, PlotKind::FarmField, draw) {
                            Some(f) => Action::Tag {
                                label: BehaviorTag::GatherIngredients,
                                inner: Box::new(
                                    Action::Then {
                                        first: Box::new(Action::Just(Effect::Goto(f, 5000))),
                                        second: Box::new(
                                            Action::StopIf {
                                                pred: Predicate::Timeout {
                                                    dur: dur_range(d1, 30 * SECOND, 120 * SECOND),
                                                    start: None,
                                                },
                                                inner: Box::new(
                                                    exec_repeat_of(
                                                        Action::Just(
                                                            Effect::Gather(
                                                                crate::npc::ResourceMask(
                                                                    FORAGE_MASK,
                                                                ),
                                                            ),
                                                        ),
                                                    ),
                                                ),
                                            },
                                        ),
                                        in_second: false,
                                    },
                                ),
                            },
                            None => plaza_loiter(site, d2, d1),
                        }
                    },
                    Some(Profession::Hunter) => Action::Tag {
                        label: BehaviorTag::Hunting,
                        inner: Box::new(
                            Action::Then {
                                first: Box::new(
                                    Action::Just(
                                        Effect::Say(None, Content::Key(SpeechKey::StartHunting)),
                                    ),
                                ),
                                second: Box::new(
                                    Action::StopIf {
                                        pred: Predicate::Timeout {
                                            dur: dur_range(d1, 30 * SECOND, 60 * SECOND),
                                            start: None,
                                        },
                                        inner: Box::new(
                                            exec_repeat_of(Action::Just(Effect::HuntAnimals)),
                                        ),
                                    },
                                ),
                                in_second: false,
                            },
                        ),
                    },
                    Some(Profession::Guard) => {
                        match plot_pick(site, PlotKind::Plaza, draw) {
                            Some(p) => Action::Tag {
                                label: BehaviorTag::Patrol,
                                inner: Box::new(
                                    Action::InterruptWith {
                                        source: InterruptSource::Signalled {
                                            signal: Predicate::EveryRangeChance {
                                                min: SECOND,
                                                max: 5 * SECOND,
                                                next: None,
                                                num: 1,
                                                denom: 100,
                                            },
                                            blueprint: Box::new(
                                                Action::Just(
                                                    Effect::Say(
                                                        None,
                                                        Content::Key(SpeechKey::GuardThought),
                                                    ),
                                                ),
                                            ),
                                        },
                                        active: None,
                                        inner: Box::new(
                                            Action::Then {
                                                first: Box::new(
                                                    Action::Just(Effect::Goto(p, 4000)),
                                                ),
                                                second: Box::new(
                                                    Action::StopIf {
                                                        pred: Predicate::Timeout {
                                                            dur: dur_range(
                                                                d1,
                                                                30 * SECOND,
                                                                90 * SECOND,
                                                            ),
                                                            start: None,
                                                        },
                                                        inner: Box::new(
                                                            exec_repeat_of(
                                                                Action::Just(Effect::Idle),
                                                            ),
                                                        ),
                                                    },
                                                ),
                                                in_second: false,
                                            },
                                        ),
                                    },
                                ),
                            },
                            None => Action::Finish,
                        }
                    },
                    Some(Profession::Merchant) => {
                        let mut rng2 = crate::rng::SimRng::new(d2);
                        let roll = rng2.gen_below(10);
                        let directed = world.nearby.len() > 0 && roll < 3;
                        let target: Option<Actor> = if directed {
                            let mut rng3 = crate::rng::SimRng::new(d2);
                            let _burn = rng3.next_u64();
                            let idx = rng3.gen_below(world.nearby.len() as u64) as usize;
                            Some(world.nearby[idx].actor)
                        } else {
                            None
                        };
                        let key = if directed {
                            SpeechKey::MerchantSellDirected
                        } else {
                            SpeechKey::MerchantSellUndirected
                        };
                        Action::Tag {
                            label: BehaviorTag::SellWares,
                            inner: Box::new(
                                Action::StopIf {
                                    pred: Predicate::Timeout { dur: 60 * SECOND, start: None },
                                    inner: Box::new(
                                        exec_repeat_of(
                                            Action::Then {
                                                first: Box::new(
                                                    Action::Just(
                                                        Effect::Say(target, Content::Key(key)),
                                                    ),
                                                ),
                                                second: Box::new(exec_idle_for(8 * SECOND)),
                                                in_second: false,
                                            },
                                        ),
                                    ),
                                },
                            ),
                        }
                    },
                    _ => plaza_loiter(site, d2, d1),
                }
            }
        },
    }
}

// ---- dialogue content: directions and hiring ----

/// The octant a place lies in, judged without roots: the dominant axis wins,
/// near-diagonals name both.
pub open spec fn compass_dir_spec(from: WPos, to: WPos) -> CompassDir {
    let dx = to.x - from.x;
    let dy = to.y - from.y;
    let ax = if dx >= 0 { dx } else { -dx };
    let ay = if dy >= 0 { dy } else { -dy };
    if ax >= 2 * ay {
        if dx >= 0 { CompassDir::East } else { CompassDir::West }
    } else if ay >= 2 * ax {
        if dy >= 0 { CompassDir::North } else { CompassDir::South }
    } else if dx >= 0 && dy >= 0 {
        CompassDir::NorthEast
    } else if dx >= 0 {
        CompassDir::SouthEast
    } else if dy >= 0 {
        CompassDir::NorthWest
    } else {
        CompassDir::SouthWest
    }
}

pub fn compass_dir(from: &WPos, to: &WPos) -> (r: CompassDir)
    ensures
        r == compass_dir_spec(*from, *to),
{
    let dx: i128 = to.x as i128 - from.x as i128;
    let dy: i128 = to.y as i128 - from.y as i128;
    let ax: i128 = if dx >= 0 { dx } else { -dx };
    let ay: i128 = if dy >= 0 { dy } else { -dy };
    if ax >= 2 * ay {
        if dx >= 0 { CompassDir::East } else { CompassDir::West }
    } else if ay >= 2 * ax {
        if dy >= 0 { CompassDir::North } else { CompassDir::South }
    } else if dx >= 0 && dy >= 0 {
        CompassDir::NorthEast
    } else if dx >= 0 {
        CompassDir::SouthEast
    } else if dy >= 0 {
        CompassDir::NorthWest
    } else {
        CompassDir::SouthWest
    }
}

/// A rootless stand-in for distance: the dominant-axis length.
pub open spec fn dist_approx_spec(from: WPos, to: WPos) -> u64 {
    let dx = to.x - from.x;
    let dy = to.y - from.y;
    let ax = if dx >= 0 { dx } else { -dx };
    let ay = if dy >= 0 { dy } else { -dy };
    let m = if ax >= ay { ax } else { ay };
    if m > u64::MAX { u64::MAX } else { m as u64 }
}

pub fn dist_approx(from: &WPos, to: &WPos) -> (r: u64)
    ensures
        r == dist_approx_spec(*from, *to),
{
    let dx: i128 = to.x as i128 - from.x as i128;
    let dy: i128 = to.y as i128 - from.y as i128;
    let ax: i128 = if dx >= 0 { dx } else { -dx };
    let ay: i128 = if dy >= 0 { dy } else { -dy };
    let m: i128 = if ax >= ay { ax } else { ay };
    if m > u64::MAX as i128 { u64::MAX } else { m as u64 }
}

/// The plot of a kind nearest to a position, earliest on ties.
pub open spec fn nearest_plot_spec(plots: Seq<PlotView>, kind: PlotKind, from: WPos) -> Option<WPos>
    decreases plots.len(),
{
    if plots.len() == 0 {
        None
    } else {
        let rest = nearest_plot_spec(plots.drop_last(), kind, from);
        let p = plots.last();
        if p.kind == kind {
            match rest {
                Some(b) => {
                    if crate::action::near_sq_spec(from, p.pos) < crate::action::near_sq_spec(
                        from,
                        b,
                    ) {
                        Some(p.pos)
                    } else {
                        rest
                    }
                },
                None => Some(p.pos),
            }
        } else {
            rest
        }
    }
}

proof fn lemma_nearest_plot_push(plots: Seq<PlotView>, p: PlotView, kind: PlotKind, from: WPos)
    ensures
        nearest_plot_spec(plots.push(p), kind, from) == (if p.kind == kind {
            match nearest_plot_spec(plots, kind, from) {
                Some(b) => {
                    if crate::action::near_sq_spec(from, p.pos) < crate::action::near_sq_spec(
                        from,
                        b,
                    ) {
                        Some(p.pos)
                    } else {
                        nearest_plot_spec(plots, kind, from)
                    }
                },
                None => Some(p.pos),
            }
        } else {
            nearest_plot_spec(plots, kind, from)
        }),
{
    let q = plots.push(p);
    assert(q.last() == p);
    assert(q.drop_last() =~= plots);
}

fn nearest_plot(site: &SiteView, kind: PlotKind, from: &WPos) -> (r: Option<WPos>)
    ensures
        r == nearest_plot_spec(site.plots@, kind, *from),
{
    let mut best: Option<WPos> = None;
    let mut i: usize = 0;
    proof {
        assert(site.plots@.subrange(0, 0) =~= Seq::<PlotView>::empty());
    }
    while i < site.plots.len()
        invariant
            i <= site.plots@.len(),
            best == nearest_plot_spec(site.plots@.subrange(0, i as int), kind, *from),
        decreases site.plots@.len() - i,
    {
        proof {
            lemma_nearest_plot_push(
                site.plots@.subrange(0, i as int),
                site.plots@[i as int],
                kind,
                *from,
            );
            assert(site.plots@.subrange(0, i as int).push(site.plots@[i as int])
                =~= site.plots@.subrange(0, i + 1));
        }
        if site.plots[i].kind == kind {
            let better: bool = match &best {
                Some(b) => {
                    let dn = crate::action::near_sq(from, &site.plots[i].pos);
                    let db = crate::action::near_sq(from, b);
                    dn < db
                },
                None => true,
            };
            if better {
                best = Some(site.plots[i].pos);
            }
        }
        i += 1;
    }
    proof {
        assert(site.plots@.subrange(0, site.plots@.len() as int) =~= site.plots@);
    }
    best
}

/// One branch of the directions question: a marker and a word, or a shrug.
pub open spec fn direction_answer_spec(
    session: DialogueSession,
    target: Option<WPos>,
    name_key: SpeechKey,
) -> Action {
    match target {
        Some(p) => Action::Then {
            first: Box::new(
                Action::Just(Effect::DialogueMarker(session, p, Content::Key(name_key))),
            ),
            second: Box::new(
                Action::Just(
                    Effect::DialogueStatement(
                        session,
                        Content::Key(SpeechKey::ResponseDirections),
                    ),
                ),
            ),
            in_second: false,
        },
        None => Action::Just(
            Effect::DialogueStatement(session, Content::Key(SpeechKey::ResponseDoesntExist)),
        ),
    }
}

fn direction_answer(session: DialogueSession, target: Option<WPos>, name_key: SpeechKey) -> (r:
    Action)
    ensures
        r == direction_answer_spec(session, target, name_key),
{
    match target {
        Some(p) => Action::Then {
            first: Box::new(
                Action::Just(Effect::DialogueMarker(session, p, Content::Key(name_key))),
            ),
            second: Box::new(
                Action::Just(
                    Effect::DialogueStatement(
                        session,
                        Content::Key(SpeechKey::ResponseDirections),
                    ),
                ),
            ),
            in_second: false,
        },
        None => Action::Just(
            Effect::DialogueStatement(session, Content::Key(SpeechKey::ResponseDoesntExist)),
        ),
    }
}

/// Ask where to find the town's landmarks, then point at the nearest one of
/// whichever kind the other party picks, as a map marker plus a word.
pub open spec fn directions_spec(session: DialogueSession, site: SiteView, from: WPos, tag: u32) -> Action {
    let responses = ResponseList::Cons(
        1,
        Response { msg: Content::Key(SpeechKey::DirectionTavern), given_item: None },
        Box::new(
            ResponseList::Cons(
                2,
                Response { msg: Content::Key(SpeechKey::DirectionPlaza), given_item: None },
                Box::new(
                    ResponseList::Cons(
                        3,
                        Response {
                            msg: Content::Key(SpeechKey::DirectionWorkshop),
                            given_item: None,
                        },
                        Box::new(
                            ResponseList::Cons(
                                4,
                                Response {
                                    msg: Content::Key(SpeechKey::DirectionAirshipDock),
                                    given_item: None,
                                },
                                Box::new(ResponseList::Nil),
                            ),
                        ),
                    ),
                ),
            ),
        ),
    );
    let branches = BranchList::Cons(
        1,
        Box::new(
            direction_answer_spec(
                session,
                nearest_plot_spec(site.plots@, PlotKind::Tavern, from),
                SpeechKey::DirectionTavern,
            ),
        ),
        Box::new(
            BranchList::Cons(
                2,
                Box::new(
                    direction_answer_spec(
                        session,
                        nearest_plot_spec(site.plots@, PlotKind::Plaza, from),
                        SpeechKey::MapPlaza,
                    ),
                ),
                Box::new(
                    BranchList::Cons(
                        3,
                        Box::new(
                            direction_answer_spec(
                                session,
                                nearest_plot_spec(site.plots@, PlotKind::Workshop, from),
                                SpeechKey::MapWorkshop,
                            ),
                        ),
                        Box::new(
                            BranchList::Cons(
                                4,
                                Box::new(
                                    direction_answer_spec(
                                        session,
                                        nearest_plot_spec(
                                            site.plots@,
                                            PlotKind::AirshipDock,
                                            from,
                                        ),
                                        SpeechKey::MapAirshipDock,
                                    ),
                                ),
                                Box::new(BranchList::Nil),
                            ),
                        ),
                    ),
                ),
            ),
        ),
    );
    Action::Then {
        first: Box::new(
            Action::Just(
                Effect::DialogueQuestion(
                    session,
                    tag,
                    Content::Key(SpeechKey::QuestionDirections),
                    responses,
                ),
            ),
        ),
        second: Box::new(
            Action::AwaitResponse { session, tag, branches, chosen: None },
        ),
        in_second: false,
    }
}

/// Build the directions conversation for a site.
pub fn directions_build(session: DialogueSession, site: &SiteView, from: &WPos, tag: u32) -> (r:
    Action)
    ensures
        r == directions_spec(session, *site, *from, tag),
{
    let responses = ResponseList::Cons(
        1,
        Response { msg: Content::Key(SpeechKey::DirectionTavern), given_item: None },
        Box::new(
            ResponseList::Cons(
                2,
                Response { msg: Content::Key(SpeechKey::DirectionPlaza), given_item: None },
                Box::new(
                    ResponseList::Cons(
                        3,
                        Response {
                            msg: Content::Key(SpeechKey::DirectionWorkshop),
                            given_item: None,
                        },
                        Box::new(
                            ResponseList::Cons(
                                4,
                                Response {
                                    msg: Content::Key(SpeechKey::DirectionAirshipDock),
                                    given_item: None,
                                },
                                Box::new(ResponseList::Nil),
                            ),
                        ),
                    ),
                ),
            ),
        ),
    );
    let b1 = direction_answer(
        session,
        nearest_plot(site, PlotKind::Tavern, from),
        SpeechKey::DirectionTavern,
    );
    let b2 = direction_answer(
        session,
        nearest_plot(site, PlotKind::Plaza, from),
        SpeechKey::MapPlaza,
    );
    let b3 = direction_answer(
        session,
        nearest_plot(site, PlotKind::Workshop, from),
        SpeechKey::MapWorkshop,
    );
    let b4 = direction_answer(
        session,
        nearest_plot(site, PlotKind::AirshipDock, from),
        SpeechKey::MapAirshipDock,
    );
    let branches = BranchList::Cons(
        1,
        Box::new(b1),
        Box::new(
            BranchList::Cons(
                2,
                Box::new(b2),
                Box::new(
                    BranchList::Cons(
                        3,
                        Box::new(b3),
                        Box::new(BranchList::Cons(4, Box::new(b4), Box::new(BranchList::Nil))),
                    ),
                ),
            ),
        ),
    );
    Action::Then {
        first: Box::new(
            Action::Just(
                Effect::DialogueQuestion(
                    session,
                    tag,
                    Content::Key(SpeechKey::QuestionDirections),
                    responses,
                ),
            ),
        ),
        second: Box::new(
            Action::AwaitResponse { session, tag, branches, chosen: None },
        ),
        in_second: false,
    }
}

/// The item tag of coin, the price unit of hiring.
pub const COINS_ITEM: u64 = 1;

/// A day and a week of service, in time units.
pub const HIRE_DAY: u64 = 86_400 * SECOND;

/// An adventurer prices a day of service by doubling per experience level.
pub open spec fn hire_price_mul_spec(p: Option<Profession>) -> u32 {
    let level: u32 = match p {
        Some(Profession::Adventurer(l)) => if l > 31 {
            31u32
        } else {
            l
        },
        _ => 0u32,
    };
    (1u32 << level) as u32
}

/// Offer one's services, half the time: a priced choice of a day or a week
/// of hire against coin, a refusal otherwise.
pub open spec fn hire_offer_spec(
    tgt: Actor,
    session: DialogueSession,
    npc: NpcView,
    time: u64,
    tag: u32,
    draw: u64,
) -> Action {
    if npc.hiring is None && below_spec(draw, 2) == 0 {
        let price_mul = hire_price_mul_spec(npc.profession_spec());
        let day_price = vstd::wrapping::u32_specs::wrapping_mul(price_mul, 60);
        let week_price = vstd::wrapping::u32_specs::wrapping_mul(price_mul, 300);
        let responses = ResponseList::Cons(
            0,
            Response { msg: Content::Key(SpeechKey::CancelInteraction), given_item: None },
            Box::new(
                ResponseList::Cons(
                    1,
                    Response {
                        msg: Content::Key(SpeechKey::BuyHireDay),
                        given_item: Some((COINS_ITEM, day_price)),
                    },
                    Box::new(
                        ResponseList::Cons(
                            2,
                            Response {
                                msg: Content::Key(SpeechKey::BuyHireWeek),
                                given_item: Some((COINS_ITEM, week_price)),
                            },
                            Box::new(ResponseList::Nil),
                        ),
                    ),
                ),
            ),
        );
        let accept_for = |dur: u64| Action::Then {
            first: Box::new(
                Action::Just(
                    Effect::DialogueStatement(
                        session,
                        Content::Key(SpeechKey::ResponseAcceptHire),
                    ),
                ),
            ),
            second: Box::new(
                Action::Just(Effect::SetNewlyHired(tgt, crate::action::sat_add_spec(time, dur))),
            ),
            in_second: false,
        };
        let branches = BranchList::Cons(
            0,
            Box::new(
                Action::Just(
                    Effect::DialogueStatement(
                        session,
                        Content::Key(SpeechKey::ResponseNoProblem),
                    ),
                ),
            ),
            Box::new(
                BranchList::Cons(
                    1,
                    Box::new(accept_for(HIRE_DAY)),
                    Box::new(
                        BranchList::Cons(
                            2,
                            Box::new(accept_for((7 * HIRE_DAY) as u64)),
                            Box::new(BranchList::Nil),
                        ),
                    ),
                ),
            ),
        );
        Action::Then {
            first: Box::new(
                Action::Just(
                    Effect::DialogueQuestion(
                        session,
                        tag,
                        Content::Key(SpeechKey::ResponseHireTime),
                        responses,
                    ),
                ),
            ),
            second: Box::new(
                Action::AwaitResponse { session, tag, branches, chosen: None },
            ),
            in_second: false,
        }
    } else {
        Action::Just(
            Effect::DialogueStatement(session, Content::Key(SpeechKey::ResponseDeclineHire)),
        )
    }
}

/// Build the hiring conversation.
pub fn hire_offer_build(
    tgt: Actor,
    session: DialogueSession,
    npc: &NpcView,
    time: u64,
    tag: u32,
    draw: u64,
) -> (r: Action)
    ensures
        r == hire_offer_spec(tgt, session, *npc, time, tag, draw),
{
    let mut rng = crate::rng::SimRng::new(draw);
    let coin = rng.gen_below(2);
    let free = match npc.hiring {
        Some(_) => false,
        None => true,
    };
    if free && coin == 0 {
        let level: u32 = match npc.profession() {
            Some(Profession::Adventurer(l)) => if l > 31 {
                31
            } else {
                l
            },
            _ => 0,
        };
        let price_mul: u32 = 1u32 << level;
        let day_price = price_mul.wrapping_mul(60);
        let week_price = price_mul.wrapping_mul(300);
        let responses = ResponseList::Cons(
            0,
            Response { msg: Content::Key(SpeechKey::CancelInteraction), given_item: None },
            Box::new(
                ResponseList::Cons(
                    1,
                    Response {
                        msg: Content::Key(SpeechKey::BuyHireDay),
                        given_item: Some((COINS_ITEM, day_price)),
                    },
                    Box::new(
                        ResponseList::Cons(
                            2,
                            Response {
                                msg: Content::Key(SpeechKey::BuyHireWeek),
                                given_item: Some((COINS_ITEM, week_price)),
                            },
                            Box::new(ResponseList::Nil),
                        ),
                    ),
                ),
            ),
        );
        let accept_day = Action::Then {
            first: Box::new(
                Action::Just(
                    Effect::DialogueStatement(
                        session,
                        Content::Key(SpeechKey::ResponseAcceptHire),
                    ),
                ),
            ),
            second: Box::new(
                Action::Just(
                    Effect::SetNewlyHired(tgt, crate::action::sat_add(time, HIRE_DAY)),
                ),
            ),
            in_second: false,
        };
        let accept_week = Action::Then {
            first: Box::new(
                Action::Just(
                    Effect::DialogueStatement(
                        session,
                        Content::Key(SpeechKey::ResponseAcceptHire),
                    ),
                ),
            ),
            second: Box::new(
                Action::Just(
                    Effect::SetNewlyHired(tgt, crate::action::sat_add(time, 7 * HIRE_DAY)),
                ),
            ),
            in_second: false,
        };
        let branches = BranchList::Cons(
            0,
            Box::new(
                Action::Just(
                    Effect::DialogueStatement(
                        session,
                        Content::Key(SpeechKey::ResponseNoProblem),
                    ),
                ),
            ),
            Box::new(
                BranchList::Cons(
                    1,
                    Box::new(accept_day),
                    Box::new(
                        BranchList::Cons(2, Box::new(accept_week), Box::new(BranchList::Nil)),
                    ),
                ),
            ),
        );
        Action::Then {
            first: Box::new(
                Action::Just(
                    Effect::DialogueQuestion(
                        session,
                        tag,
                        Content::Key(SpeechKey::ResponseHireTime),
                        responses,
                    ),
                ),
            ),
            second: Box::new(
                Action::AwaitResponse { session, tag, branches, chosen: None },
            ),
            in_second: false,
        }
    } else {
        Action::Just(
            Effect::DialogueStatement(session, Content::Key(SpeechKey::ResponseDeclineHire)),
        )
    }
}

} // verus!
