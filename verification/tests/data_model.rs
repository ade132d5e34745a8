use rtsim_core::audio::AudioOutput;
use rtsim_core::npc::{
    Actor, Personality, PersonalityTrait, Sentiments, SENTIMENT_ENEMY, SENTIMENT_RIVAL,
    SENTIMENT_VILLAIN,
};
use rtsim_core::rng::SimRng;
use rtsim_core::skills::{Skill, SkillGroupKind, SkillTables, SwimSkill, SwordSkill, ToolKind};

#[test]
fn personality_thresholds() {
    let mid = Personality {
        openness: 127,
        conscientiousness: 127,
        extraversion: 127,
        agreeableness: 127,
        neuroticism: 127,
    };
    assert!(!mid.is(PersonalityTrait::Open));
    assert!(!mid.is(PersonalityTrait::Introverted));
    let extreme = Personality {
        openness: 200,
        conscientiousness: 50,
        extraversion: 10,
        agreeableness: 40,
        neuroticism: 60,
    };
    assert!(extreme.is(PersonalityTrait::Open));
    assert!(extreme.is(PersonalityTrait::Adventurous));
    assert!(extreme.is(PersonalityTrait::Introverted));
    assert!(extreme.is(PersonalityTrait::Unconscientious));
    assert!(extreme.is(PersonalityTrait::Busybody));
    assert!(extreme.will_ambush());
    assert!(!mid.will_ambush());
}

#[test]
fn random_personalities_stay_in_their_bands() {
    let mut rng = SimRng::new(99);
    for _ in 0..50 {
        let evil = Personality::random_evil(&mut rng);
        assert!(evil.agreeableness < 102);
        assert!(evil.conscientiousness < 102);
        let good = Personality::random_good(&mut rng);
        assert!(good.conscientiousness >= 102);
    }
}

#[test]
fn sentiments_move_and_clamp() {
    let mut s = Sentiments::new();
    let foe = Actor::Character(1);
    assert_eq!(s.toward(foe), 0);
    // Move toward the villain cap, never past it.
    s.change_by(foe, -750, SENTIMENT_VILLAIN);
    assert_eq!(s.toward(foe), -750);
    s.change_by(foe, -750, SENTIMENT_VILLAIN);
    assert_eq!(s.toward(foe), SENTIMENT_VILLAIN);
    assert!(s.is_toward(foe, SENTIMENT_ENEMY));
    assert!(s.is_toward(foe, SENTIMENT_RIVAL));
    // Raising the floor stops the hatred.
    s.limit_below(foe, SENTIMENT_ENEMY);
    assert_eq!(s.toward(foe), SENTIMENT_ENEMY);
    // Opinions about others are untouched.
    assert_eq!(s.toward(Actor::Npc(2)), 0);
}

#[test]
fn sentiments_cleanup_trims_weak_opinions() {
    let mut s = Sentiments::new();
    for i in 0..6u64 {
        s.change_by(Actor::Npc(i), 50, 1000); // weak opinions
    }
    s.change_by(Actor::Npc(100), 900, 1000); // a strong one
    s.cleanup(3);
    assert!(s.entries.len() <= 3);
    assert_eq!(s.toward(Actor::Npc(100)), 900);
}

#[test]
fn skill_lookups_follow_the_tables() {
    let tables = SkillTables {
        max_levels: vec![(Skill::Sword(SwordSkill::Finisher), 5)],
        prerequisites: Vec::new(),
        groups: vec![(Skill::Sword(SwordSkill::Finisher), SkillGroupKind::Weapon(ToolKind::Sword))],
    };
    let skill = Skill::Sword(SwordSkill::Finisher);
    assert_eq!(skill.max_level(&tables), 5);
    // A skill outside the tables does not level.
    assert_eq!(Skill::Swim(SwimSkill::Speed).max_level(&tables), 1);
    assert_eq!(skill.skill_cost(3), 3);
    assert_eq!(skill.skill_group_kind(&tables), Some(SkillGroupKind::Weapon(ToolKind::Sword)));
    assert_eq!(Skill::Swim(SwimSkill::Speed).skill_group_kind(&tables), None);
    assert!(skill.prerequisite_skills(&tables).is_none());
}

#[test]
fn audio_output_gates_the_backend() {
    assert!(!AudioOutput::Off.is_enabled());
    assert!(AudioOutput::Automatic.is_enabled());
}
