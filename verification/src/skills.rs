//! The skill vocabulary: every unlockable skill, and lookups into the
//! data-driven tables (maximum levels, prerequisites, group membership) that
//! the surrounding application loads from its asset files.

use vstd::prelude::*;

verus! {

#[derive(Clone, Copy, Debug, Hash, PartialEq, Eq, Structural, PartialOrd, Ord)]
pub enum SwordSkill {
    CrescentSlash,
    FellStrike,
    Skewer,
    Cascade,
    CrossCut,
    Finisher,
    HeavySweep,
    HeavyPommelStrike,
    HeavyFortitude,
    HeavyPillarThrust,
    AgileQuickDraw,
    AgileFeint,
    AgileDancingEdge,
    AgileFlurry,
    DefensiveRiposte,
    DefensiveDisengage,
    DefensiveDeflect,
    DefensiveStalwartSword,
    CripplingGouge,
    CripplingHamstring,
    CripplingBloodyGash,
    CripplingEviscerate,
    CleavingWhirlwindSlice,
    CleavingEarthSplitter,
    CleavingSkySplitter,
    CleavingBladeFever,
}

#[derive(Clone, Copy, Debug, Hash, PartialEq, Eq, Structural, PartialOrd, Ord)]
pub enum AxeSkill {
    BrutalSwing,
    Berserk,
    RisingTide,
    SavageSense,
    AdrenalineRush,
    Execute,
    Maelstrom,
    Rake,
    Bloodfeast,
    FierceRaze,
    Furor,
    Fracture,
    Lacerate,
    Riptide,
    SkullBash,
    Sunder,
    Plunder,
    Defiance,
    Keelhaul,
    Bulkhead,
    Capsize,
}

#[derive(Clone, Copy, Debug, Hash, PartialEq, Eq, Structural, PartialOrd, Ord)]
pub enum HammerSkill {
    ScornfulSwipe,
    Tremor,
    VigorousBash,
    Retaliate,
    SpineCracker,
    Breach,
    IronTempest,
    Upheaval,
    Thunderclap,
    SeismicShock,
    HeavyWhorl,
    Intercept,
    PileDriver,
    LungPummel,
    HelmCrusher,
    Rampart,
    Tenacity,
    Earthshaker,
    Judgement,
}

#[derive(Clone, Copy, Debug, Hash, PartialEq, Eq, Structural, PartialOrd, Ord)]
pub enum BowSkill {
    ProjSpeed,
    CDamage,
    CRegen,
    CKnockback,
    CSpeed,
    CMove,
    RDamage,
    RCost,
    RSpeed,
    UnlockShotgun,
    SDamage,
    SCost,
    SArrows,
    SSpread,
}

#[derive(Clone, Copy, Debug, Hash, PartialEq, Eq, Structural, PartialOrd, Ord)]
pub enum StaffSkill {
    BDamage,
    BRegen,
    BRadius,
    FDamage,
    FRange,
    FDrain,
    FVelocity,
    UnlockShockwave,
    SDamage,
    SKnockback,
    SRange,
    SCost,
}

#[derive(Clone, Copy, Debug, Hash, PartialEq, Eq, Structural, PartialOrd, Ord)]
pub enum SceptreSkill {
    LDamage,
    LRange,
    LLifesteal,
    LRegen,
    HHeal,
    HRange,
    HDuration,
    HCost,
    UnlockAura,
    AStrength,
    ADuration,
    ARange,
    ACost,
}

#[derive(Clone, Copy, Debug, Hash, PartialEq, Eq, Structural, PartialOrd, Ord)]
pub enum ClimbSkill {
    Cost,
    Speed,
}

#[derive(Clone, Copy, Debug, Hash, PartialEq, Eq, Structural, PartialOrd, Ord)]
pub enum SwimSkill {
    Speed,
}

#[derive(Clone, Copy, Debug, Hash, PartialEq, Eq, Structural, PartialOrd, Ord)]
pub enum MiningSkill {
    Speed,
    OreGain,
    GemGain,
}

/// The tool a weapon skill group belongs to.
#[derive(Clone, Copy, Debug, Hash, PartialEq, Eq, Structural, PartialOrd, Ord)]
pub enum ToolKind {
    Sword,
    Axe,
    Hammer,
    Bow,
    Staff,
    Sceptre,
    Pick,
}

/// A group of skills unlocked and levelled together.
#[derive(Clone, Copy, Debug, Hash, PartialEq, Eq, Structural, PartialOrd, Ord)]
pub enum SkillGroupKind {
    General,
    Weapon(ToolKind),
}

/// A skill a player can unlock, granting an active ability or a passive
/// effect. What a skill does is the concern of downstream systems.
#[derive(Clone, Copy, Debug, Hash, PartialEq, Eq, Structural, PartialOrd, Ord)]
pub enum Skill {
    Sword(SwordSkill),
    Axe(AxeSkill),
    Hammer(HammerSkill),
    Bow(BowSkill),
    Staff(StaffSkill),
    Sceptre(SceptreSkill),
    Climb(ClimbSkill),
    Swim(SwimSkill),
    Pick(MiningSkill),
    UnlockGroup(SkillGroupKind),
}

/// What must already be unlocked before a skill can be bought.
#[derive(Clone, Debug, PartialEq)]
pub enum SkillPrerequisite {
    /// Every listed skill at at least the listed level.
    All(Vec<(Skill, u16)>),
    /// Any one of the listed skills at at least the listed level.
    Any(Vec<(Skill, u16)>),
}

pub open spec fn level_lookup(entries: Seq<(Skill, u16)>, key: Skill) -> Option<u16>
    decreases entries.len(),
{
    if entries.len() == 0 {
        None
    } else if entries[0].0 == key {
        Some(entries[0].1)
    } else {
        level_lookup(entries.skip(1), key)
    }
}

pub open spec fn group_lookup(entries: Seq<(Skill, SkillGroupKind)>, key: Skill) -> Option<
    SkillGroupKind,
>
    decreases entries.len(),
{
    if entries.len() == 0 {
        None
    } else if entries[0].0 == key {
        Some(entries[0].1)
    } else {
        group_lookup(entries.skip(1), key)
    }
}

pub open spec fn prereq_index(entries: Seq<(Skill, SkillPrerequisite)>, key: Skill) -> Option<int>
    decreases entries.len(),
{
    if entries.len() == 0 {
        None
    } else if entries[0].0 == key {
        Some(0)
    } else {
        match prereq_index(entries.skip(1), key) {
            Some(i) => Some(i + 1),
            None => None,
        }
    }
}

/// A loaded level table is meaningful only if every listed maximum is at
/// least one: a levelled skill always has its first level.
pub open spec fn levels_wf(entries: Seq<(Skill, u16)>) -> bool {
    forall|i: int| 0 <= i < entries.len() ==> (#[trigger] entries[i]).1 >= 1
}

/// The data-driven skill tables, loaded from assets by the application.
#[derive(Debug)]
pub struct SkillTables {
    /// Maximum level of each levelled skill; an absent skill has one level.
    pub max_levels: Vec<(Skill, u16)>,
    /// Prerequisites of locked skills.
    pub prerequisites: Vec<(Skill, SkillPrerequisite)>,
    /// The group each skill belongs to.
    pub groups: Vec<(Skill, SkillGroupKind)>,
}

impl Skill {
    /// What must be unlocked before this skill, per the loaded tables.
    pub fn prerequisite_skills<'a>(&self, tables: &'a SkillTables) -> (r: Option<
        &'a SkillPrerequisite,
    >)
        ensures
            match r {
                Some(p) => {
                    &&& prereq_index(tables.prerequisites@, *self) is Some
                    &&& *p == tables.prerequisites@[prereq_index(
                        tables.prerequisites@,
                        *self,
                    )->0].1
                },
                None => prereq_index(tables.prerequisites@, *self) is None,
            },
    {
        proof {
            assert(tables.prerequisites@.skip(0) =~= tables.prerequisites@);
        }
        let mut i: usize = 0;
        while i < tables.prerequisites.len()
            invariant
                i <= tables.prerequisites@.len(),
                prereq_index(tables.prerequisites@, *self) == (match prereq_index(
                    tables.prerequisites@.skip(i as int),
                    *self,
                ) {
                    Some(k) => Some(k + i),
                    None => None::<int>,
                }),
            decreases tables.prerequisites@.len() - i,
        {
            proof {
                assert(tables.prerequisites@.skip(i as int)[0] == tables.prerequisites@[i as int]);
                assert(tables.prerequisites@.skip(i as int).skip(1) =~= tables.prerequisites@.skip(
                    i + 1,
                ));
            }
            if tables.prerequisites[i].0 == *self {
                return Some(&tables.prerequisites[i].1);
            }
            i += 1;
        }
        proof {
            assert(tables.prerequisites@.skip(i as int).len() == 0);
        }
        None
    }

    /// The cost in skill points of unlocking a particular level of a skill.
    pub fn skill_cost(&self, level: u16) -> (r: u16)
        ensures
            r == level,
    {
        level
    }

    /// The maximum level a skill can reach; a skill outside the tables does
    /// not level and has exactly one.
    pub fn max_level(&self, tables: &SkillTables) -> (r: u16)
        requires
            levels_wf(tables.max_levels@),
        ensures
            r == (match level_lookup(tables.max_levels@, *self) {
                Some(l) => l,
                None => 1u16,
            }),
            r >= 1,
    {
        proof {
            assert(tables.max_levels@.skip(0) =~= tables.max_levels@);
        }
        let mut i: usize = 0;
        while i < tables.max_levels.len()
            invariant
                levels_wf(tables.max_levels@),
                i <= tables.max_levels@.len(),
                level_lookup(tables.max_levels@, *self) == level_lookup(
                    tables.max_levels@.skip(i as int),
                    *self,
                ),
            decreases tables.max_levels@.len() - i,
        {
            proof {
                assert(tables.max_levels@.skip(i as int)[0] == tables.max_levels@[i as int]);
                assert(tables.max_levels@.skip(i as int).skip(1) =~= tables.max_levels@.skip(i + 1));
            }
            if tables.max_levels[i].0 == *self {
                return tables.max_levels[i].1;
            }
            i += 1;
        }
        proof {
            assert(tables.max_levels@.skip(i as int).len() == 0);
        }
        1
    }

    /// The skill group a skill belongs to, per the loaded tables.
    pub fn skill_group_kind(&self, tables: &SkillTables) -> (r: Option<SkillGroupKind>)
        ensures
            r == group_lookup(tables.groups@, *self),
    {
        proof {
            assert(tables.groups@.skip(0) =~= tables.groups@);
        }
        let mut i: usize = 0;
        while i < tables.groups.len()
            invariant
                i <= tables.groups@.len(),
                group_lookup(tables.groups@, *self) == group_lookup(
                    tables.groups@.skip(i as int),
                    *self,
                ),
            decreases tables.groups@.len() - i,
        {
            proof {
                assert(tables.groups@.skip(i as int)[0] == tables.groups@[i as int]);
                assert(tables.groups@.skip(i as int).skip(1) =~= tables.groups@.skip(i + 1));
            }
            if tables.groups[i].0 == *self {
                return Some(tables.groups[i].1);
            }
            i += 1;
        }
        proof {
            assert(tables.groups@.skip(i as int).len() == 0);
        }
        None
    }
}

} // verus!
