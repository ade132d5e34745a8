//! Plain data carried by the NPC simulation: identities, roles, personality,
//! sentiment bookkeeping, speech content and the intent vocabulary that
//! behaviours write into a controller.
//!
//! World positions are held as fixed-point integer coordinates and health as
//! a per-myriad fraction, so that every rule over them is exact.

use vstd::prelude::*;

verus! {

/// Any acting party: a simulated NPC or a player character.
#[derive(Clone, Copy, Debug, PartialEq, Eq, Structural, Hash)]
pub enum Actor {
    Npc(u64),
    Character(u64),
}

impl Actor {
    pub fn npc(&self) -> (r: Option<u64>)
        ensures
            r == (match *self {
                Actor::Npc(id) => Some(id),
                Actor::Character(_) => None::<u64>,
            }),
    {
        match self {
            Actor::Npc(id) => Some(*id),
            Actor::Character(_) => None,
        }
    }
}

#[derive(Clone, Copy, Debug, PartialEq, Eq, Structural)]
pub enum Profession {
    Farmer,
    Hunter,
    Merchant,
    Guard,
    Adventurer(u32),
    Blacksmith,
    Chef,
    Alchemist,
    /// True if leader.
    Pirate(bool),
    Cultist,
    Herbalist,
    Captain,
}

#[derive(Clone, Copy, Debug, PartialEq, Eq, Structural)]
pub enum Role {
    Civilised(Option<Profession>),
    Wild,
    Monster,
    Vehicle,
}

/// Whether an NPC currently has a physical embodiment.
#[derive(Clone, Copy, Debug, PartialEq, Eq, Structural)]
pub enum SimulationMode {
    /// No physical presence; driven on a compressed timestep.
    Simulated,
    /// Embodied in the world and driven every tick.
    Loaded,
}

/// A world position in fixed-point integer coordinates.
#[derive(Clone, Copy, Debug, PartialEq, Eq, Structural)]
pub struct WPos {
    pub x: i64,
    pub y: i64,
    pub z: i64,
}

/// Coordinates are kept within this bound so that squared distances fit
/// comfortably in 128 bits.
pub const COORD_LIMIT: i64 = 0x4000_0000_0000;

pub open spec fn wpos_wf(p: WPos) -> bool {
    -COORD_LIMIT <= p.x <= COORD_LIMIT
        && -COORD_LIMIT <= p.y <= COORD_LIMIT
        && -COORD_LIMIT <= p.z <= COORD_LIMIT
}

pub open spec fn dist_sq_spec(a: WPos, b: WPos) -> int {
    (a.x - b.x) * (a.x - b.x) + (a.y - b.y) * (a.y - b.y) + (a.z - b.z) * (a.z - b.z)
}

pub open spec fn dist_sq_xy_spec(a: WPos, b: WPos) -> int {
    (a.x - b.x) * (a.x - b.x) + (a.y - b.y) * (a.y - b.y)
}

impl WPos {
    /// Squared distance; range checks are avoided everywhere by comparing
    /// squares, never taking roots.
    pub fn dist_sq(&self, other: &WPos) -> (r: i128)
        requires
            wpos_wf(*self),
            wpos_wf(*other),
        ensures
            r == dist_sq_spec(*self, *other),
    {
        let dx: i128 = self.x as i128 - other.x as i128;
        let dy: i128 = self.y as i128 - other.y as i128;
        let dz: i128 = self.z as i128 - other.z as i128;
        proof {
            assert(dx * dx <= 0x8000_0000_0000i128 * 0x8000_0000_0000i128) by (nonlinear_arith)
                requires -0x8000_0000_0000i128 <= dx <= 0x8000_0000_0000i128;
            assert(dy * dy <= 0x8000_0000_0000i128 * 0x8000_0000_0000i128) by (nonlinear_arith)
                requires -0x8000_0000_0000i128 <= dy <= 0x8000_0000_0000i128;
            assert(dz * dz <= 0x8000_0000_0000i128 * 0x8000_0000_0000i128) by (nonlinear_arith)
                requires -0x8000_0000_0000i128 <= dz <= 0x8000_0000_0000i128;
            assert(dx * dx >= 0) by (nonlinear_arith);
            assert(dy * dy >= 0) by (nonlinear_arith);
            assert(dz * dz >= 0) by (nonlinear_arith);
        }
        dx * dx + dy * dy + dz * dz
    }

    /// Squared distance in the horizontal plane only.
    pub fn dist_sq_xy(&self, other: &WPos) -> (r: i128)
        requires
            wpos_wf(*self),
            wpos_wf(*other),
        ensures
            r == dist_sq_xy_spec(*self, *other),
    {
        let dx: i128 = self.x as i128 - other.x as i128;
        let dy: i128 = self.y as i128 - other.y as i128;
        proof {
            assert(dx * dx <= 0x8000_0000_0000i128 * 0x8000_0000_0000i128) by (nonlinear_arith)
                requires -0x8000_0000_0000i128 <= dx <= 0x8000_0000_0000i128;
            assert(dy * dy <= 0x8000_0000_0000i128 * 0x8000_0000_0000i128) by (nonlinear_arith)
                requires -0x8000_0000_0000i128 <= dy <= 0x8000_0000_0000i128;
            assert(dx * dx >= 0) by (nonlinear_arith);
            assert(dy * dy >= 0) by (nonlinear_arith);
        }
        dx * dx + dy * dy
    }
}

/// A horizontal facing, as fixed-point components.
#[derive(Clone, Copy, Debug, PartialEq, Eq, Structural)]
pub struct Dir2 {
    pub x: i32,
    pub y: i32,
}

/// A set of gatherable resource kinds, one bit per `ChunkResource`.
#[derive(Clone, Copy, Debug, PartialEq, Eq, Structural)]
pub struct ResourceMask(pub u16);

/// The bit a resource kind occupies in a `ResourceMask`.
pub open spec fn resource_bit_spec(r: ChunkResource) -> u16 {
    match r {
        ChunkResource::Grass => 1u16,
        ChunkResource::Flower => 2u16,
        ChunkResource::Fruit => 4u16,
        ChunkResource::Vegetable => 8u16,
        ChunkResource::Mushroom => 16u16,
        ChunkResource::Loot => 32u16,
        ChunkResource::Plant => 64u16,
        ChunkResource::Stone => 128u16,
        ChunkResource::Wood => 256u16,
        ChunkResource::Gem => 512u16,
        ChunkResource::Ore => 1024u16,
    }
}

pub fn resource_bit(r: ChunkResource) -> (b: u16)
    ensures
        b == resource_bit_spec(r),
{
    match r {
        ChunkResource::Grass => 1,
        ChunkResource::Flower => 2,
        ChunkResource::Fruit => 4,
        ChunkResource::Vegetable => 8,
        ChunkResource::Mushroom => 16,
        ChunkResource::Loot => 32,
        ChunkResource::Plant => 64,
        ChunkResource::Stone => 128,
        ChunkResource::Wood => 256,
        ChunkResource::Gem => 512,
        ChunkResource::Ore => 1024,
    }
}

impl ResourceMask {
    pub fn contains(&self, r: ChunkResource) -> (b: bool)
        ensures
            b == ((self.0 & resource_bit_spec(r)) != 0),
    {
        (self.0 & resource_bit(r)) != 0
    }
}

#[derive(Clone, Copy, Debug, PartialEq, Eq, Structural)]
pub enum ChunkResource {
    Grass,
    Flower,
    Fruit,
    Vegetable,
    Mushroom,
    Loot,
    Plant,
    Stone,
    Wood,
    Gem,
    Ore,
}

/// Keys of localisable speech lines. Turning a key into display text is a
/// front-end concern; the simulation only ever chooses keys.
#[derive(Clone, Copy, Debug, PartialEq, Eq, Structural)]
pub enum SpeechKey {
    RejectRival,
    TellSite,
    Site,
    TellMonster,
    Night,
    PirateShanty,
    NightTime,
    DayTime,
    SeekingShelterRain,
    RainStopped,
    MovingOn,
    Migrating,
    StartHunting,
    MerchantSellDirected,
    MerchantSellUndirected,
    GuardThought,
    Arena,
    WitnessMurder,
    WitnessEnemyMurder,
    WitnessDeath,
    WitnessTheft,
    WitnessTheftOwned,
    VillagerOpen,
    VillagerAdventurous,
    VillagerClosed,
    VillagerConscientious,
    VillagerBusybody,
    VillagerUnconscientious,
    VillagerExtroverted,
    VillagerIntroverted,
    VillagerAgreeable,
    VillagerSociable,
    VillagerDisagreeable,
    VillagerNeurotic,
    VillagerSeeker,
    VillagerSadLoner,
    VillagerWorried,
    VillagerStable,
    Villager,
    QuestionGeneral,
    QuestionSite,
    QuestionSelf,
    QuestionSentiment,
    QuestionHire,
    QuestionDirections,
    QuestionWhatGame,
    InfoCurrentSite,
    InfoUnknown,
    InfoSelfName,
    InfoRole,
    InfoRoleNone,
    InfoSelfHome,
    InfoSelfHomeless,
    ResponseLikeYou,
    ResponseDislikeYou,
    ResponseAmbivalentYou,
    ResponseNoProblem,
    ResponseAcceptHire,
    ResponseDeclineHire,
    ResponseHireTime,
    ResponseDirections,
    ResponseDoesntExist,
    HireExpired,
    HireCancelled,
    HireCancelledUnhappy,
    CancelInteraction,
    CancelHire,
    BuyHireDay,
    BuyHireWeek,
    PlayGame,
    GameRockPaperScissors,
    GameRock,
    GamePaper,
    GameScissors,
    GameDraw,
    GameWin,
    GameLose,
    DirectionTavern,
    DirectionPlaza,
    DirectionWorkshop,
    DirectionAirshipDock,
    MapPlaza,
    MapWorkshop,
    MapAirshipDock,
}

#[derive(Clone, Copy, Debug, PartialEq, Eq, Structural)]
pub enum PersonalityTrait {
    Open,
    Adventurous,
    Closed,
    Conscientious,
    Busybody,
    Unconscientious,
    Extroverted,
    Introverted,
    Agreeable,
    Sociable,
    Disagreeable,
    Neurotic,
    Seeker,
    Worried,
    SadLoner,
    Stable,
}

/// A five-trait personality, each trait a fixed-point value in `0..=255`.
#[derive(Clone, Copy, Debug, PartialEq, Eq, Structural)]
pub struct Personality {
    pub openness: u8,
    pub conscientiousness: u8,
    pub extraversion: u8,
    pub agreeableness: u8,
    pub neuroticism: u8,
}

pub const PERSONALITY_MAX: u8 = 255;
pub const PERSONALITY_MIN: u8 = 0;
pub const PERSONALITY_MID: u8 = 127;
pub const PERSONALITY_LOW_THRESHOLD: u8 = 102;
pub const PERSONALITY_HIGH_THRESHOLD: u8 = 153;
pub const PERSONALITY_LITTLE_HIGH: u8 = 139;
pub const PERSONALITY_LITTLE_LOW: u8 = 115;

/// Which traits a personality exhibits, as a pure predicate.
pub open spec fn personality_is_spec(p: Personality, t: PersonalityTrait) -> bool {
    match t {
        PersonalityTrait::Open => p.openness > PERSONALITY_HIGH_THRESHOLD,
        PersonalityTrait::Adventurous => p.openness > PERSONALITY_HIGH_THRESHOLD
            && p.neuroticism < PERSONALITY_MID,
        PersonalityTrait::Closed => p.openness < PERSONALITY_LOW_THRESHOLD,
        PersonalityTrait::Conscientious => p.conscientiousness > PERSONALITY_HIGH_THRESHOLD,
        PersonalityTrait::Busybody => p.agreeableness < PERSONALITY_LOW_THRESHOLD,
        PersonalityTrait::Unconscientious => p.conscientiousness < PERSONALITY_LOW_THRESHOLD,
        PersonalityTrait::Extroverted => p.extraversion > PERSONALITY_HIGH_THRESHOLD,
        PersonalityTrait::Introverted => p.extraversion < PERSONALITY_LOW_THRESHOLD,
        PersonalityTrait::Agreeable => p.agreeableness > PERSONALITY_HIGH_THRESHOLD,
        PersonalityTrait::Sociable => p.agreeableness > PERSONALITY_HIGH_THRESHOLD
            && p.extraversion > PERSONALITY_MID,
        PersonalityTrait::Disagreeable => p.agreeableness < PERSONALITY_LOW_THRESHOLD,
        PersonalityTrait::Neurotic => p.neuroticism > PERSONALITY_HIGH_THRESHOLD,
        PersonalityTrait::Seeker => p.neuroticism > PERSONALITY_HIGH_THRESHOLD
            && p.openness > PERSONALITY_LITTLE_HIGH,
        PersonalityTrait::Worried => p.neuroticism > PERSONALITY_HIGH_THRESHOLD
            && p.agreeableness > PERSONALITY_LITTLE_HIGH,
        PersonalityTrait::SadLoner => p.neuroticism > PERSONALITY_HIGH_THRESHOLD
            && p.extraversion < PERSONALITY_LITTLE_LOW,
        PersonalityTrait::Stable => p.neuroticism < PERSONALITY_LOW_THRESHOLD,
    }
}

/// The speech key a trait colours generic smalltalk with.
pub open spec fn trait_speech_key(t: PersonalityTrait) -> SpeechKey {
    match t {
        PersonalityTrait::Open => SpeechKey::VillagerOpen,
        PersonalityTrait::Adventurous => SpeechKey::VillagerAdventurous,
        PersonalityTrait::Closed => SpeechKey::VillagerClosed,
        PersonalityTrait::Conscientious => SpeechKey::VillagerConscientious,
        PersonalityTrait::Busybody => SpeechKey::VillagerBusybody,
        PersonalityTrait::Unconscientious => SpeechKey::VillagerUnconscientious,
        PersonalityTrait::Extroverted => SpeechKey::VillagerExtroverted,
        PersonalityTrait::Introverted => SpeechKey::VillagerIntroverted,
        PersonalityTrait::Agreeable => SpeechKey::VillagerAgreeable,
        PersonalityTrait::Sociable => SpeechKey::VillagerSociable,
        PersonalityTrait::Disagreeable => SpeechKey::VillagerDisagreeable,
        PersonalityTrait::Neurotic => SpeechKey::VillagerNeurotic,
        PersonalityTrait::Seeker => SpeechKey::VillagerSeeker,
        PersonalityTrait::Worried => SpeechKey::VillagerWorried,
        PersonalityTrait::SadLoner => SpeechKey::VillagerSadLoner,
        PersonalityTrait::Stable => SpeechKey::VillagerStable,
    }
}

pub open spec fn all_traits_spec() -> Seq<PersonalityTrait> {
    seq![
        PersonalityTrait::Open,
        PersonalityTrait::Adventurous,
        PersonalityTrait::Closed,
        PersonalityTrait::Conscientious,
        PersonalityTrait::Busybody,
        PersonalityTrait::Unconscientious,
        PersonalityTrait::Extroverted,
        PersonalityTrait::Introverted,
        PersonalityTrait::Agreeable,
        PersonalityTrait::Sociable,
        PersonalityTrait::Disagreeable,
        PersonalityTrait::Neurotic,
        PersonalityTrait::Seeker,
        PersonalityTrait::Worried,
        PersonalityTrait::SadLoner,
        PersonalityTrait::Stable,
    ]
}

/// Draw a value in `min..=max` biased toward the middle: the sum of three
/// smaller draws, as a rough bell shape.
pub fn distributed(min: u8, max: u8, rng: &mut crate::rng::SimRng) -> (r: u8)
    requires
        min <= max,
    ensures
        min <= r <= max,
{
    let l: u8 = max - min;
    proof {
        assert(l / 3 + (l / 3 + l % 3 % 2) + (l / 3 + l % 3 / 2) <= l) by (nonlinear_arith);
    }
    let a: u8 = rng.gen_below(l as u64 / 3 + 1) as u8;
    let b: u8 = rng.gen_below(l as u64 / 3 + (l as u64 % 3 % 2) + 1) as u8;
    let c: u8 = rng.gen_below(l as u64 / 3 + (l as u64 % 3 / 2) + 1) as u8;
    min + a + b + c
}

impl Personality {
    pub fn is(&self, trait_: PersonalityTrait) -> (r: bool)
        ensures
            r == personality_is_spec(*self, trait_),
    {
        match trait_ {
            PersonalityTrait::Open => self.openness > PERSONALITY_HIGH_THRESHOLD,
            PersonalityTrait::Adventurous => {
                self.openness > PERSONALITY_HIGH_THRESHOLD && self.neuroticism < PERSONALITY_MID
            },
            PersonalityTrait::Closed => self.openness < PERSONALITY_LOW_THRESHOLD,
            PersonalityTrait::Conscientious => {
                self.conscientiousness > PERSONALITY_HIGH_THRESHOLD
            },
            PersonalityTrait::Busybody => self.agreeableness < PERSONALITY_LOW_THRESHOLD,
            PersonalityTrait::Unconscientious => {
                self.conscientiousness < PERSONALITY_LOW_THRESHOLD
            },
            PersonalityTrait::Extroverted => self.extraversion > PERSONALITY_HIGH_THRESHOLD,
            PersonalityTrait::Introverted => self.extraversion < PERSONALITY_LOW_THRESHOLD,
            PersonalityTrait::Agreeable => self.agreeableness > PERSONALITY_HIGH_THRESHOLD,
            PersonalityTrait::Sociable => {
                self.agreeableness > PERSONALITY_HIGH_THRESHOLD
                    && self.extraversion > PERSONALITY_MID
            },
            PersonalityTrait::Disagreeable => self.agreeableness < PERSONALITY_LOW_THRESHOLD,
            PersonalityTrait::Neurotic => self.neuroticism > PERSONALITY_HIGH_THRESHOLD,
            PersonalityTrait::Seeker => {
                self.neuroticism > PERSONALITY_HIGH_THRESHOLD
                    && self.openness > PERSONALITY_LITTLE_HIGH
            },
            PersonalityTrait::Worried => {
                self.neuroticism > PERSONALITY_HIGH_THRESHOLD
                    && self.agreeableness > PERSONALITY_LITTLE_HIGH
            },
            PersonalityTrait::SadLoner => {
                self.neuroticism > PERSONALITY_HIGH_THRESHOLD
                    && self.extraversion < PERSONALITY_LITTLE_LOW
            },
            PersonalityTrait::Stable => self.neuroticism < PERSONALITY_LOW_THRESHOLD,
        }
    }

    pub fn random(rng: &mut crate::rng::SimRng) -> (r: Personality) {
        Personality {
            openness: distributed(PERSONALITY_MIN, PERSONALITY_MAX, rng),
            conscientiousness: distributed(PERSONALITY_MIN, PERSONALITY_MAX, rng),
            extraversion: distributed(PERSONALITY_MIN, PERSONALITY_MAX, rng),
            agreeableness: distributed(PERSONALITY_MIN, PERSONALITY_MAX, rng),
            neuroticism: distributed(PERSONALITY_MIN, PERSONALITY_MAX, rng),
        }
    }

    /// An evil personality is low in agreeableness and conscientiousness.
    pub fn random_evil(rng: &mut crate::rng::SimRng) -> (r: Personality)
        ensures
            r.agreeableness < PERSONALITY_LOW_THRESHOLD,
            r.conscientiousness < PERSONALITY_LOW_THRESHOLD,
    {
        Personality {
            openness: distributed(PERSONALITY_MIN, PERSONALITY_MAX, rng),
            extraversion: distributed(PERSONALITY_MIN, PERSONALITY_MAX, rng),
            neuroticism: distributed(PERSONALITY_MIN, PERSONALITY_MAX, rng),
            agreeableness: distributed(PERSONALITY_MIN, PERSONALITY_LOW_THRESHOLD - 1, rng),
            conscientiousness: distributed(PERSONALITY_MIN, PERSONALITY_LOW_THRESHOLD - 1, rng),
        }
    }

    /// A good personality is at least moderately conscientious.
    pub fn random_good(rng: &mut crate::rng::SimRng) -> (r: Personality)
        ensures
            r.conscientiousness >= PERSONALITY_LOW_THRESHOLD,
    {
        Personality {
            openness: distributed(PERSONALITY_MIN, PERSONALITY_MAX, rng),
            extraversion: distributed(PERSONALITY_MIN, PERSONALITY_MAX, rng),
            neuroticism: distributed(PERSONALITY_MIN, PERSONALITY_MAX, rng),
            agreeableness: distributed(PERSONALITY_MIN, PERSONALITY_MAX, rng),
            conscientiousness: distributed(PERSONALITY_LOW_THRESHOLD, PERSONALITY_MAX, rng),
        }
    }

    pub fn will_ambush(&self) -> (r: bool)
        ensures
            r == (self.agreeableness < PERSONALITY_LOW_THRESHOLD
                && self.conscientiousness < PERSONALITY_LOW_THRESHOLD),
    {
        self.agreeableness < PERSONALITY_LOW_THRESHOLD
            && self.conscientiousness < PERSONALITY_LOW_THRESHOLD
    }

    /// Pick one of the traits this personality exhibits, or `None` when it
    /// exhibits none.
    pub fn chat_trait(&self, rng: &mut crate::rng::SimRng) -> (r: Option<PersonalityTrait>)
        ensures
            (r is Some) ==> personality_is_spec(*self, r->0),
            (r is None) ==> (forall|t: PersonalityTrait| !personality_is_spec(*self, t)),
    {
        let mut eligible: Vec<PersonalityTrait> = Vec::new();
        let all: Vec<PersonalityTrait> = all_traits();
        let mut i: usize = 0;
        while i < all.len()
            invariant
                all@ == all_traits_spec(),
                i <= all.len(),
                forall|j: int| 0 <= j < eligible@.len()
                    ==> personality_is_spec(*self, #[trigger] eligible@[j]),
                (forall|j: int| 0 <= j < i ==> !personality_is_spec(*self, #[trigger] all@[j]))
                    || eligible@.len() > 0,
            decreases all.len() - i,
        {
            if self.is(all[i]) {
                eligible.push(all[i]);
            }
            i += 1;
        }
        if eligible.len() == 0 {
            proof {
                assert(forall|t: PersonalityTrait| all_traits_spec().contains(t)) by {
                    assert forall|t: PersonalityTrait| all_traits_spec().contains(t) by {
                        let s = all_traits_spec();
                        match t {
                            PersonalityTrait::Open => assert(s[0] == t),
                            PersonalityTrait::Adventurous => assert(s[1] == t),
                            PersonalityTrait::Closed => assert(s[2] == t),
                            PersonalityTrait::Conscientious => assert(s[3] == t),
                            PersonalityTrait::Busybody => assert(s[4] == t),
                            PersonalityTrait::Unconscientious => assert(s[5] == t),
                            PersonalityTrait::Extroverted => assert(s[6] == t),
                            PersonalityTrait::Introverted => assert(s[7] == t),
                            PersonalityTrait::Agreeable => assert(s[8] == t),
                            PersonalityTrait::Sociable => assert(s[9] == t),
                            PersonalityTrait::Disagreeable => assert(s[10] == t),
                            PersonalityTrait::Neurotic => assert(s[11] == t),
                            PersonalityTrait::Seeker => assert(s[12] == t),
                            PersonalityTrait::Worried => assert(s[13] == t),
                            PersonalityTrait::SadLoner => assert(s[14] == t),
                            PersonalityTrait::Stable => assert(s[15] == t),
                        }
                    }
                }
            }
            None
        } else {
            let idx: usize = rng.gen_below(eligible.len() as u64) as usize;
            Some(eligible[idx])
        }
    }

    /// Generic smalltalk coloured by the strongest personality trait, with a
    /// neutral fallback when no trait stands out.
    pub fn get_generic_comment(&self, rng: &mut crate::rng::SimRng) -> (r: Content)
        ensures
            (forall|t: PersonalityTrait| !personality_is_spec(*self, t))
                ==> r == Content::Key(SpeechKey::Villager),
            (exists|t: PersonalityTrait| personality_is_spec(*self, t))
                ==> (exists|t: PersonalityTrait|
                    personality_is_spec(*self, t) && r == Content::Key(trait_speech_key(t))),
    {
        match self.chat_trait(rng) {
            Some(t) => Content::Key(speech_key_for_trait(t)),
            None => Content::Key(SpeechKey::Villager),
        }
    }
}

impl Default for Personality {
    fn default() -> (r: Self)
        ensures
            r.openness == PERSONALITY_MID,
            r.conscientiousness == PERSONALITY_MID,
            r.extraversion == PERSONALITY_MID,
            r.agreeableness == PERSONALITY_MID,
            r.neuroticism == PERSONALITY_MID,
    {
        Personality {
            openness: PERSONALITY_MID,
            conscientiousness: PERSONALITY_MID,
            extraversion: PERSONALITY_MID,
            agreeableness: PERSONALITY_MID,
            neuroticism: PERSONALITY_MID,
        }
    }
}

pub fn all_traits() -> (r: Vec<PersonalityTrait>)
    ensures
        r@ == all_traits_spec(),
{
    let mut v: Vec<PersonalityTrait> = Vec::new();
    v.push(PersonalityTrait::Open);
    v.push(PersonalityTrait::Adventurous);
    v.push(PersonalityTrait::Closed);
    v.push(PersonalityTrait::Conscientious);
    v.push(PersonalityTrait::Busybody);
    v.push(PersonalityTrait::Unconscientious);
    v.push(PersonalityTrait::Extroverted);
    v.push(PersonalityTrait::Introverted);
    v.push(PersonalityTrait::Agreeable);
    v.push(PersonalityTrait::Sociable);
    v.push(PersonalityTrait::Disagreeable);
    v.push(PersonalityTrait::Neurotic);
    v.push(PersonalityTrait::Seeker);
    v.push(PersonalityTrait::Worried);
    v.push(PersonalityTrait::SadLoner);
    v.push(PersonalityTrait::Stable);
    proof {
        assert(v@ =~= all_traits_spec());
    }
    v
}

pub fn speech_key_for_trait(t: PersonalityTrait) -> (r: SpeechKey)
    ensures
        r == trait_speech_key(t),
{
    match t {
        PersonalityTrait::Open => SpeechKey::VillagerOpen,
        PersonalityTrait::Adventurous => SpeechKey::VillagerAdventurous,
        PersonalityTrait::Closed => SpeechKey::VillagerClosed,
        PersonalityTrait::Conscientious => SpeechKey::VillagerConscientious,
        PersonalityTrait::Busybody => SpeechKey::VillagerBusybody,
        PersonalityTrait::Unconscientious => SpeechKey::VillagerUnconscientious,
        PersonalityTrait::Extroverted => SpeechKey::VillagerExtroverted,
        PersonalityTrait::Introverted => SpeechKey::VillagerIntroverted,
        PersonalityTrait::Agreeable => SpeechKey::VillagerAgreeable,
        PersonalityTrait::Sociable => SpeechKey::VillagerSociable,
        PersonalityTrait::Disagreeable => SpeechKey::VillagerDisagreeable,
        PersonalityTrait::Neurotic => SpeechKey::VillagerNeurotic,
        PersonalityTrait::Seeker => SpeechKey::VillagerSeeker,
        PersonalityTrait::Worried => SpeechKey::VillagerWorried,
        PersonalityTrait::SadLoner => SpeechKey::VillagerSadLoner,
        PersonalityTrait::Stable => SpeechKey::VillagerStable,
    }
}

/// An octant compass direction used when describing a place.
#[derive(Clone, Copy, Debug, PartialEq, Eq, Structural)]
pub enum CompassDir {
    North,
    NorthEast,
    East,
    SouthEast,
    South,
    SouthWest,
    West,
    NorthWest,
}

/// A piece of sayable content: either free text or a speech key, optionally
/// decorated with the arguments a front end would substitute.
#[derive(Clone, Debug, PartialEq)]
pub enum Content {
    Plain(String),
    Key(SpeechKey),
    /// A key plus the name of a site it talks about.
    KeyWithName(SpeechKey, String),
    /// A key plus a direction and a distance toward a place.
    KeyWithPlace(SpeechKey, CompassDir, u64),
}

/// A coarse tag for an NPC's body, as far as behaviour selection cares.
#[derive(Clone, Copy, Debug, PartialEq, Eq, Structural)]
pub enum BodyTag {
    Humanoid,
    BirdLarge,
    ShipAirBalloon,
    ShipAirship,
    ShipBoat,
    Other,
}

#[derive(Clone, Copy, Debug, PartialEq, Eq, Structural)]
pub enum DayPeriod {
    Night,
    Morning,
    Noon,
    Evening,
}

impl DayPeriod {
    pub fn is_dark(&self) -> (r: bool)
        ensures
            r == (*self == DayPeriod::Night),
    {
        match self {
            DayPeriod::Night => true,
            _ => false,
        }
    }
}

/// What an NPC knows of itself while its brain runs: a read-only snapshot.
#[derive(Clone, Debug, PartialEq)]
pub struct NpcView {
    pub id: u64,
    pub seed: u32,
    pub pos: WPos,
    pub body: BodyTag,
    pub role: Role,
    pub home: Option<u64>,
    pub faction: Option<u64>,
    /// Health as a per-myriad fraction; at or below zero is dead.
    pub health_pm: i32,
    pub personality: Personality,
    pub hiring: Option<(Actor, u64)>,
    pub current_site: Option<u64>,
    pub mode: SimulationMode,
    /// Set when this NPC rides another: the mount and whether it steers.
    pub riding: Option<(u64, bool)>,
    /// The mount's body, where known.
    pub mount_body: Option<BodyTag>,
}

impl NpcView {
    pub open spec fn wf(&self) -> bool {
        wpos_wf(self.pos)
    }

    pub open spec fn profession_spec(&self) -> Option<Profession> {
        match self.role {
            Role::Civilised(p) => p,
            _ => None,
        }
    }

    pub fn profession(&self) -> (r: Option<Profession>)
        ensures
            r == self.profession_spec(),
    {
        match self.role {
            Role::Civilised(p) => p,
            _ => None,
        }
    }
}

/// Another actor close enough to matter, with what is known of it.
#[derive(Clone, Debug, PartialEq)]
pub struct NearbyActor {
    pub actor: Actor,
    pub pos: WPos,
    /// `None` for player characters, whose role the simulation cannot see.
    pub role: Option<Role>,
}

#[derive(Clone, Copy, Debug, PartialEq, Eq, Structural)]
pub enum PlotKind {
    House,
    Tavern,
    Workshop,
    AirshipDock,
    Plaza,
    FarmField,
    PirateHideout,
    Arena,
}

/// One plot of a site: its kind and a representative position.
#[derive(Clone, Debug, PartialEq)]
pub struct PlotView {
    pub kind: PlotKind,
    pub pos: WPos,
}

/// What the world-query interface reports of one site. Missing or stale
/// references simply do not appear.
#[derive(Clone, Debug, PartialEq)]
pub struct SiteView {
    pub id: u64,
    pub pos: WPos,
    pub population: u32,
    pub plots: Vec<PlotView>,
    /// Other sites worth mentioning, largest first.
    pub nearby_sites_by_size: Vec<u64>,
    pub name: Option<String>,
}

/// The read-only digest of the world a brain may consult during one poll.
#[derive(Clone, Debug, PartialEq)]
pub struct WorldView {
    pub day_period: DayPeriod,
    pub time_of_day: u64,
    pub is_raining: bool,
    pub sites: Vec<SiteView>,
    /// Actors near the polled NPC, itself excluded.
    pub nearby: Vec<NearbyActor>,
    /// The external report feed, keyed by report id.
    pub reports: Vec<(u64, Report)>,
}

impl WorldView {
    /// Look a site up by id; absence is an answer, never an error.
    pub fn site(&self, id: u64) -> (r: Option<&SiteView>)
        ensures
            (r is Some) ==> ((r->0).id == id && exists|i: int|
                0 <= i < self.sites@.len() && self.sites@[i].id == id),
            (r is None) ==> (forall|i: int|
                0 <= i < self.sites@.len() ==> (#[trigger] self.sites@[i]).id != id),
    {
        let mut i: usize = 0;
        while i < self.sites.len()
            invariant
                i <= self.sites@.len(),
                forall|j: int| 0 <= j < i ==> (#[trigger] self.sites@[j]).id != id,
            decreases self.sites@.len() - i,
        {
            if self.sites[i].id == id {
                return Some(&self.sites[i]);
            }
            i += 1;
        }
        None
    }
}

/// A tagged response option offered inside a dialogue question.
#[derive(Clone, Debug, PartialEq)]
pub struct Response {
    pub msg: Content,
    /// An item handed over when this response is picked: an item tag and an
    /// amount.
    pub given_item: Option<(u64, u32)>,
}

#[derive(Clone, Copy, Debug, PartialEq, Eq, Structural)]
pub struct DialogueId(pub u64);

/// The response options of a question, as a list with exact structural
/// equality.
#[derive(Debug, PartialEq)]
pub enum ResponseList {
    Nil,
    Cons(u16, Response, Box<ResponseList>),
}

impl ResponseList {
    pub open spec fn len_spec(&self) -> nat
        decreases *self,
    {
        match self {
            ResponseList::Nil => 0,
            ResponseList::Cons(_, _, rest) => 1 + rest.len_spec(),
        }
    }
}

/// One structured dialogue message.
#[derive(Debug, PartialEq)]
pub enum DialogueKind {
    Start,
    End,
    Statement(Content),
    Question { tag: u32, msg: Content, responses: ResponseList },
    Response { tag: u32, response: Response, response_id: u16 },
    Marker { wpos: WPos, name: Content },
}

#[derive(Debug, PartialEq)]
pub struct Dialogue {
    pub id: DialogueId,
    pub kind: DialogueKind,
}

impl Dialogue {
    /// The display message carried by this dialogue turn, if any.
    pub fn message(&self) -> (r: Option<&Content>)
        ensures
            r == (match self.kind {
                DialogueKind::Start | DialogueKind::End | DialogueKind::Marker { .. } => None::<
                    &Content,
                >,
                DialogueKind::Statement(ref msg) => Some(msg),
                DialogueKind::Question { ref msg, .. } => Some(msg),
                DialogueKind::Response { ref response, .. } => Some(&response.msg),
            }),
    {
        match &self.kind {
            DialogueKind::Start | DialogueKind::End | DialogueKind::Marker { .. } => None,
            DialogueKind::Statement(msg) => Some(msg),
            DialogueKind::Question { msg, .. } => Some(msg),
            DialogueKind::Response { response, .. } => Some(&response.msg),
        }
    }
}

/// An ongoing dialogue with another actor.
#[derive(Clone, Copy, Debug, PartialEq, Eq, Structural)]
pub struct DialogueSession {
    pub target: Actor,
    pub id: DialogueId,
}

/// A queued external stimulus awaiting an NPC's next poll.
#[derive(Debug, PartialEq)]
pub enum NpcInput {
    Report(u64),
    Interaction(Actor),
    Dialogue(Actor, Dialogue),
}

/// A world event an NPC may react to, read from an external feed.
#[derive(Clone, Copy, Debug, PartialEq, Eq, Structural)]
pub enum ReportKind {
    Death { killer: Option<Actor>, actor: Actor },
    Theft { thief: Actor, site: Option<u64>, is_plant: bool },
}

#[derive(Clone, Copy, Debug, PartialEq, Eq, Structural)]
pub struct Report {
    pub kind: ReportKind,
    /// Time-of-day stamp, in time units.
    pub at_tod: u64,
}

/// The flight regime requested for an airborne movement intent.
#[derive(Clone, Copy, Debug, PartialEq, Eq, Structural)]
pub enum FlightMode {
    FlyThrough,
    Braking,
}

/// The current activity an NPC intends to carry out; mutually exclusive,
/// last write within a tick wins.
#[derive(Clone, Copy, Debug, PartialEq, Eq, Structural)]
pub enum NpcActivity {
    /// Travel to a position at a fixed-point speed factor (per-myriad).
    Goto(WPos, u32),
    /// Travel flying: target, speed factor, height above terrain, facing,
    /// flight regime.
    GotoFlying(WPos, u32, Option<i64>, Option<Dir2>, FlightMode),
    Gather(ResourceMask),
    HuntAnimals,
    Dance(Option<Dir2>),
    Cheer(Option<Dir2>),
    Sit(Option<Dir2>, Option<WPos>),
    Talk(Actor),
}

/// A discrete one-shot action emitted toward the world.
#[derive(Debug, PartialEq)]
pub enum NpcAction {
    Say(Option<Actor>, Content),
    Attack(Actor),
    Dialogue(Actor, Dialogue),
}

/// Sentiment values are fixed-point in `-1000..=1000`.
pub const SENTIMENT_MAX: i32 = 1000;

pub const SENTIMENT_POSITIVE: i32 = 100;
pub const SENTIMENT_ALLY: i32 = 300;
pub const SENTIMENT_FRIEND: i32 = 600;
pub const SENTIMENT_HERO: i32 = 800;
pub const SENTIMENT_NEGATIVE: i32 = -100;
pub const SENTIMENT_RIVAL: i32 = -300;
pub const SENTIMENT_ENEMY: i32 = -600;
pub const SENTIMENT_VILLAIN: i32 = -800;

/// Small-magnitude sentiments are forgotten first when the table is trimmed.
pub const SENTIMENT_KEEP_THRESHOLD: i32 = 100;

/// An opinion reaches a level when it is at least as extreme as the level,
/// in the level's own direction.
pub open spec fn sentiment_is_spec(value: i32, level: i32) -> bool {
    if level >= 0 {
        value >= level
    } else {
        value <= level
    }
}

/// Opinions toward other actors, as an association table with unique keys.
/// Absent actors are viewed neutrally (zero).
#[derive(Clone, Debug, PartialEq)]
pub struct Sentiments {
    pub entries: Vec<(Actor, i32)>,
}

pub open spec fn sentiment_lookup(entries: Seq<(Actor, i32)>, who: Actor) -> i32
    decreases entries.len(),
{
    if entries.len() == 0 {
        0
    } else if entries[0].0 == who {
        entries[0].1
    } else {
        sentiment_lookup(entries.skip(1), who)
    }
}

impl Sentiments {
    pub open spec fn wf(&self) -> bool {
        (forall|i: int, j: int|
            0 <= i < j < self.entries@.len() ==> (#[trigger] self.entries@[i]).0 != (
            #[trigger] self.entries@[j]).0) && (forall|i: int|
            0 <= i < self.entries@.len() ==> -SENTIMENT_MAX <= (
            #[trigger] self.entries@[i]).1 <= SENTIMENT_MAX)
    }

    pub open spec fn toward_spec(&self, who: Actor) -> i32 {
        sentiment_lookup(self.entries@, who)
    }

    pub fn new() -> (r: Sentiments)
        ensures
            r.wf(),
            r.entries@.len() == 0,
    {
        Sentiments { entries: Vec::new() }
    }

    /// The current opinion toward `who`; neutral when none is recorded.
    pub fn toward(&self, who: Actor) -> (r: i32)
        ensures
            r == self.toward_spec(who),
    {
        let mut i: usize = 0;
        proof {
            assert(self.entries@.skip(0) =~= self.entries@);
        }
        while i < self.entries.len()
            invariant
                i <= self.entries@.len(),
                sentiment_lookup(self.entries@, who) == sentiment_lookup(
                    self.entries@.skip(i as int),
                    who,
                ),
            decreases self.entries@.len() - i,
        {
            if self.entries[i].0 == who {
                proof {
                    assert(self.entries@.skip(i as int)[0] == self.entries@[i as int]);
                }
                return self.entries[i].1;
            }
            proof {
                assert(self.entries@.skip(i as int).skip(1) =~= self.entries@.skip(i + 1));
            }
            i += 1;
        }
        proof {
            assert(self.entries@.skip(i as int).len() == 0);
        }
        0
    }

    /// Whether the opinion toward `who` has reached `level`.
    pub fn is_toward(&self, who: Actor, level: i32) -> (r: bool)
        ensures
            r == sentiment_is_spec(self.toward_spec(who), level),
    {
        let v: i32 = self.toward(who);
        if level >= 0 {
            v >= level
        } else {
            v <= level
        }
    }

    fn set_raw(&mut self, who: Actor, value: i32)
        requires
            old(self).wf(),
            -SENTIMENT_MAX <= value <= SENTIMENT_MAX,
        ensures
            final(self).wf(),
            final(self).toward_spec(who) == value,
            forall|other: Actor|
                other != who ==> final(self).toward_spec(other) == old(self).toward_spec(other),
    {
        let ghost pre = self.entries@;
        let mut i: usize = 0;
        while i < self.entries.len()
            invariant
                pre == old(self).entries@,
                old(self).wf(),
                -SENTIMENT_MAX <= value <= SENTIMENT_MAX,
                self.entries@ == pre,
                i <= pre.len(),
                forall|j: int| 0 <= j < i ==> (#[trigger] pre[j]).0 != who,
            decreases pre.len() - i,
        {
            if self.entries[i].0 == who {
                self.entries.set(i, (who, value));
                proof {
                    let post = self.entries@;
                    assert(post == pre.update(i as int, (who, value)));
                    assert(forall|a: int, b: int|
                        0 <= a < b < pre.len() ==> (#[trigger] pre[a]).0 != (#[trigger] pre[b]).0);
                    assert forall|a: int, b: int|
                        0 <= a < b < post.len() implies (#[trigger] post[a]).0 != (
                    #[trigger] post[b]).0 by {
                        assert(post[a].0 == pre[a].0);
                        assert(post[b].0 == pre[b].0);
                    }
                    assert forall|a: int|
                        0 <= a < post.len() implies -SENTIMENT_MAX <= (#[trigger] post[a]).1
                        <= SENTIMENT_MAX by {
                        if a != i {
                            assert(post[a] == pre[a]);
                        }
                    }
                    assert forall|other: Actor| #[trigger] sentiment_lookup(post, other) == (
                    if other == who {
                        value as int
                    } else {
                        sentiment_lookup(pre, other) as int
                    }) by {
                        lemma_lookup_update(pre, i as int, who, value, other);
                    }
                }
                return;
            }
            i += 1;
        }
        self.entries.push((who, value));
        proof {
            let post = self.entries@;
            assert(post == pre.push((who, value)));
            assert forall|a: int, b: int|
                0 <= a < b < post.len() implies (#[trigger] post[a]).0 != (
            #[trigger] post[b]).0 by {
                if b < pre.len() {
                    assert(post[a] == pre[a]);
                    assert(post[b] == pre[b]);
                } else {
                    assert(post[a] == pre[a]);
                    assert(post[b] == (who, value));
                }
            }
            assert forall|other: Actor| #[trigger] sentiment_lookup(post, other) == (if other
                == who {
                value as int
            } else {
                sentiment_lookup(pre, other) as int
            }) by {
                lemma_lookup_append(pre, who, value, other);
            }
        }
    }

    /// Move the opinion toward `who` by `delta`, never past `cap` in the
    /// direction of movement, though an opinion already past the cap is kept.
    pub fn change_by(&mut self, who: Actor, delta: i32, cap: i32)
        requires
            old(self).wf(),
            -SENTIMENT_MAX <= delta <= SENTIMENT_MAX,
            -SENTIMENT_MAX <= cap <= SENTIMENT_MAX,
        ensures
            final(self).wf(),
            final(self).toward_spec(who) == change_by_spec(old(self).toward_spec(who), delta, cap),
            forall|other: Actor|
                other != who ==> final(self).toward_spec(other) == old(self).toward_spec(other),
    {
        let v: i32 = self.toward(who);
        proof {
            lemma_lookup_in_range(self.entries@, who);
        }
        let moved: i32 = v + delta;
        let new_v: i32 = if delta >= 0 {
            let ceiling: i32 = if v > cap {
                v
            } else {
                cap
            };
            if moved < ceiling {
                moved
            } else {
                ceiling
            }
        } else {
            let floor: i32 = if v < cap {
                v
            } else {
                cap
            };
            if moved > floor {
                moved
            } else {
                floor
            }
        };
        self.set_raw(who, new_v);
    }

    /// Raise the opinion toward `who` so it is no lower than `level`.
    pub fn limit_below(&mut self, who: Actor, level: i32)
        requires
            old(self).wf(),
            -SENTIMENT_MAX <= level <= SENTIMENT_MAX,
        ensures
            final(self).wf(),
            final(self).toward_spec(who) == (if old(self).toward_spec(who) >= level {
                old(self).toward_spec(who)
            } else {
                level
            }),
            forall|other: Actor|
                other != who ==> final(self).toward_spec(other) == old(self).toward_spec(other),
    {
        let v: i32 = self.toward(who);
        proof {
            lemma_lookup_in_range(self.entries@, who);
        }
        if v < level {
            self.set_raw(who, level);
        } else {
            self.set_raw(who, v);
        }
    }

    /// Trim the table to at most `max` opinions: weak opinions are forgotten
    /// first; if strong opinions alone still exceed the budget, the
    /// longest-held ones are kept and the most recent dropped.
    pub fn cleanup(&mut self, max: usize)
        requires
            old(self).wf(),
        ensures
            final(self).wf(),
            final(self).entries@.len() <= max,
            ({
                let strong = old(self).entries@.filter(
                    |e: (Actor, i32)| e.1 >= SENTIMENT_KEEP_THRESHOLD || e.1
                        <= -SENTIMENT_KEEP_THRESHOLD,
                );
                old(self).entries@.len() > max ==> final(self).entries@ == (if strong.len()
                    <= max {
                    strong
                } else {
                    strong.subrange(0, max as int)
                })
            }),
            old(self).entries@.len() <= max ==> final(self).entries@ == old(self).entries@,
    {
        if self.entries.len() > max {
            let ghost strong = self.entries@.filter(
                |e: (Actor, i32)| e.1 >= SENTIMENT_KEEP_THRESHOLD || e.1
                    <= -SENTIMENT_KEEP_THRESHOLD,
            );
            let mut kept: Vec<(Actor, i32)> = Vec::new();
            let mut i: usize = 0;
            proof {
                reveal_with_fuel(Seq::filter, 2);
                assert(self.entries@.subrange(0, 0) =~= Seq::<(Actor, i32)>::empty());
                assert(self.entries@.subrange(0, 0).filter(
                    |e: (Actor, i32)| e.1 >= SENTIMENT_KEEP_THRESHOLD || e.1
                        <= -SENTIMENT_KEEP_THRESHOLD,
                ) =~= Seq::<(Actor, i32)>::empty());
            }
            while i < self.entries.len()
                invariant
                    old(self).wf(),
                    self.entries@ == old(self).entries@,
                    i <= self.entries@.len(),
                    kept@ == self.entries@.subrange(0, i as int).filter(
                        |e: (Actor, i32)| e.1 >= SENTIMENT_KEEP_THRESHOLD || e.1
                            <= -SENTIMENT_KEEP_THRESHOLD,
                    ),
                    forall|a: int, b: int|
                        0 <= a < b < kept@.len() ==> (#[trigger] kept@[a]).0 != (
                        #[trigger] kept@[b]).0,
                    forall|a: int|
                        0 <= a < kept@.len() ==> -SENTIMENT_MAX <= (#[trigger] kept@[a]).1
                            <= SENTIMENT_MAX,
                    forall|a: int|
                        0 <= a < kept@.len() ==> exists|b: int|
                            0 <= b < i && #[trigger] kept@[a] == self.entries@[b],
                decreases self.entries@.len() - i,
            {
                proof {
                    reveal_with_fuel(Seq::filter, 2);
                    let sub = self.entries@.subrange(0, i as int);
                    let sub1 = self.entries@.subrange(0, i + 1);
                    assert(sub1 =~= sub.push(self.entries@[i as int]));
                    assert(sub1.drop_last() =~= sub);
                    assert(sub1.last() == self.entries@[i as int]);
                }
                let (who, v): (Actor, i32) = self.entries[i];
                if v >= SENTIMENT_KEEP_THRESHOLD || v <= -SENTIMENT_KEEP_THRESHOLD {
                    proof {
                        assert forall|a: int|
                            0 <= a < kept@.len() implies (#[trigger] kept@[a]).0 != who by {
                            let b = choose|b: int|
                                0 <= b < i && #[trigger] kept@[a] == self.entries@[b];
                            assert((self.entries@[b]).0 != (self.entries@[i as int]).0);
                        }
                    }
                    kept.push((who, v));
                }
                i += 1;
            }
            proof {
                assert(self.entries@.subrange(0, self.entries@.len() as int) =~= self.entries@);
            }
            self.entries = kept;
            proof {
                assert(self.entries@ == strong);
                assert(strong.subrange(0, strong.len() as int) =~= strong);
            }
            while self.entries.len() > max
                invariant
                    self.wf(),
                    self.entries@.len() <= strong.len(),
                    self.entries@.len() >= max || self.entries@.len() == strong.len(),
                    self.entries@ == strong.subrange(0, self.entries@.len() as int),
                decreases self.entries@.len(),
            {
                let ghost pre_len = self.entries@.len();
                self.entries.pop();
                proof {
                    assert(strong.subrange(0, pre_len as int).drop_last() =~= strong.subrange(
                        0,
                        pre_len - 1,
                    ));
                }
            }
            proof {
                if strong.len() <= max {
                    assert(self.entries@ =~= strong);
                } else {
                    assert(self.entries@.len() == max);
                }
            }
        }
    }
}

pub proof fn lemma_lookup_in_range(entries: Seq<(Actor, i32)>, who: Actor)
    requires
        forall|i: int|
            0 <= i < entries.len() ==> -SENTIMENT_MAX <= (#[trigger] entries[i]).1 <= SENTIMENT_MAX,
    ensures
        -SENTIMENT_MAX <= sentiment_lookup(entries, who) <= SENTIMENT_MAX,
    decreases entries.len(),
{
    if entries.len() == 0 {
    } else if entries[0].0 == who {
    } else {
        lemma_lookup_in_range(entries.skip(1), who);
    }
}

/// How `change_by` moves an opinion: by `delta`, clamped at `cap` in the
/// direction of movement unless already beyond it.
pub open spec fn change_by_spec(v: i32, delta: i32, cap: i32) -> int {
    let moved = v + delta;
    if delta >= 0 {
        let ceiling = if v > cap {
            v as int
        } else {
            cap as int
        };
        if moved < ceiling {
            moved
        } else {
            ceiling
        }
    } else {
        let floor = if v < cap {
            v as int
        } else {
            cap as int
        };
        if moved > floor {
            moved
        } else {
            floor
        }
    }
}

proof fn lemma_lookup_update(
    entries: Seq<(Actor, i32)>,
    i: int,
    who: Actor,
    value: i32,
    other: Actor,
)
    requires
        0 <= i < entries.len(),
        entries[i].0 == who,
        forall|j: int| 0 <= j < i ==> (#[trigger] entries[j]).0 != who,
        forall|a: int, b: int|
            0 <= a < b < entries.len() ==> (#[trigger] entries[a]).0 != (#[trigger] entries[b]).0,
    ensures
        sentiment_lookup(entries.update(i, (who, value)), other) == (if other == who {
            value as int
        } else {
            sentiment_lookup(entries, other) as int
        }),
    decreases entries.len(),
{
    let post = entries.update(i, (who, value));
    if i == 0 {
        assert(post[0] == (who, value));
        if other == who {
            assert(sentiment_lookup(post, other) == value);
        } else {
            assert(post.skip(1) =~= entries.skip(1));
        }
    } else {
        assert(post[0] == entries[0]);
        assert(entries[0].0 != who);
        if entries[0].0 == other {
            assert(sentiment_lookup(post, other) == post[0].1);
            assert(sentiment_lookup(entries, other) == entries[0].1);
        } else {
            let tail = entries.skip(1);
            assert(post.skip(1) =~= tail.update(i - 1, (who, value)));
            assert(tail[i - 1] == entries[i]);
            assert forall|j: int| 0 <= j < i - 1 implies (#[trigger] tail[j]).0 != who by {
                assert(tail[j] == entries[j + 1]);
            }
            assert forall|a: int, b: int|
                0 <= a < b < tail.len() implies (#[trigger] tail[a]).0 != (
            #[trigger] tail[b]).0 by {
                assert(tail[a] == entries[a + 1]);
                assert(tail[b] == entries[b + 1]);
            }
            lemma_lookup_update(tail, i - 1, who, value, other);
        }
    }
}

proof fn lemma_lookup_append(entries: Seq<(Actor, i32)>, who: Actor, value: i32, other: Actor)
    requires
        forall|j: int| 0 <= j < entries.len() ==> (#[trigger] entries[j]).0 != who,
    ensures
        sentiment_lookup(entries.push((who, value)), other) == (if other == who {
            value as int
        } else {
            sentiment_lookup(entries, other) as int
        }),
    decreases entries.len(),
{
    let post = entries.push((who, value));
    if entries.len() == 0 {
        assert(post[0] == (who, value));
        if other == who {
            assert(sentiment_lookup(post, other) == value);
        } else {
            assert(post.skip(1) =~= Seq::<(Actor, i32)>::empty());
            assert(sentiment_lookup(Seq::<(Actor, i32)>::empty(), other) == 0);
            assert(sentiment_lookup(post, other) == 0);
        }
    } else {
        assert(post[0] == entries[0]);
        assert(entries[0].0 != who);
        if entries[0].0 == other {
            assert(sentiment_lookup(post, other) == post[0].1);
        } else {
            let tail = entries.skip(1);
            assert(post.skip(1) =~= tail.push((who, value)));
            assert forall|j: int| 0 <= j < tail.len() implies (#[trigger] tail[j]).0 != who by {
                assert(tail[j] == entries[j + 1]);
            }
            lemma_lookup_append(tail, who, value, other);
        }
    }
}

/// An NPC's persisted root action and the budget one poll may spend on
/// freshly built sub-behaviours.
#[derive(Debug, PartialEq)]
pub struct Brain {
    pub action: crate::action::Action,
}

/// One simulated character. Persistent identity and state live here; the
/// controller, inbox, brain and dialogue queue are transient and are
/// reconstructible from defaults after a reload.
#[derive(Debug)]
pub struct Npc {
    pub uid: u64,
    pub seed: u32,
    pub wpos: WPos,
    pub dir: Dir2,
    pub body: BodyTag,
    pub role: Role,
    pub home: Option<u64>,
    pub faction: Option<u64>,
    /// Health as a per-myriad fraction; at or below zero is dead.
    pub health_pm: i32,
    pub known_reports: Vec<u64>,
    pub personality: Personality,
    pub sentiments: Sentiments,
    /// A temporary employer and the time the hiring lapses.
    pub hiring: Option<(Actor, u64)>,
    pub current_site: Option<u64>,
    pub controller: crate::action::Controller,
    pub inbox: Vec<NpcInput>,
    pub mode: SimulationMode,
    pub brain: Option<Brain>,
    /// Response actions other NPCs queued for this one.
    pub npc_dialogue: Vec<(u64, crate::action::Action)>,
}

impl Npc {
    pub fn new(seed: u32, wpos: WPos, body: BodyTag, role: Role) -> (r: Npc)
        ensures
            r.uid == 0,
            r.seed == seed,
            r.wpos == wpos,
            r.body == body,
            r.role == role,
            r.home is None,
            r.faction is None,
            r.health_pm == 10000,
            r.personality == (Personality {
                openness: PERSONALITY_MID,
                conscientiousness: PERSONALITY_MID,
                extraversion: PERSONALITY_MID,
                agreeableness: PERSONALITY_MID,
                neuroticism: PERSONALITY_MID,
            }),
            r.hiring is None,
            r.current_site is None,
            r.mode == SimulationMode::Simulated,
            r.brain is None,
            r.inbox@.len() == 0,
            r.npc_dialogue@.len() == 0,
            r.sentiments.wf(),
            r.sentiments.entries@.len() == 0,
            r.dir == (Dir2 { x: 10000, y: 0 }),
            r.known_reports@.len() == 0,
            r.controller.actions@.len() == 0,
            r.controller.activity is None,
            r.controller.new_home is None,
            r.controller.look_dir is None,
            r.controller.hiring is None,
            r.controller.npc_actions@.len() == 0,
    {
        Npc {
            uid: 0,
            seed,
            wpos,
            dir: Dir2 { x: 10000, y: 0 },
            body,
            role,
            home: None,
            faction: None,
            health_pm: 10000,
            known_reports: Vec::new(),
            personality: Personality {
                openness: PERSONALITY_MID,
                conscientiousness: PERSONALITY_MID,
                extraversion: PERSONALITY_MID,
                agreeableness: PERSONALITY_MID,
                neuroticism: PERSONALITY_MID,
            },
            sentiments: Sentiments::new(),
            hiring: None,
            current_site: None,
            controller: crate::action::Controller::new(),
            inbox: Vec::new(),
            mode: SimulationMode::Simulated,
            brain: None,
            npc_dialogue: Vec::new(),
        }
    }

    pub fn is_dead(&self) -> (r: bool)
        ensures
            r == (self.health_pm <= 0),
    {
        self.health_pm <= 0
    }

    pub fn with_personality(self, personality: Personality) -> (r: Npc)
        ensures
            r == (Npc { personality, ..self }),
    {
        Npc { personality, ..self }
    }

    pub fn with_home(self, home: Option<u64>) -> (r: Npc)
        ensures
            r == (Npc { home, ..self }),
    {
        Npc { home, ..self }
    }

    pub fn with_faction(self, faction: Option<u64>) -> (r: Npc)
        ensures
            r == (Npc { faction, ..self }),
    {
        Npc { faction, ..self }
    }

    pub fn profession(&self) -> (r: Option<Profession>)
        ensures
            r == (match self.role {
                Role::Civilised(p) => p,
                _ => None::<Profession>,
            }),
    {
        match self.role {
            Role::Civilised(p) => p,
            _ => None,
        }
    }
}

/// The NPC population: a stable store with monotonically assigned uids, and
/// the mount/rider link store alongside it.
#[derive(Debug)]
pub struct Npcs {
    pub uid_counter: u64,
    pub npcs: Vec<Npc>,
    pub mounts: crate::mounting::NpcLinks,
}

impl Npcs {
    pub fn new() -> (r: Npcs)
        ensures
            r.uid_counter == 0,
            r.npcs@.len() == 0,
            r.mounts.wf(),
    {
        Npcs { uid_counter: 0, npcs: Vec::new(), mounts: crate::mounting::NpcLinks::new() }
    }

    /// Admit one NPC, assigning the next uid; uids grow monotonically and are
    /// never reused.
    pub fn create_npc(&mut self, npc: Npc) -> (uid: u64)
        requires
            old(self).uid_counter < u64::MAX,
        ensures
            uid == old(self).uid_counter,
            final(self).uid_counter == old(self).uid_counter + 1,
            final(self).npcs@ == old(self).npcs@.push(Npc { uid, ..npc }),
            final(self).mounts == old(self).mounts,
    {
        let uid = self.uid_counter;
        self.uid_counter = self.uid_counter + 1;
        let admitted = Npc { uid, ..npc };
        self.npcs.push(admitted);
        uid
    }
}

} // verus!
