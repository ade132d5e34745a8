//! The buff resolution engine: once per tick, for every entity bearing timed
//! status effects, compute the aggregate stat modifiers and emit discrete
//! change events, honouring stacking and exclusivity rules, and clean up
//! expired or invalidated buffs.
//!
//! Time is held in integer time units and rates in amount-per-time-unit, so
//! the tick-accumulation arithmetic is exact: whole effect-ticks are counted
//! by floor division, comparing the count at "time so far" against "time so
//! far minus this frame", and the fractional remainder is included only in an
//! expiring buff's final frame — otherwise it is deliberately dropped so it
//! cannot be double-counted later.

use vstd::prelude::*;

use vstd::arithmetic::div_mod::{
    lemma_div_is_ordered, lemma_fundamental_div_mod, lemma_div_multiples_vanish,
};
use crate::npc::{Actor, WPos};

verus! {

/// Fixed-point one: multipliers and fractions are scaled by this.
pub const FP_ONE: u64 = 1_000_000;

/// Times handed to the engine stay below this bound so that every amount a
/// rate effect can emit fits comfortably in 64 bits. A long-lived world must
/// rebase its clock (and its buffs' start and end stamps) before reaching it.
pub const TIME_LIMIT: u64 = 0x100_0000_0000;

/// Rates stay below this bound for the same reason.
pub const RATE_LIMIT: i64 = 0x10_0000;

/// Whether an effect amount is a flat quantity or scales against the current
/// maximum of the touched stat.
#[derive(Clone, Copy, Debug, PartialEq, Eq, Structural)]
pub enum ModifierKind {
    Additive,
    Multiplicative,
}

/// The closed set of buff kinds.
#[derive(Clone, Copy, Debug, PartialEq, Eq, Structural, Hash)]
pub enum BuffKind {
    // Harmful, over-time or control effects.
    Burning,
    Bleeding,
    Poisoned,
    Crippled,
    Frozen,
    Ensnared,
    Wet,
    // Beneficial effects.
    Regeneration,
    Saturation,
    Potion,
    Agility,
    EnergyRegen,
    IncreaseMaxHealth,
    IncreaseMaxEnergy,
    Invulnerability,
    ProtectingWard,
    Frenzied,
}

/// Whether a kind is inherently beneficial; complete damage immunity expires
/// every kind that is not.
pub open spec fn is_buff_spec(k: BuffKind) -> bool {
    match k {
        BuffKind::Regeneration | BuffKind::Saturation | BuffKind::Potion | BuffKind::Agility
            | BuffKind::EnergyRegen | BuffKind::IncreaseMaxHealth | BuffKind::IncreaseMaxEnergy
            | BuffKind::Invulnerability | BuffKind::ProtectingWard | BuffKind::Frenzied => true,
        _ => false,
    }
}

/// Whether several simultaneous instances of a kind all apply; a kind that
/// does not stack applies only its tracked strongest instance.
pub open spec fn stacks_spec(k: BuffKind) -> bool {
    match k {
        BuffKind::Bleeding | BuffKind::Poisoned | BuffKind::Burning => true,
        _ => false,
    }
}

/// Kinds whose effect can influence how later kinds are computed are
/// processed first, deterministically.
pub open spec fn affects_subsequent_buffs_spec(k: BuffKind) -> bool {
    match k {
        BuffKind::IncreaseMaxHealth | BuffKind::IncreaseMaxEnergy | BuffKind::Invulnerability => true,
        _ => false,
    }
}

impl BuffKind {
    pub fn is_buff(&self) -> (r: bool)
        ensures
            r == is_buff_spec(*self),
    {
        match self {
            BuffKind::Regeneration | BuffKind::Saturation | BuffKind::Potion | BuffKind::Agility
                | BuffKind::EnergyRegen | BuffKind::IncreaseMaxHealth
                | BuffKind::IncreaseMaxEnergy | BuffKind::Invulnerability
                | BuffKind::ProtectingWard | BuffKind::Frenzied => true,
            _ => false,
        }
    }

    pub fn stacks(&self) -> (r: bool)
        ensures
            r == stacks_spec(*self),
    {
        match self {
            BuffKind::Bleeding | BuffKind::Poisoned | BuffKind::Burning => true,
            _ => false,
        }
    }

    pub fn affects_subsequent_buffs(&self) -> (r: bool)
        ensures
            r == affects_subsequent_buffs_spec(*self),
    {
        match self {
            BuffKind::IncreaseMaxHealth | BuffKind::IncreaseMaxEnergy
                | BuffKind::Invulnerability => true,
            _ => false,
        }
    }
}

// ---- tick-accumulation arithmetic ----

/// The number of whole effect-ticks that elapse within one frame: the floor
/// count at `time_passed` minus the floor count one frame earlier. Frames
/// that cross several ticks count them all; frames that cross none count
/// zero.
pub open spec fn whole_ticks_spec(time_passed: int, dt: int, tick_dur: int) -> int
    recommends
        tick_dur > 0,
        time_passed >= 0,
        dt >= 0,
{
    let prev = if time_passed - dt > 0 {
        (time_passed - dt) / tick_dur
    } else {
        0
    };
    time_passed / tick_dur - prev
}

/// The amount a rate effect emits in one frame: the rate over every whole
/// tick crossed, plus — only when the buff expires this frame — the
/// fractional remainder of progress toward the next tick. A frame crossing
/// no tick of a continuing buff emits nothing.
pub open spec fn frame_amount_spec(
    rate: int,
    tick_dur: int,
    time_passed: int,
    dt: int,
    expiring: bool,
) -> Option<int>
    recommends
        tick_dur > 0,
{
    let whole = whole_ticks_spec(time_passed, dt, tick_dur);
    if expiring {
        Some(rate * (tick_dur * whole + time_passed % tick_dur))
    } else if whole >= 1 {
        Some(rate * (tick_dur * whole))
    } else {
        None
    }
}

/// Count the whole effect-ticks crossed within this frame.
pub fn whole_ticks(time_passed: u64, dt: u64, tick_dur: u64) -> (r: u64)
    requires
        tick_dur > 0,
    ensures
        r == whole_ticks_spec(time_passed as int, dt as int, tick_dur as int),
{
    let prev: u64 = if time_passed > dt {
        (time_passed - dt) / tick_dur
    } else {
        0
    };
    proof {
        if time_passed > dt {
            lemma_div_is_ordered((time_passed - dt) as int, time_passed as int, tick_dur as int);
        }
    }
    time_passed / tick_dur - prev
}

/// The flat amount a rate effect emits this frame, if it emits at all.
pub fn frame_amount(rate: i64, tick_dur: u64, time_passed: u64, dt: u64, expiring: bool) -> (r:
    Option<i64>)
    requires
        0 < tick_dur,
        time_passed <= TIME_LIMIT,
        -RATE_LIMIT <= rate <= RATE_LIMIT,
    ensures
        ({
            let s = frame_amount_spec(
                rate as int,
                tick_dur as int,
                time_passed as int,
                dt as int,
                expiring,
            );
            match r {
                Some(a) => s == Some(a as int),
                None => s is None,
            }
        }),
{
    let whole = whole_ticks(time_passed, dt, tick_dur);
    proof {
        lemma_fundamental_div_mod(time_passed as int, tick_dur as int);
        lemma_div_is_ordered(0, time_passed as int, tick_dur as int);
        assert(tick_dur * whole <= time_passed) by (nonlinear_arith)
            requires
                tick_dur > 0,
                time_passed >= 0,
                whole >= 0,
                whole <= time_passed as int / tick_dur as int,
                tick_dur * (time_passed as int / tick_dur as int) + time_passed as int % tick_dur as int
                    == time_passed as int,
                time_passed as int % tick_dur as int >= 0,
        ;
    }
    let units: u64 = tick_dur * whole;
    if expiring {
        let rem: u64 = time_passed % tick_dur;
        let total_units: u64 = units + rem;
        proof {
            assert(rate * (total_units as int) <= RATE_LIMIT * 2 * TIME_LIMIT)
                by (nonlinear_arith)
                requires
                    -RATE_LIMIT <= rate <= RATE_LIMIT,
                    0 <= total_units <= 2 * TIME_LIMIT,
            ;
            assert(rate * (total_units as int) >= -(RATE_LIMIT * 2 * TIME_LIMIT))
                by (nonlinear_arith)
                requires
                    -RATE_LIMIT <= rate <= RATE_LIMIT,
                    0 <= total_units <= 2 * TIME_LIMIT,
            ;
        }
        let amount: i64 = (rate as i128 * total_units as i128) as i64;
        Some(amount)
    } else if whole >= 1 {
        proof {
            assert(rate * (units as int) <= RATE_LIMIT * 2 * TIME_LIMIT) by (nonlinear_arith)
                requires
                    -RATE_LIMIT <= rate <= RATE_LIMIT,
                    0 <= units <= 2 * TIME_LIMIT,
            ;
            assert(rate * (units as int) >= -(RATE_LIMIT * 2 * TIME_LIMIT)) by (nonlinear_arith)
                requires
                    -RATE_LIMIT <= rate <= RATE_LIMIT,
                    0 <= units <= 2 * TIME_LIMIT,
            ;
        }
        let amount: i64 = (rate as i128 * units as i128) as i64;
        Some(amount)
    } else {
        None
    }
}

// ---- the accumulation laws ----

pub open spec fn seq_sum(s: Seq<int>) -> int
    decreases s.len(),
{
    if s.len() == 0 {
        0
    } else {
        s[0] + seq_sum(s.skip(1))
    }
}

/// The total a continuing (non-expiring) rate effect emits over a run of
/// frames starting from `elapsed0` of elapsed buff time. A frame that emits
/// nothing contributes zero.
pub open spec fn run_emission_spec(rate: int, tick_dur: int, dts: Seq<int>, elapsed0: int) -> int
    decreases dts.len(),
{
    if dts.len() == 0 {
        0
    } else {
        let e1 = elapsed0 + dts[0];
        let head = match frame_amount_spec(rate, tick_dur, e1, dts[0], false) {
            Some(a) => a,
            None => 0,
        };
        head + run_emission_spec(rate, tick_dur, dts.skip(1), e1)
    }
}

/// The emission of a run of frames telescopes: it depends only on where the
/// elapsed time started and ended, never on how the frames were cut.
pub proof fn lemma_run_emission_telescopes(rate: int, tick_dur: int, dts: Seq<int>, elapsed0: int)
    requires
        tick_dur > 0,
        elapsed0 >= 0,
        forall|i: int| 0 <= i < dts.len() ==> #[trigger] dts[i] >= 0,
    ensures
        run_emission_spec(rate, tick_dur, dts, elapsed0) == rate * tick_dur * (
        (elapsed0 + seq_sum(dts)) / tick_dur - elapsed0 / tick_dur),
    decreases dts.len(),
{
    if dts.len() == 0 {
        assert(rate * tick_dur * ((elapsed0 + 0) / tick_dur - elapsed0 / tick_dur) == 0)
            by (nonlinear_arith);
    } else {
        let d0 = dts[0];
        let e1 = elapsed0 + d0;
        let tail = dts.skip(1);
        assert(seq_sum(dts) == d0 + seq_sum(tail));
        assert(forall|i: int| 0 <= i < tail.len() ==> #[trigger] tail[i] >= 0) by {
            assert forall|i: int| 0 <= i < tail.len() implies #[trigger] tail[i] >= 0 by {
                assert(tail[i] == dts[i + 1]);
            }
        }
        lemma_run_emission_telescopes(rate, tick_dur, tail, e1);
        let whole = whole_ticks_spec(e1, d0, tick_dur);
        // The head frame's count is the floor difference across the frame.
        assert(whole == e1 / tick_dur - elapsed0 / tick_dur) by {
            if elapsed0 == 0 {
                assert(0int / tick_dur == 0) by (nonlinear_arith)
                    requires tick_dur > 0;
            }
        }
        let head = match frame_amount_spec(rate, tick_dur, e1, d0, false) {
            Some(a) => a,
            None => 0,
        };
        assert(head == rate * (tick_dur * whole)) by {
            if whole < 1 {
                assert(whole >= 0) by {
                    lemma_div_is_ordered(elapsed0, e1, tick_dur);
                }
                assert(rate * (tick_dur * 0) == 0) by (nonlinear_arith);
            }
        }
        let a = e1 / tick_dur;
        let b = elapsed0 / tick_dur;
        let c = (e1 + seq_sum(tail)) / tick_dur;
        assert(rate * (tick_dur * (a - b)) + rate * tick_dur * (c - a) == rate * tick_dur * (c
            - b)) by (nonlinear_arith);
        assert(elapsed0 + seq_sum(dts) == e1 + seq_sum(tail));
    }
}

/// Tick accumulation is exact under any partition: a rate effect that runs
/// for exactly `k` whole tick durations emits `rate * k * tick_dur` in total,
/// however irregularly the frames carve that time up.
pub proof fn lemma_accumulation_partition_independent(
    rate: int,
    tick_dur: int,
    dts: Seq<int>,
    k: int,
)
    requires
        tick_dur > 0,
        k >= 0,
        forall|i: int| 0 <= i < dts.len() ==> #[trigger] dts[i] >= 0,
        seq_sum(dts) == k * tick_dur,
    ensures
        run_emission_spec(rate, tick_dur, dts, 0) == rate * k * tick_dur,
{
    lemma_run_emission_telescopes(rate, tick_dur, dts, 0);
    assert(0int / tick_dur == 0) by (nonlinear_arith)
        requires
            tick_dur > 0,
    ;
    let sum = seq_sum(dts);
    assert(sum / tick_dur == k) by {
        lemma_div_multiples_vanish(k, tick_dur);
        assert(tick_dur * k == k * tick_dur) by (nonlinear_arith);
    }
    assert(run_emission_spec(rate, tick_dur, dts, 0) == rate * tick_dur * ((0 + sum) / tick_dur
        - 0int / tick_dur));
    assert((0 + sum) / tick_dur - 0int / tick_dur == k);
    assert(rate * tick_dur * k == rate * k * tick_dur) by (nonlinear_arith);
}

/// The total an expiring buff emits over its whole life: every earlier frame,
/// plus a final frame that includes the fractional partial tick. The total is
/// exactly `rate * duration` — nothing is truncated away at expiry.
pub open spec fn lifetime_emission_spec(
    rate: int,
    tick_dur: int,
    dts: Seq<int>,
    final_dt: int,
    duration: int,
) -> int {
    run_emission_spec(rate, tick_dur, dts, 0) + (match frame_amount_spec(
        rate,
        tick_dur,
        duration,
        final_dt,
        true,
    ) {
        Some(a) => a,
        None => 0,
    })
}

pub proof fn lemma_expiry_includes_fraction(
    rate: int,
    tick_dur: int,
    dts: Seq<int>,
    final_dt: int,
    duration: int,
)
    requires
        tick_dur > 0,
        final_dt >= 0,
        forall|i: int| 0 <= i < dts.len() ==> #[trigger] dts[i] >= 0,
        seq_sum(dts) + final_dt == duration,
    ensures
        lifetime_emission_spec(rate, tick_dur, dts, final_dt, duration) == rate * duration,
{
    lemma_run_emission_telescopes(rate, tick_dur, dts, 0);
    assert(0int / tick_dur == 0) by (nonlinear_arith)
        requires tick_dur > 0;
    let e_pre = seq_sum(dts);
    assert(e_pre >= 0) by {
        lemma_seq_sum_nonneg(dts);
    }
    let whole = whole_ticks_spec(duration, final_dt, tick_dur);
    assert(whole == duration / tick_dur - e_pre / tick_dur) by {
        if e_pre == 0 {
        }
    }
    lemma_fundamental_div_mod(duration, tick_dur);
    let q = duration / tick_dur;
    let p = e_pre / tick_dur;
    let m = duration % tick_dur;
    assert(rate * tick_dur * (p - 0) + rate * (tick_dur * (q - p) + m) == rate * (tick_dur * q
        + m)) by (nonlinear_arith);
    assert(tick_dur * q + m == duration);
}

pub proof fn lemma_seq_sum_nonneg(s: Seq<int>)
    requires
        forall|i: int| 0 <= i < s.len() ==> #[trigger] s[i] >= 0,
    ensures
        seq_sum(s) >= 0,
    decreases s.len(),
{
    if s.len() > 0 {
        assert forall|i: int| 0 <= i < s.skip(1).len() implies #[trigger] s.skip(1)[i] >= 0 by {
            assert(s.skip(1)[i] == s[i + 1]);
        }
        lemma_seq_sum_nonneg(s.skip(1));
    }
}

// ---- buffs, stats and events ----

/// Where a buff came from, for attribution of its consequences.
#[derive(Clone, Copy, Debug, PartialEq, Eq, Structural)]
pub enum BuffSource {
    World,
    Character(Actor),
}

/// A category tag used for conditional removal.
#[derive(Clone, Copy, Debug, PartialEq, Eq, Structural)]
pub enum BuffCategory {
    Natural,
    Physical,
    Magical,
    PersistOnDeath,
    /// Tied to an aura projected by an actor; the second field names the aura.
    FromActiveAura(Actor, u64),
    /// Tied to a link record; dissolves with it.
    FromLink(u64),
}

/// One effect descriptor applied on each qualifying tick. Rates are amounts
/// per time unit; multipliers and fractions are fixed-point against
/// [`FP_ONE`]; opaque payloads (bodies, effect recipes) are carried as ids.
#[derive(Clone, Copy, Debug, PartialEq, Eq, Structural)]
pub enum BuffEffect {
    HealthChangeOverTime { rate: i64, kind: ModifierKind, instance: u64, tick_dur: u64 },
    EnergyChangeOverTime { rate: i64, kind: ModifierKind, tick_dur: u64, reset_rate_on_tick: bool },
    ComboChangeOverTime { rate: i64, tick_dur: u64 },
    MaxHealthModifier { value: i64, kind: ModifierKind },
    MaxEnergyModifier { value: i64, kind: ModifierKind },
    DamageReduction(i64),
    MovementSpeed(u64),
    AttackSpeed(u64),
    RecoverySpeed(u64),
    GroundFriction(u64),
    PoiseReduction(i64),
    PoiseDamageFromLostHealth(u64),
    AttackDamage(u64),
    PrecisionOverride(u64),
    PrecisionVulnerabilityOverride(u64),
    BodyChange(u64),
    BuffImmunity(BuffKind),
    SwimSpeed(u64),
    AttackPoise(u64),
    MitigationsPenetration(u64),
    EnergyReward(u64),
    AttackEffect(u64),
    DamagedEffect(u64),
    DeathEffect(u64),
    DisableAuxiliaryAbilities,
    CrowdControlResistance(u64),
    ItemEffectReduction(u64),
}

/// Bounds under which every amount the engine computes fits its type.
pub open spec fn effect_wf(e: BuffEffect) -> bool {
    match e {
        BuffEffect::HealthChangeOverTime { rate, tick_dur, .. } => 0 < tick_dur
            && -RATE_LIMIT <= rate <= RATE_LIMIT,
        BuffEffect::EnergyChangeOverTime { rate, tick_dur, .. } => 0 < tick_dur
            && -RATE_LIMIT <= rate <= RATE_LIMIT,
        BuffEffect::ComboChangeOverTime { rate, tick_dur } => 0 < tick_dur && -RATE_LIMIT <= rate
            <= RATE_LIMIT,
        BuffEffect::MaxHealthModifier { value, .. } => -RATE_LIMIT <= value <= RATE_LIMIT,
        BuffEffect::MaxEnergyModifier { value, .. } => -RATE_LIMIT <= value <= RATE_LIMIT,
        BuffEffect::DamageReduction(dr) => -(FP_ONE as i64) <= dr <= FP_ONE as i64,
        BuffEffect::PoiseReduction(pr) => -(FP_ONE as i64) <= pr <= FP_ONE as i64,
        BuffEffect::MovementSpeed(m) | BuffEffect::AttackSpeed(m) | BuffEffect::RecoverySpeed(m)
            | BuffEffect::GroundFriction(m) | BuffEffect::PoiseDamageFromLostHealth(m)
            | BuffEffect::AttackDamage(m) | BuffEffect::SwimSpeed(m) | BuffEffect::AttackPoise(m)
            | BuffEffect::EnergyReward(m) => m <= 0x1_0000_0000,
        BuffEffect::MitigationsPenetration(m) | BuffEffect::ItemEffectReduction(m) => m <= FP_ONE,
        BuffEffect::CrowdControlResistance(c) => c <= FP_ONE,
        _ => true,
    }
}

/// One active timed effect instance on an entity.
#[derive(Debug, PartialEq)]
pub struct Buff {
    pub kind: BuffKind,
    /// Fixed-point strength, the tracked ordering key for exclusivity.
    pub strength: u64,
    pub start_time: u64,
    pub end_time: Option<u64>,
    pub source: BuffSource,
    pub cat_ids: Vec<BuffCategory>,
    pub effects: Vec<BuffEffect>,
}

pub open spec fn buff_wf(b: Buff) -> bool {
    b.start_time <= TIME_LIMIT && (match b.end_time {
        Some(e) => e <= TIME_LIMIT,
        None => true,
    }) && (forall|i: int| 0 <= i < b.effects@.len() ==> effect_wf(#[trigger] b.effects@[i]))
}

/// What the engine reads of an entity's health.
#[derive(Clone, Copy, Debug, PartialEq, Eq, Structural)]
pub struct HealthInfo {
    pub maximum: u64,
    pub base_max: u64,
    /// Current health as a fixed-point fraction of the maximum.
    pub fraction_fp: u64,
    pub is_dead: bool,
}

pub open spec fn health_wf(h: HealthInfo) -> bool {
    h.maximum <= TIME_LIMIT && h.base_max <= TIME_LIMIT && 0 < h.base_max && h.fraction_fp
        <= FP_ONE
}

#[derive(Clone, Copy, Debug, PartialEq, Eq, Structural)]
pub struct EnergyInfo {
    pub maximum: u64,
}

pub open spec fn energy_wf(e: EnergyInfo) -> bool {
    e.maximum <= TIME_LIMIT
}

/// A discrete change request emitted toward downstream systems. The engine
/// never mutates health, energy or the buff store directly: its output is
/// events, preserving single-writer discipline on those components.
#[derive(Debug, PartialEq)]
pub enum OutEvent {
    Health { amount: i64, by: Option<Actor>, cause: Option<BuffKind>, time: u64, instance: u64 },
    Energy { amount: i64, reset_rate: bool },
    Combo { amount: i64 },
    RemoveByKind(BuffKind),
    BodyChange { new_body: u64 },
    /// Batched removal of the buffs that expired this tick.
    RemoveByKeys(Vec<u64>),
    /// On death: strip every buff not tagged to persist.
    RemoveNotPersistent,
    /// A buff whose conditional source lapsed continues as a plain buff: the
    /// replacement to add, alongside the removal of the original key.
    AddDetached { old_key: u64, buff: Buff },
    /// An environmental buff request: the fixed contact-state mapping asks
    /// for this kind at this strength.
    AddBuff { kind: BuffKind, strength: u64, duration: Option<u64>, natural: bool },
}

/// The transient per-tick stat aggregate, recomputed from scratch every tick.
#[derive(Debug, PartialEq)]
pub struct Stats {
    pub max_health_add: i64,
    pub max_health_mult: u64,
    pub max_energy_add: i64,
    pub max_energy_mult: u64,
    pub damage_reduction_pos: i64,
    pub damage_reduction_neg: i64,
    pub move_speed_mult: u64,
    pub attack_speed_mult: u64,
    pub recovery_speed_mult: u64,
    pub friction_mult: u64,
    pub poise_reduction_pos: i64,
    pub poise_reduction_neg: i64,
    pub poise_damage_mult: u64,
    pub attack_damage_mult: u64,
    pub precision_override: Option<u64>,
    pub precision_vulnerability_override: Option<u64>,
    pub swim_speed_mult: u64,
    pub mitigations_penetration: u64,
    pub energy_reward_mult: u64,
    pub crowd_control_resistance: u64,
    pub item_effect_reduction: u64,
    pub disable_auxiliary_abilities: bool,
    pub effects_on_attack: Vec<u64>,
    pub effects_on_damaged: Vec<u64>,
    pub effects_on_death: Vec<u64>,
}

/// The mathematical model of the stat aggregate.
pub struct StatsV {
    pub max_health_add: i64,
    pub max_health_mult: u64,
    pub max_energy_add: i64,
    pub max_energy_mult: u64,
    pub damage_reduction_pos: i64,
    pub damage_reduction_neg: i64,
    pub move_speed_mult: u64,
    pub attack_speed_mult: u64,
    pub recovery_speed_mult: u64,
    pub friction_mult: u64,
    pub poise_reduction_pos: i64,
    pub poise_reduction_neg: i64,
    pub poise_damage_mult: u64,
    pub attack_damage_mult: u64,
    pub precision_override: Option<u64>,
    pub precision_vulnerability_override: Option<u64>,
    pub swim_speed_mult: u64,
    pub mitigations_penetration: u64,
    pub energy_reward_mult: u64,
    pub crowd_control_resistance: u64,
    pub item_effect_reduction: u64,
    pub disable_auxiliary_abilities: bool,
    pub effects_on_attack: Seq<u64>,
    pub effects_on_damaged: Seq<u64>,
    pub effects_on_death: Seq<u64>,
}

impl View for Stats {
    type V = StatsV;

    open spec fn view(&self) -> StatsV {
        StatsV {
            max_health_add: self.max_health_add,
            max_health_mult: self.max_health_mult,
            max_energy_add: self.max_energy_add,
            max_energy_mult: self.max_energy_mult,
            damage_reduction_pos: self.damage_reduction_pos,
            damage_reduction_neg: self.damage_reduction_neg,
            move_speed_mult: self.move_speed_mult,
            attack_speed_mult: self.attack_speed_mult,
            recovery_speed_mult: self.recovery_speed_mult,
            friction_mult: self.friction_mult,
            poise_reduction_pos: self.poise_reduction_pos,
            poise_reduction_neg: self.poise_reduction_neg,
            poise_damage_mult: self.poise_damage_mult,
            attack_damage_mult: self.attack_damage_mult,
            precision_override: self.precision_override,
            precision_vulnerability_override: self.precision_vulnerability_override,
            swim_speed_mult: self.swim_speed_mult,
            mitigations_penetration: self.mitigations_penetration,
            energy_reward_mult: self.energy_reward_mult,
            crowd_control_resistance: self.crowd_control_resistance,
            item_effect_reduction: self.item_effect_reduction,
            disable_auxiliary_abilities: self.disable_auxiliary_abilities,
            effects_on_attack: self.effects_on_attack@,
            effects_on_damaged: self.effects_on_damaged@,
            effects_on_death: self.effects_on_death@,
        }
    }
}

/// The neutral aggregate every tick starts from.
pub open spec fn stats_base_spec() -> StatsV {
    StatsV {
        max_health_add: 0,
        max_health_mult: FP_ONE,
        max_energy_add: 0,
        max_energy_mult: FP_ONE,
        damage_reduction_pos: 0,
        damage_reduction_neg: 0,
        move_speed_mult: FP_ONE,
        attack_speed_mult: FP_ONE,
        recovery_speed_mult: FP_ONE,
        friction_mult: FP_ONE,
        poise_reduction_pos: 0,
        poise_reduction_neg: 0,
        poise_damage_mult: FP_ONE,
        attack_damage_mult: FP_ONE,
        precision_override: None,
        precision_vulnerability_override: None,
        swim_speed_mult: FP_ONE,
        mitigations_penetration: 0,
        energy_reward_mult: FP_ONE,
        crowd_control_resistance: 0,
        item_effect_reduction: FP_ONE,
        disable_auxiliary_abilities: false,
        effects_on_attack: Seq::empty(),
        effects_on_damaged: Seq::empty(),
        effects_on_death: Seq::empty(),
    }
}

impl Stats {
    pub fn new() -> (r: Stats)
        ensures
            r@ == stats_base_spec(),
    {
        let r = Stats {
            max_health_add: 0,
            max_health_mult: FP_ONE,
            max_energy_add: 0,
            max_energy_mult: FP_ONE,
            damage_reduction_pos: 0,
            damage_reduction_neg: 0,
            move_speed_mult: FP_ONE,
            attack_speed_mult: FP_ONE,
            recovery_speed_mult: FP_ONE,
            friction_mult: FP_ONE,
            poise_reduction_pos: 0,
            poise_reduction_neg: 0,
            poise_damage_mult: FP_ONE,
            attack_damage_mult: FP_ONE,
            precision_override: None,
            precision_vulnerability_override: None,
            swim_speed_mult: FP_ONE,
            mitigations_penetration: 0,
            energy_reward_mult: FP_ONE,
            crowd_control_resistance: 0,
            item_effect_reduction: FP_ONE,
            disable_auxiliary_abilities: false,
            effects_on_attack: Vec::new(),
            effects_on_damaged: Vec::new(),
            effects_on_death: Vec::new(),
        };
        proof {
            assert(r@.effects_on_attack =~= Seq::<u64>::empty());
            assert(r@.effects_on_damaged =~= Seq::<u64>::empty());
            assert(r@.effects_on_death =~= Seq::<u64>::empty());
        }
        r
    }

    /// Reset to base values: stat modifiers are recomputed from scratch every
    /// tick, never accumulated across ticks.
    pub fn reset_temp_modifiers(&mut self)
        ensures
            final(self)@ == stats_base_spec(),
    {
        *self = Stats::new();
    }
}

/// Fixed-point multiplication of two scaled factors, saturating far beyond
/// any factor the rules produce.
pub open spec fn mul_fp_spec(a: u64, b: u64) -> u64 {
    let p = (a * b) / (FP_ONE as int);
    if p > u64::MAX {
        u64::MAX
    } else {
        p as u64
    }
}

pub fn mul_fp(a: u64, b: u64) -> (r: u64)
    ensures
        r == mul_fp_spec(a, b),
{
    proof {
        assert(a as int * b as int <= 0xFFFF_FFFF_FFFF_FFFFu64 as int
            * 0xFFFF_FFFF_FFFF_FFFFu64 as int) by (nonlinear_arith)
            requires
                0 <= a <= 0xFFFF_FFFF_FFFF_FFFFu64,
                0 <= b <= 0xFFFF_FFFF_FFFF_FFFFu64,
        ;
        assert(a as int * b as int >= 0) by (nonlinear_arith)
            requires
                a >= 0,
                b >= 0,
        ;
    }
    let wide: u128 = (a as u128 * b as u128) / (FP_ONE as u128);
    proof {
        assert((a as int * b as int) / (FP_ONE as int) >= 0);
    }
    if wide > u64::MAX as u128 {
        u64::MAX
    } else {
        wide as u64
    }
}

/// Clamp an unbounded amount into the signed 64-bit range.
pub open spec fn clamp_i64_spec(x: int) -> i64 {
    if x > i64::MAX {
        i64::MAX
    } else if x < i64::MIN {
        i64::MIN
    } else {
        x as i64
    }
}

/// Saturating subtraction on scaled factors.
pub open spec fn sub_clamp_spec(a: u64, b: u64) -> u64 {
    if b > a {
        0
    } else {
        (a - b) as u64
    }
}

pub fn sub_clamp(a: u64, b: u64) -> (r: u64)
    ensures
        r == sub_clamp_spec(a, b),
{
    if b > a {
        0
    } else {
        a - b
    }
}

/// Saturating addition of signed accumulators.
pub open spec fn sat_add_i64_spec(a: i64, b: i64) -> i64 {
    clamp_i64_spec(a + b)
}

pub fn sat_add_i64(a: i64, b: i64) -> (r: i64)
    ensures
        r == sat_add_i64_spec(a, b),
{
    let wide: i128 = a as i128 + b as i128;
    if wide > i64::MAX as i128 {
        i64::MAX
    } else if wide < i64::MIN as i128 {
        i64::MIN
    } else {
        wide as i64
    }
}

/// Saturating addition of unsigned accumulators.
pub open spec fn sat_add_u64_spec(a: u64, b: u64) -> u64 {
    if a + b > u64::MAX {
        u64::MAX
    } else {
        (a + b) as u64
    }
}

pub fn sat_add_u64(a: u64, b: u64) -> (r: u64)
    ensures
        r == sat_add_u64_spec(a, b),
{
    if a <= u64::MAX - b {
        a + b
    } else {
        u64::MAX
    }
}

/// Scale a flat frame amount by the touched stat's maximum when the modifier
/// kind asks for it, clamped into range.
pub open spec fn scaled_amount_spec(kind: ModifierKind, flat: i64, max: u64) -> i64 {
    match kind {
        ModifierKind::Additive => flat,
        ModifierKind::Multiplicative => {
            if flat >= 0 {
                clamp_i64_spec((max * flat) / (FP_ONE as int))
            } else {
                clamp_i64_spec(-((max * -flat) / (FP_ONE as int)))
            }
        },
    }
}

pub fn scaled_amount(kind: ModifierKind, flat: i64, max: u64) -> (r: i64)
    ensures
        r == scaled_amount_spec(kind, flat, max),
{
    match kind {
        ModifierKind::Additive => flat,
        ModifierKind::Multiplicative => {
            if flat >= 0 {
                proof {
                    assert(max as int * flat as int >= 0 && max as int * flat as int <= u64::MAX
                        as int * i64::MAX as int) by (nonlinear_arith)
                        requires
                            0 <= max <= u64::MAX,
                            0 <= flat <= i64::MAX,
                    ;
                }
                let wide: u128 = (max as u128 * flat as u128) / (FP_ONE as u128);
                if wide > i64::MAX as u128 {
                    proof {
                        assert((max as int * flat as int) / (FP_ONE as int) == wide as int);
                    }
                    i64::MAX
                } else {
                    wide as i64
                }
            } else {
                let neg: u128 = if flat == i64::MIN {
                    0x8000_0000_0000_0000u128
                } else {
                    (-flat) as u128
                };
                proof {
                    assert(max as int * neg as int >= 0 && max as int * neg as int <= u64::MAX
                        as int * 0x8000_0000_0000_0000u128 as int) by (nonlinear_arith)
                        requires
                            0 <= max <= u64::MAX,
                            0 <= neg <= 0x8000_0000_0000_0000u128,
                    ;
                }
                let wide: u128 = (max as u128 * neg as u128) / (FP_ONE as u128);
                if wide >= 0x8000_0000_0000_0000u128 {
                    i64::MIN
                } else {
                    -(wide as i64)
                }
            }
        },
    }
}

/// The bit a buff kind occupies in a presence mask.
pub open spec fn kind_bit_spec(k: BuffKind) -> u32 {
    match k {
        BuffKind::Burning => 0x1u32,
        BuffKind::Bleeding => 0x2u32,
        BuffKind::Poisoned => 0x4u32,
        BuffKind::Crippled => 0x8u32,
        BuffKind::Frozen => 0x10u32,
        BuffKind::Ensnared => 0x20u32,
        BuffKind::Wet => 0x40u32,
        BuffKind::Regeneration => 0x80u32,
        BuffKind::Saturation => 0x100u32,
        BuffKind::Potion => 0x200u32,
        BuffKind::Agility => 0x400u32,
        BuffKind::EnergyRegen => 0x800u32,
        BuffKind::IncreaseMaxHealth => 0x1000u32,
        BuffKind::IncreaseMaxEnergy => 0x2000u32,
        BuffKind::Invulnerability => 0x4000u32,
        BuffKind::ProtectingWard => 0x8000u32,
        BuffKind::Frenzied => 0x10000u32,
    }
}

pub fn kind_bit(k: BuffKind) -> (b: u32)
    ensures
        b == kind_bit_spec(k),
{
    match k {
        BuffKind::Burning => 0x1,
        BuffKind::Bleeding => 0x2,
        BuffKind::Poisoned => 0x4,
        BuffKind::Crippled => 0x8,
        BuffKind::Frozen => 0x10,
        BuffKind::Ensnared => 0x20,
        BuffKind::Wet => 0x40,
        BuffKind::Regeneration => 0x80,
        BuffKind::Saturation => 0x100,
        BuffKind::Potion => 0x200,
        BuffKind::Agility => 0x400,
        BuffKind::EnergyRegen => 0x800,
        BuffKind::IncreaseMaxHealth => 0x1000,
        BuffKind::IncreaseMaxEnergy => 0x2000,
        BuffKind::Invulnerability => 0x4000,
        BuffKind::ProtectingWard => 0x8000,
        BuffKind::Frenzied => 0x10000,
    }
}

/// What one effect of one active buff does to the aggregates, the body
/// override and the outgoing event queue.
pub open spec fn execute_effect_spec(
    effect: BuffEffect,
    buff_kind: BuffKind,
    buff_start_time: u64,
    stat: StatsV,
    current_body: u64,
    body_override: Option<u64>,
    health: HealthInfo,
    energy: EnergyInfo,
    buff_owner: Option<Actor>,
    events: Seq<OutEvent>,
    dt: u64,
    time: u64,
    expiring: bool,
    kinds_present: u32,
) -> (StatsV, Option<u64>, Seq<OutEvent>)
    recommends
        buff_start_time <= time,
{
    let time_passed = if time >= buff_start_time {
        (time - buff_start_time) as u64
    } else {
        0u64
    };
    match effect {
        BuffEffect::HealthChangeOverTime { rate, kind, instance, tick_dur } => {
            match frame_amount_spec(rate as int, tick_dur as int, time_passed as int, dt as int, expiring) {
                Some(flat) => {
                    let amount = scaled_amount_spec(kind, clamp_i64_spec(flat), health.maximum);
                    let cause = if flat != 0 {
                        Some(buff_kind)
                    } else {
                        None
                    };
                    let by = if flat != 0 {
                        buff_owner
                    } else {
                        None
                    };
                    (
                        stat,
                        body_override,
                        events.push(OutEvent::Health { amount, by, cause, time, instance }),
                    )
                },
                None => (stat, body_override, events),
            }
        },
        BuffEffect::EnergyChangeOverTime { rate, kind, tick_dur, reset_rate_on_tick } => {
            match frame_amount_spec(rate as int, tick_dur as int, time_passed as int, dt as int, expiring) {
                Some(flat) => {
                    let amount = scaled_amount_spec(kind, clamp_i64_spec(flat), energy.maximum);
                    (
                        stat,
                        body_override,
                        events.push(OutEvent::Energy { amount, reset_rate: reset_rate_on_tick }),
                    )
                },
                None => (stat, body_override, events),
            }
        },
        BuffEffect::ComboChangeOverTime { rate, tick_dur } => {
            match frame_amount_spec(rate as int, tick_dur as int, time_passed as int, dt as int, expiring) {
                Some(flat) => (
                    stat,
                    body_override,
                    events.push(OutEvent::Combo { amount: clamp_i64_spec(flat) }),
                ),
                None => (stat, body_override, events),
            }
        },
        BuffEffect::MaxHealthModifier { value, kind } => {
            match kind {
                ModifierKind::Additive => (
                    StatsV { max_health_add: sat_add_i64_spec(stat.max_health_add, value), ..stat },
                    body_override,
                    events,
                ),
                ModifierKind::Multiplicative => (
                    StatsV {
                        max_health_mult: mul_fp_spec(
                            stat.max_health_mult,
                            if value >= 0 {
                                value as u64
                            } else {
                                0u64
                            },
                        ),
                        ..stat
                    },
                    body_override,
                    events,
                ),
            }
        },
        BuffEffect::MaxEnergyModifier { value, kind } => {
            match kind {
                ModifierKind::Additive => (
                    StatsV { max_energy_add: sat_add_i64_spec(stat.max_energy_add, value), ..stat },
                    body_override,
                    events,
                ),
                ModifierKind::Multiplicative => (
                    StatsV {
                        max_energy_mult: mul_fp_spec(
                            stat.max_energy_mult,
                            if value >= 0 {
                                value as u64
                            } else {
                                0u64
                            },
                        ),
                        ..stat
                    },
                    body_override,
                    events,
                ),
            }
        },
        BuffEffect::DamageReduction(dr) => {
            if dr > 0 {
                let pos = if stat.damage_reduction_pos >= dr {
                    stat.damage_reduction_pos
                } else {
                    dr
                };
                (StatsV { damage_reduction_pos: pos, ..stat }, body_override, events)
            } else {
                (
                    StatsV {
                        damage_reduction_neg: sat_add_i64_spec(stat.damage_reduction_neg, dr),
                        ..stat
                    },
                    body_override,
                    events,
                )
            }
        },
        BuffEffect::MovementSpeed(m) => (
            StatsV { move_speed_mult: mul_fp_spec(stat.move_speed_mult, m), ..stat },
            body_override,
            events,
        ),
        BuffEffect::AttackSpeed(m) => (
            StatsV { attack_speed_mult: mul_fp_spec(stat.attack_speed_mult, m), ..stat },
            body_override,
            events,
        ),
        BuffEffect::RecoverySpeed(m) => (
            StatsV { recovery_speed_mult: mul_fp_spec(stat.recovery_speed_mult, m), ..stat },
            body_override,
            events,
        ),
        BuffEffect::GroundFriction(m) => (
            StatsV { friction_mult: mul_fp_spec(stat.friction_mult, m), ..stat },
            body_override,
            events,
        ),
        BuffEffect::PoiseReduction(pr) => {
            if pr > 0 {
                let pos = if stat.poise_reduction_pos >= pr {
                    stat.poise_reduction_pos
                } else {
                    pr
                };
                (StatsV { poise_reduction_pos: pos, ..stat }, body_override, events)
            } else {
                (
                    StatsV {
                        poise_reduction_neg: sat_add_i64_spec(stat.poise_reduction_neg, pr),
                        ..stat
                    },
                    body_override,
                    events,
                )
            }
        },
        BuffEffect::PoiseDamageFromLostHealth(strength) => {
            let factor = sat_add_u64_spec(
                FP_ONE,
                mul_fp_spec(sub_clamp_spec(FP_ONE, health.fraction_fp), strength),
            );
            (
                StatsV { poise_damage_mult: mul_fp_spec(stat.poise_damage_mult, factor), ..stat },
                body_override,
                events,
            )
        },
        BuffEffect::AttackDamage(m) => (
            StatsV { attack_damage_mult: mul_fp_spec(stat.attack_damage_mult, m), ..stat },
            body_override,
            events,
        ),
        BuffEffect::PrecisionOverride(v) => {
            let new = match stat.precision_override {
                Some(old) => if old <= v {
                    old
                } else {
                    v
                },
                None => v,
            };
            (StatsV { precision_override: Some(new), ..stat }, body_override, events)
        },
        BuffEffect::PrecisionVulnerabilityOverride(v) => {
            let new = match stat.precision_vulnerability_override {
                Some(old) => if old >= v {
                    old
                } else {
                    v
                },
                None => v,
            };
            (
                StatsV { precision_vulnerability_override: Some(new), ..stat },
                body_override,
                events,
            )
        },
        BuffEffect::BodyChange(b) => {
            let new_override = if body_override != Some(current_body) {
                Some(b)
            } else {
                body_override
            };
            (stat, new_override, events)
        },
        BuffEffect::BuffImmunity(k) => {
            if kinds_present & kind_bit_spec(k) != 0 {
                (stat, body_override, events.push(OutEvent::RemoveByKind(k)))
            } else {
                (stat, body_override, events)
            }
        },
        BuffEffect::SwimSpeed(m) => (
            StatsV { swim_speed_mult: mul_fp_spec(stat.swim_speed_mult, m), ..stat },
            body_override,
            events,
        ),
        BuffEffect::AttackPoise(m) => (
            StatsV { poise_damage_mult: mul_fp_spec(stat.poise_damage_mult, m), ..stat },
            body_override,
            events,
        ),
        BuffEffect::MitigationsPenetration(mp) => {
            let new = sub_clamp_spec(
                FP_ONE,
                mul_fp_spec(
                    sub_clamp_spec(FP_ONE, stat.mitigations_penetration),
                    sub_clamp_spec(FP_ONE, mp),
                ),
            );
            (StatsV { mitigations_penetration: new, ..stat }, body_override, events)
        },
        BuffEffect::EnergyReward(m) => (
            StatsV { energy_reward_mult: mul_fp_spec(stat.energy_reward_mult, m), ..stat },
            body_override,
            events,
        ),
        BuffEffect::AttackEffect(id) => (
            StatsV { effects_on_attack: stat.effects_on_attack.push(id), ..stat },
            body_override,
            events,
        ),
        BuffEffect::DamagedEffect(id) => (
            StatsV { effects_on_damaged: stat.effects_on_damaged.push(id), ..stat },
            body_override,
            events,
        ),
        BuffEffect::DeathEffect(id) => (
            StatsV { effects_on_death: stat.effects_on_death.push(id), ..stat },
            body_override,
            events,
        ),
        BuffEffect::DisableAuxiliaryAbilities => (
            StatsV { disable_auxiliary_abilities: true, ..stat },
            body_override,
            events,
        ),
        BuffEffect::CrowdControlResistance(c) => (
            StatsV {
                crowd_control_resistance: sat_add_u64_spec(stat.crowd_control_resistance, c),
                ..stat
            },
            body_override,
            events,
        ),
        BuffEffect::ItemEffectReduction(ier) => (
            StatsV {
                item_effect_reduction: mul_fp_spec(
                    stat.item_effect_reduction,
                    sub_clamp_spec(FP_ONE, ier),
                ),
                ..stat
            },
            body_override,
            events,
        ),
    }
}

/// Execute one effect of one active buff, exactly as the model says.
#[verifier::rlimit(100)]
#[verifier::spinoff_prover]
pub fn execute_effect(
    effect: &BuffEffect,
    buff_kind: BuffKind,
    buff_start_time: u64,
    stat: &mut Stats,
    current_body: u64,
    body_override: &mut Option<u64>,
    health: &HealthInfo,
    energy: &EnergyInfo,
    buff_owner: Option<Actor>,
    events: &mut Vec<OutEvent>,
    dt: u64,
    time: u64,
    expiring: bool,
    kinds_present: u32,
)
    requires
        effect_wf(*effect),
        buff_start_time <= time,
        time <= TIME_LIMIT,
    ensures
        ({
            let (s2, b2, e2) = execute_effect_spec(
                *effect,
                buff_kind,
                buff_start_time,
                old(stat)@,
                current_body,
                *old(body_override),
                *health,
                *energy,
                buff_owner,
                old(events)@,
                dt,
                time,
                expiring,
                kinds_present,
            );
            final(stat)@ == s2 && *final(body_override) == b2 && final(events)@ == e2
        }),
{
    let time_passed: u64 = time - buff_start_time;
    match effect {
        BuffEffect::HealthChangeOverTime { rate, kind, instance, tick_dur } => {
            match frame_amount(*rate, *tick_dur, time_passed, dt, expiring) {
                Some(flat) => {
                    let amount = scaled_amount(*kind, flat, health.maximum);
                    let cause = if flat != 0 {
                        Some(buff_kind)
                    } else {
                        None
                    };
                    let by = if flat != 0 {
                        buff_owner
                    } else {
                        None
                    };
                    events.push(OutEvent::Health { amount, by, cause, time, instance: *instance });
                },
                None => {},
            }
        },
        BuffEffect::EnergyChangeOverTime { rate, kind, tick_dur, reset_rate_on_tick } => {
            match frame_amount(*rate, *tick_dur, time_passed, dt, expiring) {
                Some(flat) => {
                    let amount = scaled_amount(*kind, flat, energy.maximum);
                    events.push(OutEvent::Energy { amount, reset_rate: *reset_rate_on_tick });
                },
                None => {},
            }
        },
        BuffEffect::ComboChangeOverTime { rate, tick_dur } => {
            match frame_amount(*rate, *tick_dur, time_passed, dt, expiring) {
                Some(flat) => {
                    events.push(OutEvent::Combo { amount: flat });
                },
                None => {},
            }
        },
        BuffEffect::MaxHealthModifier { value, kind } => {
            match kind {
                ModifierKind::Additive => {
                    stat.max_health_add = sat_add_i64(stat.max_health_add, *value);
                },
                ModifierKind::Multiplicative => {
                    let v: u64 = if *value >= 0 {
                        *value as u64
                    } else {
                        0
                    };
                    stat.max_health_mult = mul_fp(stat.max_health_mult, v);
                },
            }
        },
        BuffEffect::MaxEnergyModifier { value, kind } => {
            match kind {
                ModifierKind::Additive => {
                    stat.max_energy_add = sat_add_i64(stat.max_energy_add, *value);
                },
                ModifierKind::Multiplicative => {
                    let v: u64 = if *value >= 0 {
                        *value as u64
                    } else {
                        0
                    };
                    stat.max_energy_mult = mul_fp(stat.max_energy_mult, v);
                },
            }
        },
        BuffEffect::DamageReduction(dr) => {
            if *dr > 0 {
                if stat.damage_reduction_pos < *dr {
                    stat.damage_reduction_pos = *dr;
                }
            } else {
                stat.damage_reduction_neg = sat_add_i64(stat.damage_reduction_neg, *dr);
            }
        },
        BuffEffect::MovementSpeed(m) => {
            stat.move_speed_mult = mul_fp(stat.move_speed_mult, *m);
        },
        BuffEffect::AttackSpeed(m) => {
            stat.attack_speed_mult = mul_fp(stat.attack_speed_mult, *m);
        },
        BuffEffect::RecoverySpeed(m) => {
            stat.recovery_speed_mult = mul_fp(stat.recovery_speed_mult, *m);
        },
        BuffEffect::GroundFriction(m) => {
            stat.friction_mult = mul_fp(stat.friction_mult, *m);
        },
        BuffEffect::PoiseReduction(pr) => {
            if *pr > 0 {
                if stat.poise_reduction_pos < *pr {
                    stat.poise_reduction_pos = *pr;
                }
            } else {
                stat.poise_reduction_neg = sat_add_i64(stat.poise_reduction_neg, *pr);
            }
        },
        BuffEffect::PoiseDamageFromLostHealth(strength) => {
            let factor = sat_add_u64(
                FP_ONE,
                mul_fp(sub_clamp(FP_ONE, health.fraction_fp), *strength),
            );
            stat.poise_damage_mult = mul_fp(stat.poise_damage_mult, factor);
        },
        BuffEffect::AttackDamage(m) => {
            stat.attack_damage_mult = mul_fp(stat.attack_damage_mult, *m);
        },
        BuffEffect::PrecisionOverride(v) => {
            let new: u64 = match stat.precision_override {
                Some(old) => if old <= *v {
                    old
                } else {
                    *v
                },
                None => *v,
            };
            stat.precision_override = Some(new);
        },
        BuffEffect::PrecisionVulnerabilityOverride(v) => {
            let new: u64 = match stat.precision_vulnerability_override {
                Some(old) => if old >= *v {
                    old
                } else {
                    *v
                },
                None => *v,
            };
            stat.precision_vulnerability_override = Some(new);
        },
        BuffEffect::BodyChange(b) => {
            let differs: bool = match body_override {
                Some(bo) => *bo != current_body,
                None => true,
            };
            if differs {
                *body_override = Some(*b);
            }
        },
        BuffEffect::BuffImmunity(k) => {
            if kinds_present & kind_bit(*k) != 0 {
                events.push(OutEvent::RemoveByKind(*k));
            }
        },
        BuffEffect::SwimSpeed(m) => {
            stat.swim_speed_mult = mul_fp(stat.swim_speed_mult, *m);
        },
        BuffEffect::AttackPoise(m) => {
            stat.poise_damage_mult = mul_fp(stat.poise_damage_mult, *m);
        },
        BuffEffect::MitigationsPenetration(mp) => {
            stat.mitigations_penetration = sub_clamp(
                FP_ONE,
                mul_fp(
                    sub_clamp(FP_ONE, stat.mitigations_penetration),
                    sub_clamp(FP_ONE, *mp),
                ),
            );
        },
        BuffEffect::EnergyReward(m) => {
            stat.energy_reward_mult = mul_fp(stat.energy_reward_mult, *m);
        },
        BuffEffect::AttackEffect(id) => {
            stat.effects_on_attack.push(*id);
        },
        BuffEffect::DamagedEffect(id) => {
            stat.effects_on_damaged.push(*id);
        },
        BuffEffect::DeathEffect(id) => {
            stat.effects_on_death.push(*id);
        },
        BuffEffect::DisableAuxiliaryAbilities => {
            stat.disable_auxiliary_abilities = true;
        },
        BuffEffect::CrowdControlResistance(c) => {
            stat.crowd_control_resistance = sat_add_u64(stat.crowd_control_resistance, *c);
        },
        BuffEffect::ItemEffectReduction(ier) => {
            stat.item_effect_reduction = mul_fp(
                stat.item_effect_reduction,
                sub_clamp(FP_ONE, *ier),
            );
        },
    }
}

// ---- the per-entity buff store ----

/// The buffs active on one entity, keyed by a stable id. Within one kind,
/// entries are kept strongest-first: the first entry of a kind is its tracked
/// instance for exclusivity.
#[derive(Debug, PartialEq)]
pub struct Buffs {
    pub next_key: u64,
    pub entries: Vec<(u64, Buff)>,
}

impl Buffs {
    pub open spec fn wf(&self) -> bool {
        (forall|i: int, j: int|
            0 <= i < j < self.entries@.len() ==> (#[trigger] self.entries@[i]).0 != (
            #[trigger] self.entries@[j]).0) && (forall|i: int|
            0 <= i < self.entries@.len() ==> (#[trigger] self.entries@[i]).0 < self.next_key)
            && (forall|i: int|
            0 <= i < self.entries@.len() ==> buff_wf((#[trigger] self.entries@[i]).1))
    }

    pub fn new() -> (r: Buffs)
        ensures
            r.wf(),
            r.entries@.len() == 0,
    {
        Buffs { next_key: 0, entries: Vec::new() }
    }

    /// Insert a buff before the first same-kind entry that is strictly
    /// weaker, so that each kind's entries stay strongest-first and the first
    /// entry of a kind is the strongest.
    pub fn insert(&mut self, buff: Buff) -> (key: u64)
        requires
            old(self).wf(),
            buff_wf(buff),
            old(self).next_key < u64::MAX,
        ensures
            final(self).wf(),
            ({
                let pre = old(self).entries@;
                let post = final(self).entries@;
                exists|p: int|
                    0 <= p <= pre.len() && post == pre.insert(p, (key, buff)) && (forall|i: int|
                        0 <= i < p ==> ((#[trigger] pre[i]).1.kind == buff.kind
                            ==> pre[i].1.strength >= buff.strength)) && (p < pre.len()
                        ==> pre[p].1.kind == buff.kind && pre[p].1.strength < buff.strength)
            }),
    {
        let key = self.next_key;
        self.next_key = self.next_key + 1;
        let ghost pre = self.entries@;
        let mut i: usize = 0;
        while i < self.entries.len()
            invariant
                pre == self.entries@,
                i <= pre.len(),
                forall|j: int|
                    0 <= j < i ==> ((#[trigger] pre[j]).1.kind == buff.kind ==> pre[j].1.strength
                        >= buff.strength),
            ensures
                pre == self.entries@,
                i <= pre.len(),
                forall|j: int|
                    0 <= j < i ==> ((#[trigger] pre[j]).1.kind == buff.kind ==> pre[j].1.strength
                        >= buff.strength),
                i < pre.len() ==> (pre[i as int].1.kind == buff.kind && pre[i as int].1.strength
                    < buff.strength),
            decreases pre.len() - i,
        {
            if self.entries[i].1.kind == buff.kind && self.entries[i].1.strength < buff.strength {
                break;
            }
            i += 1;
        }
        let ghost p = i as int;
        self.entries.insert(i, (key, buff));
        proof {
            let post = self.entries@;
            assert(post == pre.insert(p, (key, buff)));
            assert(0 <= p <= pre.len());
            assert(forall|j: int|
                0 <= j < p ==> ((#[trigger] pre[j]).1.kind == buff.kind ==> pre[j].1.strength
                    >= buff.strength));
            assert(p < pre.len() ==> pre[p].1.kind == buff.kind && pre[p].1.strength
                < buff.strength);
            assert forall|a: int, b: int|
                0 <= a < b < post.len() implies (#[trigger] post[a]).0 != (
            #[trigger] post[b]).0 by {
                if a < p && b < p {
                    assert(post[a] == pre[a]);
                    assert(post[b] == pre[b]);
                } else if a < p && b == p {
                    assert(post[a] == pre[a]);
                } else if a < p && b > p {
                    assert(post[a] == pre[a]);
                    assert(post[b] == pre[b - 1]);
                } else if a == p {
                    assert(post[b] == pre[b - 1]);
                } else {
                    assert(post[a] == pre[a - 1]);
                    assert(post[b] == pre[b - 1]);
                }
            }
            assert forall|a: int|
                0 <= a < post.len() implies (#[trigger] post[a]).0 < self.next_key by {
                if a < p {
                    assert(post[a] == pre[a]);
                } else if a > p {
                    assert(post[a] == pre[a - 1]);
                }
            }
            assert forall|a: int| 0 <= a < post.len() implies buff_wf((#[trigger] post[a]).1) by {
                if a < p {
                    assert(post[a] == pre[a]);
                } else if a > p {
                    assert(post[a] == pre[a - 1]);
                }
            }
        }
        key
    }

    /// The keys of one kind, in stored order.
    pub fn keys_of_kind(&self, kind: BuffKind) -> (r: Vec<u64>)
        ensures
            r@ == kind_keys_spec(self.entries@, kind),
    {
        let mut out: Vec<u64> = Vec::new();
        let mut i: usize = 0;
        proof {
            assert(self.entries@.subrange(0, 0) =~= Seq::<(u64, Buff)>::empty());
            assert(kind_keys_spec(self.entries@.subrange(0, 0), kind) =~= Seq::<u64>::empty());
        }
        while i < self.entries.len()
            invariant
                i <= self.entries@.len(),
                out@ == kind_keys_spec(self.entries@.subrange(0, i as int), kind),
            decreases self.entries@.len() - i,
        {
            proof {
                lemma_kind_keys_push(self.entries@.subrange(0, i as int), self.entries@[i as int], kind);
                assert(self.entries@.subrange(0, i as int).push(self.entries@[i as int])
                    =~= self.entries@.subrange(0, i + 1));
            }
            if self.entries[i].1.kind == kind {
                out.push(self.entries[i].0);
            }
            i += 1;
        }
        proof {
            assert(self.entries@.subrange(0, self.entries@.len() as int) =~= self.entries@);
        }
        out
    }

    /// The position of a key in the store.
    pub fn index_of_key(&self, key: u64) -> (r: Option<usize>)
        ensures
            match r {
                Some(i) => i < self.entries@.len() && self.entries@[i as int].0 == key,
                None => forall|j: int|
                    0 <= j < self.entries@.len() ==> (#[trigger] self.entries@[j]).0 != key,
            },
    {
        let mut i: usize = 0;
        while i < self.entries.len()
            invariant
                i <= self.entries@.len(),
                forall|j: int| 0 <= j < i ==> (#[trigger] self.entries@[j]).0 != key,
            decreases self.entries@.len() - i,
        {
            if self.entries[i].0 == key {
                return Some(i);
            }
            i += 1;
        }
        None
    }
}

pub open spec fn kind_keys_spec(entries: Seq<(u64, Buff)>, kind: BuffKind) -> Seq<u64>
    decreases entries.len(),
{
    if entries.len() == 0 {
        Seq::empty()
    } else {
        let rest = kind_keys_spec(entries.drop_last(), kind);
        if entries.last().1.kind == kind {
            rest.push(entries.last().0)
        } else {
            rest
        }
    }
}

proof fn lemma_kind_keys_push(entries: Seq<(u64, Buff)>, e: (u64, Buff), kind: BuffKind)
    ensures
        kind_keys_spec(entries.push(e), kind) == (if e.1.kind == kind {
            kind_keys_spec(entries, kind).push(e.0)
        } else {
            kind_keys_spec(entries, kind)
        }),
{
    let p = entries.push(e);
    assert(p.last() == e);
    assert(p.drop_last() =~= entries);
}

// ---- validity pruning and expiry ----

/// What the world reports of one active aura.
#[derive(Clone, Copy, Debug, PartialEq, Eq, Structural)]
pub struct AuraView {
    pub source: Actor,
    pub key: u64,
    pub pos: WPos,
    pub radius_sq: u128,
}

/// Whether a conditional category still holds: an aura tag needs its source
/// aura to exist with the entity inside its radius (compared by squared
/// distance); a link tag needs the link to still hold; plain tags always
/// hold.
pub open spec fn cat_alive_spec(
    cat: BuffCategory,
    entity_pos: WPos,
    auras: Seq<AuraView>,
    links: Seq<u64>,
) -> bool {
    match cat {
        BuffCategory::FromActiveAura(src, key) => exists|a: int|
            0 <= a < auras.len() && (#[trigger] auras[a]).source == src && auras[a].key == key
                && crate::action::near_sq_spec(entity_pos, auras[a].pos) <= auras[a].radius_sq,
        BuffCategory::FromLink(l) => links.contains(l),
        _ => true,
    }
}

pub open spec fn buff_kept_spec(b: Buff, entity_pos: WPos, auras: Seq<AuraView>, links: Seq<u64>) -> bool {
    forall|i: int|
        0 <= i < b.cat_ids@.len() ==> cat_alive_spec(#[trigger] b.cat_ids@[i], entity_pos, auras, links)
}

pub open spec fn is_conditional_cat(cat: BuffCategory) -> bool {
    match cat {
        BuffCategory::FromActiveAura(_, _) | BuffCategory::FromLink(_) => true,
        _ => false,
    }
}

/// A detached replacement preserves the numeric effect and the remaining
/// duration exactly; only the conditional tags are stripped.
pub open spec fn detached_matches_spec(d: Buff, orig: Buff) -> bool {
    d.kind == orig.kind && d.strength == orig.strength && d.start_time == orig.start_time
        && d.end_time == orig.end_time && d.source == orig.source && d.effects@ == orig.effects@
        && d.cat_ids@ == orig.cat_ids@.filter(|c: BuffCategory| !is_conditional_cat(c))
}

pub open spec fn buff_expired_by_time(b: Buff, time: u64) -> bool {
    match b.end_time {
        Some(e) => e < time,
        None => false,
    }
}

/// The indices of entries whose conditional source lapsed, in stored order.
pub open spec fn detach_indices_spec(
    entries: Seq<(u64, Buff)>,
    entity_pos: WPos,
    auras: Seq<AuraView>,
    links: Seq<u64>,
) -> Seq<int>
    decreases entries.len(),
{
    if entries.len() == 0 {
        Seq::empty()
    } else {
        let rest = detach_indices_spec(entries.drop_last(), entity_pos, auras, links);
        if !buff_kept_spec(entries.last().1, entity_pos, auras, links) {
            rest.push(entries.len() - 1)
        } else {
            rest
        }
    }
}

fn cat_alive(cat: &BuffCategory, entity_pos: &WPos, auras: &Vec<AuraView>, links: &Vec<u64>) -> (r:
    bool)
    ensures
        r == cat_alive_spec(*cat, *entity_pos, auras@, links@),
{
    match cat {
        BuffCategory::FromActiveAura(src, key) => {
            let mut a: usize = 0;
            while a < auras.len()
                invariant
                    *cat == BuffCategory::FromActiveAura(*src, *key),
                    a <= auras@.len(),
                    forall|j: int|
                        0 <= j < a ==> !((#[trigger] auras@[j]).source == *src && auras@[j].key
                            == *key && crate::action::near_sq_spec(*entity_pos, auras@[j].pos)
                            <= auras@[j].radius_sq),
                decreases auras@.len() - a,
            {
                if auras[a].source == *src && auras[a].key == *key {
                    let d = crate::action::near_sq(entity_pos, &auras[a].pos);
                    if d <= auras[a].radius_sq {
                        proof {
                            assert((#[trigger] auras@[a as int]).source == *src && auras@[
                            a as int].key == *key && crate::action::near_sq_spec(
                                *entity_pos,
                                auras@[a as int].pos,
                            ) <= auras@[a as int].radius_sq);
                        }
                        return true;
                    }
                }
                a += 1;
            }
            false
        },
        BuffCategory::FromLink(l) => {
            let mut a: usize = 0;
            while a < links.len()
                invariant
                    *cat == BuffCategory::FromLink(*l),
                    a <= links@.len(),
                    forall|j: int| 0 <= j < a ==> #[trigger] links@[j] != *l,
                decreases links@.len() - a,
            {
                if links[a] == *l {
                    proof {
                        assert(links@[a as int] == *l);
                        assert(links@.contains(*l));
                    }
                    return true;
                }
                a += 1;
            }
            proof {
                assert(!links@.contains(*l)) by {
                    if links@.contains(*l) {
                        let w = choose|w: int| 0 <= w < links@.len() && links@[w] == *l;
                    }
                }
            }
            false
        },
        _ => true,
    }
}

fn buff_kept(b: &Buff, entity_pos: &WPos, auras: &Vec<AuraView>, links: &Vec<u64>) -> (r: bool)
    ensures
        r == buff_kept_spec(*b, *entity_pos, auras@, links@),
{
    let mut i: usize = 0;
    while i < b.cat_ids.len()
        invariant
            i <= b.cat_ids@.len(),
            forall|j: int|
                0 <= j < i ==> cat_alive_spec(
                    #[trigger] b.cat_ids@[j],
                    *entity_pos,
                    auras@,
                    links@,
                ),
        decreases b.cat_ids@.len() - i,
    {
        if !cat_alive(&b.cat_ids[i], entity_pos, auras, links) {
            return false;
        }
        i += 1;
    }
    true
}

/// Strip the conditional tags from a buff, preserving everything else.
fn detach_buff(b: &Buff) -> (r: Buff)
    ensures
        detached_matches_spec(r, *b),
{
    let mut cats: Vec<BuffCategory> = Vec::new();
    let mut i: usize = 0;
    proof {
        reveal_with_fuel(Seq::filter, 2);
        assert(b.cat_ids@.subrange(0, 0) =~= Seq::<BuffCategory>::empty());
        assert(b.cat_ids@.subrange(0, 0).filter(|c: BuffCategory| !is_conditional_cat(c))
            =~= Seq::<BuffCategory>::empty());
    }
    while i < b.cat_ids.len()
        invariant
            i <= b.cat_ids@.len(),
            cats@ == b.cat_ids@.subrange(0, i as int).filter(
                |c: BuffCategory| !is_conditional_cat(c),
            ),
        decreases b.cat_ids@.len() - i,
    {
        let keep: bool = match b.cat_ids[i] {
            BuffCategory::FromActiveAura(_, _) | BuffCategory::FromLink(_) => false,
            _ => true,
        };
        proof {
            let sub = b.cat_ids@.subrange(0, i as int);
            let sub1 = b.cat_ids@.subrange(0, i + 1);
            assert(sub1 =~= sub.push(b.cat_ids@[i as int]));
            assert(sub1.drop_last() =~= sub);
            assert(sub1.last() == b.cat_ids@[i as int]);
            reveal_with_fuel(Seq::filter, 2);
        }
        if keep {
            cats.push(b.cat_ids[i]);
        }
        i += 1;
    }
    proof {
        assert(b.cat_ids@.subrange(0, b.cat_ids@.len() as int) =~= b.cat_ids@);
    }
    let mut effects: Vec<BuffEffect> = Vec::new();
    let mut j: usize = 0;
    while j < b.effects.len()
        invariant
            j <= b.effects@.len(),
            effects@ == b.effects@.subrange(0, j as int),
        decreases b.effects@.len() - j,
    {
        effects.push(b.effects[j]);
        proof {
            assert(effects@ =~= b.effects@.subrange(0, j + 1));
        }
        j += 1;
    }
    proof {
        assert(b.effects@.subrange(0, b.effects@.len() as int) =~= b.effects@);
    }
    Buff {
        kind: b.kind,
        strength: b.strength,
        start_time: b.start_time,
        end_time: b.end_time,
        source: b.source,
        cat_ids: cats,
        effects,
    }
}

/// Validity pruning: every buff tied to a lapsed aura or link is marked for
/// removal and replaced by a detached plain copy whose numeric effect and
/// remaining duration are unchanged; buffs past their end time are marked
/// expired; under complete damage immunity every non-beneficial buff is
/// marked expired.
pub fn collect_expired(
    buffs: &Buffs,
    entity_pos: &WPos,
    auras: &Vec<AuraView>,
    links: &Vec<u64>,
    immunity: bool,
    time: u64,
) -> (r: (Vec<u64>, Vec<OutEvent>))
    requires
        buffs.wf(),
    ensures
        ({
            let entries = buffs.entries@;
            let detached = detach_indices_spec(entries, *entity_pos, auras@, links@);
            // Every lapsed conditional buff detaches: removal plus a preserved copy.
            &&& r.1@.len() == detached.len()
            &&& (forall|j: int|
                0 <= j < detached.len() ==> (#[trigger] r.1@[j] matches OutEvent::AddDetached {
                    old_key,
                    buff: d,
                } && old_key == entries[detached[j]].0 && detached_matches_spec(
                    d,
                    entries[detached[j]].1,
                )))
            // A key is marked expired exactly when its buff lapsed, ran out,
            // or is nullified by complete damage immunity.
            &&& (forall|i: int|
                0 <= i < entries.len() ==> (r.0@.contains((#[trigger] entries[i]).0) <==> (
                !buff_kept_spec(entries[i].1, *entity_pos, auras@, links@) || buff_expired_by_time(
                    entries[i].1,
                    time,
                ) || (immunity && !is_buff_spec(entries[i].1.kind)))))
            // Everything marked names a stored buff.
            &&& (forall|x: u64|
                r.0@.contains(x) ==> exists|k: int|
                    0 <= k < entries.len() && (#[trigger] entries[k]).0 == x)
        }),
{
    let mut expired: Vec<u64> = Vec::new();
    let mut events: Vec<OutEvent> = Vec::new();
    let ghost entries = buffs.entries@;
    let mut i: usize = 0;
    proof {
        assert(detach_indices_spec(
            entries.subrange(0, 0),
            *entity_pos,
            auras@,
            links@,
        ) =~= Seq::<int>::empty());
        assert(entries.subrange(0, 0) =~= Seq::<(u64, Buff)>::empty());
    }
    while i < buffs.entries.len()
        invariant
            buffs.wf(),
            entries == buffs.entries@,
            i <= entries.len(),
            ({
                let detached = detach_indices_spec(
                    entries.subrange(0, i as int),
                    *entity_pos,
                    auras@,
                    links@,
                );
                &&& events@.len() == detached.len()
                &&& (forall|j: int|
                    0 <= j < detached.len() ==> (#[trigger] events@[j]
                        matches OutEvent::AddDetached { old_key, buff: d } && old_key == entries[
                        detached[j]].0 && detached_matches_spec(d, entries[detached[j]].1)))
            }),
            forall|k: int|
                0 <= k < i ==> (expired@.contains((#[trigger] entries[k]).0) <==> (
                !buff_kept_spec(entries[k].1, *entity_pos, auras@, links@) || buff_expired_by_time(
                    entries[k].1,
                    time,
                ) || (immunity && !is_buff_spec(entries[k].1.kind)))),
            forall|x: u64|
                expired@.contains(x) ==> exists|k: int|
                    0 <= k < i && (#[trigger] entries[k]).0 == x,
        decreases entries.len() - i,
    {
        let ghost pre_expired = expired@;
        let ghost pre_events = events@;
        let entry_key: u64 = buffs.entries[i].0;
        let kept = buff_kept(&buffs.entries[i].1, entity_pos, auras, links);
        let timed_out: bool = match buffs.entries[i].1.end_time {
            Some(e) => e < time,
            None => false,
        };
        let nullified: bool = immunity && !buffs.entries[i].1.kind.is_buff();
        if !kept {
            let d = detach_buff(&buffs.entries[i].1);
            events.push(OutEvent::AddDetached { old_key: entry_key, buff: d });
        }
        if !kept || timed_out || nullified {
            expired.push(entry_key);
        }
        i += 1;
        proof {
            let subi = entries.subrange(0, i - 1);
            let subi1 = entries.subrange(0, i as int);
            assert(subi1 =~= subi.push(entries[i - 1]));
            lemma_detach_indices_push(subi, entries[i - 1], *entity_pos, auras@, links@);
            assert(subi1.drop_last() =~= subi);
            assert forall|j: int|
                0 <= j < detach_indices_spec(subi, *entity_pos, auras@, links@).len() implies
                subi1[detach_indices_spec(subi, *entity_pos, auras@, links@)[j]] == subi[
                detach_indices_spec(subi, *entity_pos, auras@, links@)[j]] by {
                lemma_detach_indices_bounds(subi, *entity_pos, auras@, links@);
            }
            lemma_detach_indices_bounds(subi, *entity_pos, auras@, links@);
            assert forall|k: int|
                0 <= k < i implies (expired@.contains((#[trigger] entries[k]).0) <==> (
                !buff_kept_spec(entries[k].1, *entity_pos, auras@, links@) || buff_expired_by_time(
                    entries[k].1,
                    time,
                ) || (immunity && !is_buff_spec(entries[k].1.kind)))) by {
                if k < i - 1 {
                    assert(pre_expired.contains(entries[k].0) ==> expired@.contains(
                        entries[k].0,
                    )) by {
                        if pre_expired.contains(entries[k].0) {
                            let w = choose|w: int|
                                0 <= w < pre_expired.len() && pre_expired[w] == entries[k].0;
                            assert(expired@[w] == entries[k].0);
                        }
                    }
                    if expired@.contains(entries[k].0) && !pre_expired.contains(entries[k].0) {
                        let w = choose|w: int|
                            0 <= w < expired@.len() && expired@[w] == entries[k].0;
                        assert(w == expired@.len() - 1);
                        assert(entries[i - 1].0 == entries[k].0);
                    }
                } else {
                    if !kept || timed_out || nullified {
                        assert(expired@[expired@.len() - 1] == entries[k].0);
                    } else {
                        if expired@.contains(entries[k].0) {
                            let w = choose|w: int|
                                0 <= w < expired@.len() && expired@[w] == entries[k].0;
                            assert(pre_expired.contains(entries[k].0));
                        }
                    }
                }
            }
            assert forall|x: u64|
                expired@.contains(x) implies exists|k: int|
                0 <= k < i && (#[trigger] entries[k]).0 == x by {
                let w = choose|w: int| 0 <= w < expired@.len() && expired@[w] == x;
                if w < pre_expired.len() {
                    assert(pre_expired[w] == x);
                    assert(pre_expired.contains(x));
                } else {
                    assert(entries[i - 1].0 == x);
                }
            }
        }
    }
    proof {
        assert(entries.subrange(0, entries.len() as int) =~= entries);
    }
    (expired, events)
}

proof fn lemma_detach_indices_push(
    entries: Seq<(u64, Buff)>,
    e: (u64, Buff),
    entity_pos: WPos,
    auras: Seq<AuraView>,
    links: Seq<u64>,
)
    ensures
        detach_indices_spec(entries.push(e), entity_pos, auras, links) == (if !buff_kept_spec(
            e.1,
            entity_pos,
            auras,
            links,
        ) {
            detach_indices_spec(entries, entity_pos, auras, links).push(entries.len() as int)
        } else {
            detach_indices_spec(entries, entity_pos, auras, links)
        }),
{
    let p = entries.push(e);
    assert(p.last() == e);
    assert(p.drop_last() =~= entries);
}

proof fn lemma_detach_indices_bounds(
    entries: Seq<(u64, Buff)>,
    entity_pos: WPos,
    auras: Seq<AuraView>,
    links: Seq<u64>,
)
    ensures
        forall|j: int|
            0 <= j < detach_indices_spec(entries, entity_pos, auras, links).len() ==> 0 <= (
            #[trigger] detach_indices_spec(entries, entity_pos, auras, links)[j]) < entries.len(),
    decreases entries.len(),
{
    if entries.len() > 0 {
        lemma_detach_indices_bounds(entries.drop_last(), entity_pos, auras, links);
        let rest = detach_indices_spec(entries.drop_last(), entity_pos, auras, links);
        let all = detach_indices_spec(entries, entity_pos, auras, links);
        assert(entries.drop_last().len() == entries.len() - 1);
        assert forall|j: int| 0 <= j < all.len() implies 0 <= #[trigger] all[j] < entries.len() by {
            if j < rest.len() {
                assert(all[j] == rest[j]);
            }
        }
    }
}

// ---- ordered application by kind ----

pub open spec fn owner_of_spec(s: BuffSource) -> Option<Actor> {
    match s {
        BuffSource::Character(a) => Some(a),
        BuffSource::World => None,
    }
}

/// Whether resolution marks a buff expired this tick: its conditional source
/// lapsed, its end time passed, or complete damage immunity nullifies it.
pub open spec fn marks_expired_spec(
    b: Buff,
    entity_pos: WPos,
    auras: Seq<AuraView>,
    links: Seq<u64>,
    immunity: bool,
    time: u64,
) -> bool {
    !buff_kept_spec(b, entity_pos, auras, links) || buff_expired_by_time(b, time) || (immunity
        && !is_buff_spec(b.kind))
}

fn marks_expired(
    b: &Buff,
    entity_pos: &WPos,
    auras: &Vec<AuraView>,
    links: &Vec<u64>,
    immunity: bool,
    time: u64,
) -> (r: bool)
    ensures
        r == marks_expired_spec(*b, *entity_pos, auras@, links@, immunity, time),
{
    let kept = buff_kept(b, entity_pos, auras, links);
    let timed_out: bool = match b.end_time {
        Some(e) => e < time,
        None => false,
    };
    !kept || timed_out || (immunity && !b.kind.is_buff())
}

/// First-match lookup of a buff by key.
pub open spec fn entry_lookup_spec(entries: Seq<(u64, Buff)>, key: u64) -> Option<Buff>
    decreases entries.len(),
{
    if entries.len() == 0 {
        None
    } else if entries[0].0 == key {
        Some(entries[0].1)
    } else {
        entry_lookup_spec(entries.skip(1), key)
    }
}

proof fn lemma_entry_lookup_at(entries: Seq<(u64, Buff)>, key: u64, i: int)
    requires
        0 <= i < entries.len(),
        entries[i].0 == key,
        forall|a: int, b: int|
            0 <= a < b < entries.len() ==> (#[trigger] entries[a]).0 != (#[trigger] entries[b]).0,
    ensures
        entry_lookup_spec(entries, key) == Some(entries[i].1),
    decreases entries.len(),
{
    if i == 0 {
    } else {
        assert(entries[0].0 != key);
        let tail = entries.skip(1);
        assert(tail[i - 1] == entries[i]);
        assert forall|a: int, b: int|
            0 <= a < b < tail.len() implies (#[trigger] tail[a]).0 != (#[trigger] tail[b]).0 by {
            assert(tail[a] == entries[a + 1]);
            assert(tail[b] == entries[b + 1]);
        }
        lemma_entry_lookup_at(tail, key, i - 1);
    }
}

/// The application of one buff's effect list, in order.
pub open spec fn apply_effects_spec(
    effects: Seq<BuffEffect>,
    buff_kind: BuffKind,
    buff_start_time: u64,
    stat: StatsV,
    current_body: u64,
    bo: Option<u64>,
    health: HealthInfo,
    energy: EnergyInfo,
    owner: Option<Actor>,
    events: Seq<OutEvent>,
    dt: u64,
    time: u64,
    expiring: bool,
    kinds_present: u32,
) -> (StatsV, Option<u64>, Seq<OutEvent>)
    decreases effects.len(),
{
    if effects.len() == 0 {
        (stat, bo, events)
    } else {
        let (s1, b1, e1) = execute_effect_spec(
            effects[0],
            buff_kind,
            buff_start_time,
            stat,
            current_body,
            bo,
            health,
            energy,
            owner,
            events,
            dt,
            time,
            expiring,
            kinds_present,
        );
        apply_effects_spec(
            effects.skip(1),
            buff_kind,
            buff_start_time,
            s1,
            current_body,
            b1,
            health,
            energy,
            owner,
            e1,
            dt,
            time,
            expiring,
            kinds_present,
        )
    }
}

/// The application of one buff: skipped entirely while its recorded start
/// time is still in the future.
pub open spec fn apply_buff_spec(
    b: Buff,
    stat: StatsV,
    current_body: u64,
    bo: Option<u64>,
    health: HealthInfo,
    energy: EnergyInfo,
    events: Seq<OutEvent>,
    dt: u64,
    time: u64,
    expiring: bool,
    kinds_present: u32,
) -> (StatsV, Option<u64>, Seq<OutEvent>) {
    if b.start_time > time {
        (stat, bo, events)
    } else {
        apply_effects_spec(
            b.effects@,
            b.kind,
            b.start_time,
            stat,
            current_body,
            bo,
            health,
            energy,
            owner_of_spec(b.source),
            events,
            dt,
            time,
            expiring,
            kinds_present,
        )
    }
}

/// The application of a run of selected instances, by key.
pub open spec fn apply_keys_spec(
    keys: Seq<u64>,
    entries: Seq<(u64, Buff)>,
    entity_pos: WPos,
    auras: Seq<AuraView>,
    links: Seq<u64>,
    immunity: bool,
    stat: StatsV,
    current_body: u64,
    bo: Option<u64>,
    health: HealthInfo,
    energy: EnergyInfo,
    events: Seq<OutEvent>,
    dt: u64,
    time: u64,
    kinds_present: u32,
) -> (StatsV, Option<u64>, Seq<OutEvent>)
    decreases keys.len(),
{
    if keys.len() == 0 {
        (stat, bo, events)
    } else {
        let (s1, b1, e1) = match entry_lookup_spec(entries, keys[0]) {
            Some(b) => apply_buff_spec(
                b,
                stat,
                current_body,
                bo,
                health,
                energy,
                events,
                dt,
                time,
                marks_expired_spec(b, entity_pos, auras, links, immunity, time),
                kinds_present,
            ),
            None => (stat, bo, events),
        };
        apply_keys_spec(
            keys.skip(1),
            entries,
            entity_pos,
            auras,
            links,
            immunity,
            s1,
            current_body,
            b1,
            health,
            energy,
            e1,
            dt,
            time,
            kinds_present,
        )
    }
}

/// Per-kind stacking resolution: a stacking kind applies every instance; a
/// non-stacking kind applies only the first stored instance of that kind.
pub open spec fn selected_keys_spec(entries: Seq<(u64, Buff)>, kind: BuffKind) -> Seq<u64> {
    let keys = kind_keys_spec(entries, kind);
    if stacks_spec(kind) {
        keys
    } else if keys.len() > 0 {
        keys.take(1)
    } else {
        keys
    }
}

/// Exclusivity law: resolving a kind that does not stack applies exactly one
/// instance — the first of that kind in the stored order. Since insertion
/// keeps each kind strongest-first, that instance is the tracked strongest.
pub proof fn lemma_nonstacking_selects_single(entries: Seq<(u64, Buff)>, kind: BuffKind)
    requires
        !stacks_spec(kind),
        kind_keys_spec(entries, kind).len() > 0,
    ensures
        selected_keys_spec(entries, kind) =~= seq![kind_keys_spec(entries, kind)[0]],
        selected_keys_spec(entries, kind).len() == 1,
{
}

/// Apply one buff's effect list in order, exactly as the model says.
fn apply_effects(
    effects: &Vec<BuffEffect>,
    buff_kind: BuffKind,
    buff_start_time: u64,
    stat: &mut Stats,
    current_body: u64,
    bo: &mut Option<u64>,
    health: &HealthInfo,
    energy: &EnergyInfo,
    owner: Option<Actor>,
    events: &mut Vec<OutEvent>,
    dt: u64,
    time: u64,
    expiring: bool,
    kinds_present: u32,
)
    requires
        forall|i: int| 0 <= i < effects@.len() ==> effect_wf(#[trigger] effects@[i]),
        buff_start_time <= time,
        time <= TIME_LIMIT,
    ensures
        ({
            let (s2, b2, e2) = apply_effects_spec(
                effects@,
                buff_kind,
                buff_start_time,
                old(stat)@,
                current_body,
                *old(bo),
                *health,
                *energy,
                owner,
                old(events)@,
                dt,
                time,
                expiring,
                kinds_present,
            );
            final(stat)@ == s2 && *final(bo) == b2 && final(events)@ == e2
        }),
{
    let ghost target = apply_effects_spec(
        effects@,
        buff_kind,
        buff_start_time,
        old(stat)@,
        current_body,
        *old(bo),
        *health,
        *energy,
        owner,
        old(events)@,
        dt,
        time,
        expiring,
        kinds_present,
    );
    proof {
        assert(effects@.skip(0) =~= effects@);
    }
    let mut i: usize = 0;
    while i < effects.len()
        invariant
            forall|j: int| 0 <= j < effects@.len() ==> effect_wf(#[trigger] effects@[j]),
            buff_start_time <= time,
            time <= TIME_LIMIT,
            i <= effects@.len(),
            target == apply_effects_spec(
                effects@.skip(i as int),
                buff_kind,
                buff_start_time,
                stat@,
                current_body,
                *bo,
                *health,
                *energy,
                owner,
                events@,
                dt,
                time,
                expiring,
                kinds_present,
            ),
        decreases effects@.len() - i,
    {
        proof {
            assert(effects@.skip(i as int)[0] == effects@[i as int]);
            assert(effects@.skip(i as int).skip(1) =~= effects@.skip(i + 1));
        }
        execute_effect(
            &effects[i],
            buff_kind,
            buff_start_time,
            stat,
            current_body,
            bo,
            health,
            energy,
            owner,
            events,
            dt,
            time,
            expiring,
            kinds_present,
        );
        i += 1;
    }
    proof {
        assert(effects@.skip(effects@.len() as int).len() == 0);
    }
}

fn owner_of(s: BuffSource) -> (r: Option<Actor>)
    ensures
        r == owner_of_spec(s),
{
    match s {
        BuffSource::Character(a) => Some(a),
        BuffSource::World => None,
    }
}

/// Apply a run of selected instances, by key, exactly as the model says.
fn apply_keys(
    keys: &Vec<u64>,
    buffs: &Buffs,
    entity_pos: &WPos,
    auras: &Vec<AuraView>,
    links: &Vec<u64>,
    immunity: bool,
    stat: &mut Stats,
    current_body: u64,
    bo: &mut Option<u64>,
    health: &HealthInfo,
    energy: &EnergyInfo,
    events: &mut Vec<OutEvent>,
    dt: u64,
    time: u64,
    kinds_present: u32,
)
    requires
        buffs.wf(),
        time <= TIME_LIMIT,
    ensures
        ({
            let (s2, b2, e2) = apply_keys_spec(
                keys@,
                buffs.entries@,
                *entity_pos,
                auras@,
                links@,
                immunity,
                old(stat)@,
                current_body,
                *old(bo),
                *health,
                *energy,
                old(events)@,
                dt,
                time,
                kinds_present,
            );
            final(stat)@ == s2 && *final(bo) == b2 && final(events)@ == e2
        }),
{
    let ghost target = apply_keys_spec(
        keys@,
        buffs.entries@,
        *entity_pos,
        auras@,
        links@,
        immunity,
        old(stat)@,
        current_body,
        *old(bo),
        *health,
        *energy,
        old(events)@,
        dt,
        time,
        kinds_present,
    );
    proof {
        assert(keys@.skip(0) =~= keys@);
    }
    let mut i: usize = 0;
    while i < keys.len()
        invariant
            buffs.wf(),
            time <= TIME_LIMIT,
            i <= keys@.len(),
            target == apply_keys_spec(
                keys@.skip(i as int),
                buffs.entries@,
                *entity_pos,
                auras@,
                links@,
                immunity,
                stat@,
                current_body,
                *bo,
                *health,
                *energy,
                events@,
                dt,
                time,
                kinds_present,
            ),
        decreases keys@.len() - i,
    {
        proof {
            assert(keys@.skip(i as int)[0] == keys@[i as int]);
            assert(keys@.skip(i as int).skip(1) =~= keys@.skip(i + 1));
        }
        let key: u64 = keys[i];
        match buffs.index_of_key(key) {
            Some(idx) => {
                proof {
                    lemma_entry_lookup_at(buffs.entries@, key, idx as int);
                }
                let b = &buffs.entries[idx].1;
                let expiring = marks_expired(b, entity_pos, auras, links, immunity, time);
                if b.start_time > time {
                } else {
                    let owner = owner_of(b.source);
                    apply_effects(
                        &b.effects,
                        b.kind,
                        b.start_time,
                        stat,
                        current_body,
                        bo,
                        health,
                        energy,
                        owner,
                        events,
                        dt,
                        time,
                        expiring,
                        kinds_present,
                    );
                }
            },
            None => {
                proof {
                    lemma_entry_lookup_none(buffs.entries@, key);
                }
            },
        }
        i += 1;
    }
    proof {
        assert(keys@.skip(keys@.len() as int).len() == 0);
    }
}

proof fn lemma_entry_lookup_none(entries: Seq<(u64, Buff)>, key: u64)
    requires
        forall|j: int| 0 <= j < entries.len() ==> (#[trigger] entries[j]).0 != key,
    ensures
        entry_lookup_spec(entries, key) is None,
    decreases entries.len(),
{
    if entries.len() > 0 {
        let tail = entries.skip(1);
        assert forall|j: int| 0 <= j < tail.len() implies (#[trigger] tail[j]).0 != key by {
            assert(tail[j] == entries[j + 1]);
        }
        lemma_entry_lookup_none(tail, key);
    }
}

/// The kinds present in the store, in order of first appearance.
pub open spec fn present_kinds_spec(entries: Seq<(u64, Buff)>) -> Seq<BuffKind>
    decreases entries.len(),
{
    if entries.len() == 0 {
        Seq::empty()
    } else {
        let rest = present_kinds_spec(entries.drop_last());
        if rest.contains(entries.last().1.kind) {
            rest
        } else {
            rest.push(entries.last().1.kind)
        }
    }
}

/// The order kinds are resolved in: kinds that affect subsequent buffs first,
/// otherwise keeping relative order — a stable sort on one boolean key.
pub open spec fn ordered_kinds_spec(entries: Seq<(u64, Buff)>) -> Seq<BuffKind> {
    present_kinds_spec(entries).filter(|k: BuffKind| affects_subsequent_buffs_spec(k)) + present_kinds_spec(
        entries,
    ).filter(|k: BuffKind| !affects_subsequent_buffs_spec(k))
}

/// The presence mask of kinds in the store.
pub open spec fn kinds_mask_spec(entries: Seq<(u64, Buff)>) -> u32
    decreases entries.len(),
{
    if entries.len() == 0 {
        0u32
    } else {
        kinds_mask_spec(entries.drop_last()) | kind_bit_spec(entries.last().1.kind)
    }
}

/// The full resolution of the kinds in order.
pub open spec fn apply_kinds_spec(
    kinds: Seq<BuffKind>,
    entries: Seq<(u64, Buff)>,
    entity_pos: WPos,
    auras: Seq<AuraView>,
    links: Seq<u64>,
    immunity: bool,
    stat: StatsV,
    current_body: u64,
    bo: Option<u64>,
    health: HealthInfo,
    energy: EnergyInfo,
    events: Seq<OutEvent>,
    dt: u64,
    time: u64,
    kinds_present: u32,
) -> (StatsV, Option<u64>, Seq<OutEvent>)
    decreases kinds.len(),
{
    if kinds.len() == 0 {
        (stat, bo, events)
    } else {
        let (s1, b1, e1) = if immunity && !is_buff_spec(kinds[0]) {
            (stat, bo, events)
        } else {
            apply_keys_spec(
                selected_keys_spec(entries, kinds[0]),
                entries,
                entity_pos,
                auras,
                links,
                immunity,
                stat,
                current_body,
                bo,
                health,
                energy,
                events,
                dt,
                time,
                kinds_present,
            )
        };
        apply_kinds_spec(
            kinds.skip(1),
            entries,
            entity_pos,
            auras,
            links,
            immunity,
            s1,
            current_body,
            b1,
            health,
            energy,
            e1,
            dt,
            time,
            kinds_present,
        )
    }
}

fn kinds_vec_contains(v: &Vec<BuffKind>, k: BuffKind) -> (r: bool)
    ensures
        r == v@.contains(k),
{
    let mut i: usize = 0;
    while i < v.len()
        invariant
            i <= v@.len(),
            forall|j: int| 0 <= j < i ==> #[trigger] v@[j] != k,
        decreases v@.len() - i,
    {
        if v[i] == k {
            proof {
                assert(v@[i as int] == k);
            }
            return true;
        }
        i += 1;
    }
    proof {
        if v@.contains(k) {
            let w = choose|w: int| 0 <= w < v@.len() && v@[w] == k;
            assert(false);
        }
    }
    false
}

proof fn lemma_present_kinds_push(entries: Seq<(u64, Buff)>, e: (u64, Buff))
    ensures
        present_kinds_spec(entries.push(e)) == (if present_kinds_spec(entries).contains(e.1.kind) {
            present_kinds_spec(entries)
        } else {
            present_kinds_spec(entries).push(e.1.kind)
        }),
{
    let p = entries.push(e);
    assert(p.last() == e);
    assert(p.drop_last() =~= entries);
}

proof fn lemma_kinds_mask_push(entries: Seq<(u64, Buff)>, e: (u64, Buff))
    ensures
        kinds_mask_spec(entries.push(e)) == (kinds_mask_spec(entries) | kind_bit_spec(e.1.kind)),
{
    let p = entries.push(e);
    assert(p.last() == e);
    assert(p.drop_last() =~= entries);
}

/// The kinds present, in first-appearance order.
fn present_kinds(buffs: &Buffs) -> (r: Vec<BuffKind>)
    ensures
        r@ == present_kinds_spec(buffs.entries@),
{
    let mut out: Vec<BuffKind> = Vec::new();
    let mut i: usize = 0;
    proof {
        assert(buffs.entries@.subrange(0, 0) =~= Seq::<(u64, Buff)>::empty());
        assert(present_kinds_spec(buffs.entries@.subrange(0, 0)) =~= Seq::<BuffKind>::empty());
    }
    while i < buffs.entries.len()
        invariant
            i <= buffs.entries@.len(),
            out@ == present_kinds_spec(buffs.entries@.subrange(0, i as int)),
        decreases buffs.entries@.len() - i,
    {
        proof {
            lemma_present_kinds_push(
                buffs.entries@.subrange(0, i as int),
                buffs.entries@[i as int],
            );
            assert(buffs.entries@.subrange(0, i as int).push(buffs.entries@[i as int])
                =~= buffs.entries@.subrange(0, i + 1));
        }
        let k = buffs.entries[i].1.kind;
        if !kinds_vec_contains(&out, k) {
            out.push(k);
        }
        i += 1;
    }
    proof {
        assert(buffs.entries@.subrange(0, buffs.entries@.len() as int) =~= buffs.entries@);
    }
    out
}

/// The presence mask of the store.
fn kinds_mask(buffs: &Buffs) -> (r: u32)
    ensures
        r == kinds_mask_spec(buffs.entries@),
{
    let mut mask: u32 = 0;
    let mut i: usize = 0;
    proof {
        assert(buffs.entries@.subrange(0, 0) =~= Seq::<(u64, Buff)>::empty());
    }
    while i < buffs.entries.len()
        invariant
            i <= buffs.entries@.len(),
            mask == kinds_mask_spec(buffs.entries@.subrange(0, i as int)),
        decreases buffs.entries@.len() - i,
    {
        proof {
            lemma_kinds_mask_push(buffs.entries@.subrange(0, i as int), buffs.entries@[i as int]);
            assert(buffs.entries@.subrange(0, i as int).push(buffs.entries@[i as int])
                =~= buffs.entries@.subrange(0, i + 1));
        }
        mask = mask | kind_bit(buffs.entries[i].1.kind);
        i += 1;
    }
    proof {
        assert(buffs.entries@.subrange(0, buffs.entries@.len() as int) =~= buffs.entries@);
    }
    mask
}

/// Stable partition of the present kinds: those that affect subsequent buffs
/// first, relative order otherwise preserved.
fn ordered_kinds(buffs: &Buffs) -> (r: Vec<BuffKind>)
    ensures
        r@ == ordered_kinds_spec(buffs.entries@),
{
    let present = present_kinds(buffs);
    let mut out: Vec<BuffKind> = Vec::new();
    let mut i: usize = 0;
    proof {
        reveal_with_fuel(Seq::filter, 2);
        assert(present@.subrange(0, 0) =~= Seq::<BuffKind>::empty());
        assert(present@.subrange(0, 0).filter(|k: BuffKind| affects_subsequent_buffs_spec(k))
            =~= Seq::<BuffKind>::empty());
    }
    while i < present.len()
        invariant
            i <= present@.len(),
            out@ == present@.subrange(0, i as int).filter(
                |k: BuffKind| affects_subsequent_buffs_spec(k),
            ),
        decreases present@.len() - i,
    {
        proof {
            reveal_with_fuel(Seq::filter, 2);
            let sub = present@.subrange(0, i as int);
            let sub1 = present@.subrange(0, i + 1);
            assert(sub1 =~= sub.push(present@[i as int]));
            assert(sub1.drop_last() =~= sub);
            assert(sub1.last() == present@[i as int]);
        }
        if present[i].affects_subsequent_buffs() {
            out.push(present[i]);
        }
        i += 1;
    }
    proof {
        assert(present@.subrange(0, present@.len() as int) =~= present@);
    }
    let ghost first_part = out@;
    let mut j: usize = 0;
    proof {
        reveal_with_fuel(Seq::filter, 2);
        assert(present@.subrange(0, 0) =~= Seq::<BuffKind>::empty());
        assert(present@.subrange(0, 0).filter(|k: BuffKind| !affects_subsequent_buffs_spec(k))
            =~= Seq::<BuffKind>::empty());
        assert(out@ =~= first_part + present@.subrange(0, 0).filter(
            |k: BuffKind| !affects_subsequent_buffs_spec(k),
        ));
    }
    while j < present.len()
        invariant
            j <= present@.len(),
            first_part == present@.filter(|k: BuffKind| affects_subsequent_buffs_spec(k)),
            out@ == first_part + present@.subrange(0, j as int).filter(
                |k: BuffKind| !affects_subsequent_buffs_spec(k),
            ),
        decreases present@.len() - j,
    {
        proof {
            reveal_with_fuel(Seq::filter, 2);
            let sub = present@.subrange(0, j as int);
            let sub1 = present@.subrange(0, j + 1);
            assert(sub1 =~= sub.push(present@[j as int]));
            assert(sub1.drop_last() =~= sub);
            assert(sub1.last() == present@[j as int]);
        }
        if !present[j].affects_subsequent_buffs() {
            out.push(present[j]);
            proof {
                assert(out@ =~= first_part + present@.subrange(0, j + 1).filter(
                    |k: BuffKind| !affects_subsequent_buffs_spec(k),
                ));
            }
        }
        j += 1;
    }
    proof {
        assert(present@.subrange(0, present@.len() as int) =~= present@);
    }
    out
}

/// The buff system: one resolution pass per entity per tick.
#[derive(Default)]
pub struct Sys;

impl Sys {
    /// Resolve one entity's buffs for this tick: prune lapsed and expired
    /// instances, recompute the stat aggregate from scratch in kind order
    /// with stacking rules, and emit the resulting change events.
    ///
    /// The per-tick driver issues [`environment_events`]'s requests before
    /// calling this, so contact-state buffs are applied ahead of resolution
    /// and visible within the same tick.
    #[verifier::rlimit(100)]
    #[verifier::spinoff_prover]
    pub fn run_entity(
        buffs: &Buffs,
        entity_pos: &WPos,
        auras: &Vec<AuraView>,
        links: &Vec<u64>,
        damage_reduction_fp: u64,
        current_body: u64,
        original_body: u64,
        health: &HealthInfo,
        energy: &EnergyInfo,
        stat: &mut Stats,
        dt: u64,
        time: u64,
    ) -> (r: Vec<OutEvent>)
        requires
            buffs.wf(),
            time <= TIME_LIMIT,
        ensures
            ({
                let entries = buffs.entries@;
                let immunity = damage_reduction_fp == FP_ONE;
                let detached = detach_indices_spec(entries, *entity_pos, auras@, links@);
                let (s2, b2, evs2) = apply_kinds_spec(
                    ordered_kinds_spec(entries),
                    entries,
                    *entity_pos,
                    auras@,
                    links@,
                    immunity,
                    stats_base_spec(),
                    current_body,
                    None,
                    *health,
                    *energy,
                    Seq::empty(),
                    dt,
                    time,
                    kinds_mask_spec(entries),
                );
                let new_body = match b2 {
                    Some(b) => b,
                    None => original_body,
                };
                // The aggregate is recomputed from scratch and equals the
                // ordered, stacking-aware application of every active effect.
                &&& final(stat)@ == s2
                // Lapsed conditional buffs detach: removal plus a preserved
                // plain copy, at the front of the event stream.
                &&& r@.len() >= detached.len()
                &&& (forall|j: int|
                    0 <= j < detached.len() ==> (#[trigger] r@[j] matches OutEvent::AddDetached {
                        old_key,
                        buff: d,
                    } && old_key == entries[detached[j]].0 && detached_matches_spec(
                        d,
                        entries[detached[j]].1,
                    )))
                // The application events follow, exactly as the model says.
                &&& r@.len() >= detached.len() + evs2.len()
                &&& r@.subrange(detached.len() as int, (detached.len() + evs2.len()) as int) == evs2
                // A body override that differs from the current body is
                // requested as a change event.
                &&& (new_body != current_body ==> exists|j: int|
                    detached.len() + evs2.len() <= j < r@.len() && (#[trigger] r@[j]
                        matches OutEvent::BodyChange { new_body: nb } && nb == new_body))
                // Expired buffs are removed in one batched request naming
                // exactly the marked keys.
                &&& ((exists|i: int|
                    0 <= i < entries.len() && marks_expired_spec(
                        (#[trigger] entries[i]).1,
                        *entity_pos,
                        auras@,
                        links@,
                        immunity,
                        time,
                    )) ==> exists|j: int|
                    detached.len() + evs2.len() <= j < r@.len() && (#[trigger] r@[j]
                        matches OutEvent::RemoveByKeys(ks) && (forall|i: int|
                        0 <= i < entries.len() ==> (ks@.contains((#[trigger] entries[i]).0) <==> marks_expired_spec(
                            entries[i].1,
                            *entity_pos,
                            auras@,
                            links@,
                            immunity,
                            time,
                        )))))
                // Death strips everything that does not persist on death.
                &&& (health.is_dead ==> r@.len() >= 1 && (r@.last() == OutEvent::RemoveNotPersistent))
            }),
    {
        let immunity = damage_reduction_fp == FP_ONE;
        let (expired, mut events) = collect_expired(buffs, entity_pos, auras, links, immunity, time);
        let ghost detach_evs = events@;
        stat.reset_temp_modifiers();
        let mask = kinds_mask(buffs);
        let kinds = ordered_kinds(buffs);
        let mut body_override: Option<u64> = None;
        let mut apply_events: Vec<OutEvent> = Vec::new();
        let ghost target = apply_kinds_spec(
            ordered_kinds_spec(buffs.entries@),
            buffs.entries@,
            *entity_pos,
            auras@,
            links@,
            immunity,
            stats_base_spec(),
            current_body,
            None,
            *health,
            *energy,
            Seq::empty(),
            dt,
            time,
            kinds_mask_spec(buffs.entries@),
        );
        proof {
            assert(kinds@.skip(0) =~= kinds@);
        }
        let mut i: usize = 0;
        while i < kinds.len()
            invariant
                buffs.wf(),
                time <= TIME_LIMIT,
                i <= kinds@.len(),
                target == apply_kinds_spec(
                    kinds@.skip(i as int),
                    buffs.entries@,
                    *entity_pos,
                    auras@,
                    links@,
                    immunity,
                    stat@,
                    current_body,
                    body_override,
                    *health,
                    *energy,
                    apply_events@,
                    dt,
                    time,
                    mask,
                ),
                mask == kinds_mask_spec(buffs.entries@),
            decreases kinds@.len() - i,
        {
            proof {
                assert(kinds@.skip(i as int)[0] == kinds@[i as int]);
                assert(kinds@.skip(i as int).skip(1) =~= kinds@.skip(i + 1));
            }
            let kind = kinds[i];
            if !(immunity && !kind.is_buff()) {
                let mut selected = buffs.keys_of_kind(kind);
                if !kind.stacks() && selected.len() > 1 {
                    selected.truncate(1);
                    proof {
                        assert(kind_keys_spec(buffs.entries@, kind).subrange(0, 1)
                            =~= kind_keys_spec(buffs.entries@, kind).take(1));
                    }
                }
                proof {
                    if !stacks_spec(kind) && kind_keys_spec(buffs.entries@, kind).len() == 1 {
                        assert(kind_keys_spec(buffs.entries@, kind).take(1) =~= kind_keys_spec(
                            buffs.entries@,
                            kind,
                        ));
                    }
                    assert(selected@ == selected_keys_spec(buffs.entries@, kind));
                }
                apply_keys(
                    &selected,
                    buffs,
                    entity_pos,
                    auras,
                    links,
                    immunity,
                    stat,
                    current_body,
                    &mut body_override,
                    health,
                    energy,
                    &mut apply_events,
                    dt,
                    time,
                    mask,
                );
            }
            i += 1;
        }
        proof {
            assert(kinds@.skip(kinds@.len() as int).len() == 0);
        }
        let ghost apply_evs = apply_events@;
        events.append(&mut apply_events);
        let ghost base = events@;
        let new_body: u64 = match body_override {
            Some(b) => b,
            None => original_body,
        };
        let ghost has_body = new_body != current_body;
        if new_body != current_body {
            events.push(OutEvent::BodyChange { new_body });
        }
        let ghost expired_view = expired@;
        let ghost has_rm = expired@.len() > 0;
        let ghost rm_at = base.len() + (if has_body { 1int } else { 0int });
        if expired.len() > 0 {
            events.push(OutEvent::RemoveByKeys(expired));
        } else {
            proof {
                assert forall|i: int|
                    0 <= i < buffs.entries@.len() implies !marks_expired_spec(
                    (#[trigger] buffs.entries@[i]).1,
                    *entity_pos,
                    auras@,
                    links@,
                    immunity,
                    time,
                ) by {
                    if marks_expired_spec(buffs.entries@[i].1, *entity_pos, auras@, links@, immunity, time) {
                        assert(expired@.contains(buffs.entries@[i].0));
                    }
                }
            }
        }
        if health.is_dead {
            events.push(OutEvent::RemoveNotPersistent);
        }
        proof {
            let entries = buffs.entries@;
            let detached = detach_indices_spec(entries, *entity_pos, auras@, links@);
            assert(base == detach_evs + apply_evs);
            assert forall|j: int| 0 <= j < detached.len() implies events@[j] == detach_evs[j] by {
                assert(base[j] == detach_evs[j]);
            }
            assert(events@.subrange(
                detach_evs.len() as int,
                (detach_evs.len() + apply_evs.len()) as int,
            ) =~= apply_evs);
            if has_body {
                assert(events@[base.len() as int] == (OutEvent::BodyChange { new_body }));
            }
            if has_rm {
                assert(events@[rm_at] matches OutEvent::RemoveByKeys(ks) && ks@ == expired_view);
            }
            if health.is_dead {
                assert(events@.last() == OutEvent::RemoveNotPersistent);
            }
        }
        events
    }
}

// ---- environmental buff application (pre-pass) ----

/// Ground sprites that apply buffs on contact.
#[derive(Clone, Copy, Debug, PartialEq, Eq, Structural)]
pub enum GroundSprite {
    EnsnaringVines,
    EnsnaringWeb,
    SeaUrchin,
    HaniwaTrap,
    HaniwaTrapTriggered,
    IronSpike,
    HotSurface,
    IceSpike,
    FireBlock,
}

#[derive(Clone, Copy, Debug, PartialEq, Eq, Structural)]
pub enum LiquidKind {
    Water,
    Lava,
}

/// Second in time units.
pub const SECOND: u64 = 1_000_000;

/// The environmental buffs applied for one physical contact state: a fixed,
/// deterministic mapping from sprite and fluid kind to buff requests. Lava
/// sets a non-negating body burning; water strips an active burning buff.
/// This pass runs before resolution so its buffs are visible the same tick.
pub open spec fn environment_events_spec(
    ground: Option<GroundSprite>,
    fluid: Option<LiquidKind>,
    burning_active: bool,
    immune_bleeding: bool,
    negates_burning: bool,
) -> Seq<OutEvent> {
    let sprite_evs: Seq<OutEvent> = match ground {
        Some(GroundSprite::EnsnaringVines) => seq![
            OutEvent::AddBuff {
                kind: BuffKind::Ensnared,
                strength: (FP_ONE / 2) as u64,
                duration: Some((SECOND / 10) as u64),
                natural: false,
            },
        ],
        Some(GroundSprite::EnsnaringWeb) => seq![
            OutEvent::AddBuff {
                kind: BuffKind::Ensnared,
                strength: FP_ONE,
                duration: Some(SECOND),
                natural: false,
            },
        ],
        Some(GroundSprite::SeaUrchin) => seq![
            OutEvent::AddBuff {
                kind: BuffKind::Bleeding,
                strength: FP_ONE,
                duration: Some((6 * SECOND) as u64),
                natural: false,
            },
        ],
        Some(GroundSprite::HaniwaTrap) => {
            if immune_bleeding {
                Seq::empty()
            } else {
                seq![
                    OutEvent::AddBuff {
                        kind: BuffKind::Bleeding,
                        strength: (5 * FP_ONE) as u64,
                        duration: Some((3 * SECOND) as u64),
                        natural: false,
                    },
                ]
            }
        },
        Some(GroundSprite::IronSpike) | Some(GroundSprite::HaniwaTrapTriggered) => seq![
            OutEvent::AddBuff {
                kind: BuffKind::Bleeding,
                strength: FP_ONE,
                duration: Some((4 * SECOND) as u64),
                natural: false,
            },
        ],
        Some(GroundSprite::HotSurface) => seq![
            OutEvent::AddBuff {
                kind: BuffKind::Burning,
                strength: (10 * FP_ONE) as u64,
                duration: None,
                natural: false,
            },
        ],
        Some(GroundSprite::IceSpike) => seq![
            OutEvent::AddBuff {
                kind: BuffKind::Bleeding,
                strength: (15 * FP_ONE) as u64,
                duration: Some((SECOND / 10) as u64),
                natural: false,
            },
            OutEvent::AddBuff {
                kind: BuffKind::Frozen,
                strength: (FP_ONE / 5) as u64,
                duration: Some((3 * SECOND) as u64),
                natural: false,
            },
        ],
        Some(GroundSprite::FireBlock) => seq![
            OutEvent::AddBuff {
                kind: BuffKind::Burning,
                strength: (20 * FP_ONE) as u64,
                duration: None,
                natural: false,
            },
        ],
        None => Seq::empty(),
    };
    let fluid_evs: Seq<OutEvent> = match fluid {
        Some(LiquidKind::Lava) => {
            if !negates_burning {
                seq![
                    OutEvent::AddBuff {
                        kind: BuffKind::Burning,
                        strength: (20 * FP_ONE) as u64,
                        duration: None,
                        natural: true,
                    },
                ]
            } else {
                Seq::empty()
            }
        },
        Some(LiquidKind::Water) => {
            if burning_active {
                seq![OutEvent::RemoveByKind(BuffKind::Burning)]
            } else {
                Seq::empty()
            }
        },
        None => Seq::empty(),
    };
    sprite_evs + fluid_evs
}

/// Apply the environmental buff table for one entity's contact state.
pub fn environment_events(
    ground: Option<GroundSprite>,
    fluid: Option<LiquidKind>,
    burning_active: bool,
    immune_bleeding: bool,
    negates_burning: bool,
) -> (r: Vec<OutEvent>)
    ensures
        r@ == environment_events_spec(
            ground,
            fluid,
            burning_active,
            immune_bleeding,
            negates_burning,
        ),
{
    let mut out: Vec<OutEvent> = Vec::new();
    match ground {
        Some(GroundSprite::EnsnaringVines) => {
            out.push(OutEvent::AddBuff {
                kind: BuffKind::Ensnared,
                strength: FP_ONE / 2,
                duration: Some(SECOND / 10),
                natural: false,
            });
        },
        Some(GroundSprite::EnsnaringWeb) => {
            out.push(OutEvent::AddBuff {
                kind: BuffKind::Ensnared,
                strength: FP_ONE,
                duration: Some(SECOND),
                natural: false,
            });
        },
        Some(GroundSprite::SeaUrchin) => {
            out.push(OutEvent::AddBuff {
                kind: BuffKind::Bleeding,
                strength: FP_ONE,
                duration: Some(6 * SECOND),
                natural: false,
            });
        },
        Some(GroundSprite::HaniwaTrap) => {
            if !immune_bleeding {
                out.push(OutEvent::AddBuff {
                    kind: BuffKind::Bleeding,
                    strength: 5 * FP_ONE,
                    duration: Some(3 * SECOND),
                    natural: false,
                });
            }
        },
        Some(GroundSprite::IronSpike) | Some(GroundSprite::HaniwaTrapTriggered) => {
            out.push(OutEvent::AddBuff {
                kind: BuffKind::Bleeding,
                strength: FP_ONE,
                duration: Some(4 * SECOND),
                natural: false,
            });
        },
        Some(GroundSprite::HotSurface) => {
            out.push(OutEvent::AddBuff {
                kind: BuffKind::Burning,
                strength: 10 * FP_ONE,
                duration: None,
                natural: false,
            });
        },
        Some(GroundSprite::IceSpike) => {
            out.push(OutEvent::AddBuff {
                kind: BuffKind::Bleeding,
                strength: 15 * FP_ONE,
                duration: Some(SECOND / 10),
                natural: false,
            });
            out.push(OutEvent::AddBuff {
                kind: BuffKind::Frozen,
                strength: FP_ONE / 5,
                duration: Some(3 * SECOND),
                natural: false,
            });
        },
        Some(GroundSprite::FireBlock) => {
            out.push(OutEvent::AddBuff {
                kind: BuffKind::Burning,
                strength: 20 * FP_ONE,
                duration: None,
                natural: false,
            });
        },
        None => {},
    }
    match fluid {
        Some(LiquidKind::Lava) => {
            if !negates_burning {
                out.push(OutEvent::AddBuff {
                    kind: BuffKind::Burning,
                    strength: 20 * FP_ONE,
                    duration: None,
                    natural: true,
                });
            }
        },
        Some(LiquidKind::Water) => {
            if burning_active {
                out.push(OutEvent::RemoveByKind(BuffKind::Burning));
            }
        },
        None => {},
    }
    proof {
        assert(out@ =~= environment_events_spec(
            ground,
            fluid,
            burning_active,
            immune_bleeding,
            negates_burning,
        ));
    }
    out
}

} // verus!

