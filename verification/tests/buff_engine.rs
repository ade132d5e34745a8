use rtsim_core::buffs::{
    collect_expired, environment_events, frame_amount, AuraView, Buff, BuffCategory, BuffEffect,
    BuffKind, BuffSource, Buffs, EnergyInfo, GroundSprite, HealthInfo, LiquidKind, ModifierKind,
    OutEvent, Stats, Sys, FP_ONE,
};
use rtsim_core::npc::{Actor, WPos};

const T: u64 = 1_000_000; // one effect tick, in time units

fn health() -> HealthInfo {
    HealthInfo { maximum: 1000, base_max: 1000, fraction_fp: FP_ONE, is_dead: false }
}

fn energy() -> EnergyInfo {
    EnergyInfo { maximum: 500 }
}

fn plain_buff(kind: BuffKind, strength: u64, effects: Vec<BuffEffect>) -> Buff {
    Buff {
        kind,
        strength,
        start_time: 0,
        end_time: None,
        source: BuffSource::World,
        cat_ids: Vec::new(),
        effects,
    }
}

/// Tick accumulation is exact under an arbitrary frame partition: seven
/// irregular frames summing to exactly two tick durations emit exactly
/// `rate * 2 * T`, no matter how the frames carve the time up.
#[test]
fn tick_accumulation_partition_independent() {
    let rate: i64 = 5;
    let frames: [u64; 7] = [300_000, 123_456, 576_544, 300_000, 250_000, 250_000, 200_000];
    assert_eq!(frames.iter().sum::<u64>(), 2 * T);
    let mut elapsed: u64 = 0;
    let mut total: i64 = 0;
    for dt in frames {
        elapsed += dt;
        if let Some(amount) = frame_amount(rate, T, elapsed, dt, false) {
            total += amount;
        }
    }
    assert_eq!(total, rate * 2 * T as i64);

    // A different partition of the same span emits the same total.
    let frames2: [u64; 3] = [1_999_999, 0, 1];
    let mut elapsed2: u64 = 0;
    let mut total2: i64 = 0;
    for dt in frames2 {
        elapsed2 += dt;
        if let Some(amount) = frame_amount(rate, T, elapsed2, dt, false) {
            total2 += amount;
        }
    }
    assert_eq!(total2, total);
}

/// A buff expiring mid-tick-interval includes the fractional partial tick in
/// its final frame, so the lifetime total is `rate * duration` exactly, not
/// `rate * floor(duration / T) * T`.
#[test]
fn expiry_includes_fractional_tick() {
    let rate: i64 = 4;
    let duration: u64 = 2_500_000; // two and a half effect ticks
    let frames: [u64; 4] = [900_000, 700_000, 500_000, 400_000];
    assert_eq!(frames.iter().sum::<u64>(), duration);
    let mut elapsed: u64 = 0;
    let mut total: i64 = 0;
    for (i, dt) in frames.iter().enumerate() {
        elapsed += dt;
        let expiring = i == frames.len() - 1;
        if let Some(amount) = frame_amount(rate, T, elapsed, *dt, expiring) {
            total += amount;
        }
    }
    assert_eq!(total, rate * duration as i64);
    assert!(total != rate * 2 * T as i64); // the naive floored total
}

/// A frame that crosses no effect tick of a continuing buff emits nothing;
/// the progress is picked up later, never double-counted.
#[test]
fn fractional_progress_dropped_while_running() {
    assert_eq!(frame_amount(10, T, 400_000, 400_000, false), None);
    // The next frame crosses the tick boundary and pays out the whole tick.
    assert_eq!(frame_amount(10, T, 1_100_000, 700_000, false), Some(10 * T as i64));
}

/// Three non-stacking buffs of the same kind: resolution applies exactly one
/// instance, the stored-first (strongest) one.
#[test]
fn non_stacking_kind_applies_single_strongest() {
    let mut buffs = Buffs::new();
    // Inserted out of order; insertion keeps each kind strongest-first.
    buffs.insert(plain_buff(
        BuffKind::Frozen,
        FP_ONE,
        vec![BuffEffect::MovementSpeed(900_000)],
    ));
    buffs.insert(plain_buff(
        BuffKind::Frozen,
        3 * FP_ONE,
        vec![BuffEffect::MovementSpeed(500_000)],
    ));
    buffs.insert(plain_buff(
        BuffKind::Frozen,
        2 * FP_ONE,
        vec![BuffEffect::MovementSpeed(800_000)],
    ));
    let mut stat = Stats::new();
    let events = Sys::run_entity(
        &buffs,
        &WPos { x: 0, y: 0, z: 0 },
        &Vec::new(),
        &Vec::new(),
        0,
        1,
        1,
        &health(),
        &energy(),
        &mut stat,
        100,
        1000,
    );
    // Only the strongest instance's modifier shows: 1.0 * 0.5, not stacked.
    assert_eq!(stat.move_speed_mult, 500_000);
    assert!(events.is_empty());
}

/// A stacking kind applies every instance: two burning buffs both land their
/// movement penalty (compounding multiplicatively).
#[test]
fn stacking_kind_applies_all_instances() {
    let mut buffs = Buffs::new();
    buffs.insert(plain_buff(
        BuffKind::Burning,
        FP_ONE,
        vec![BuffEffect::AttackSpeed(500_000)],
    ));
    buffs.insert(plain_buff(
        BuffKind::Burning,
        FP_ONE,
        vec![BuffEffect::AttackSpeed(500_000)],
    ));
    let mut stat = Stats::new();
    let _ = Sys::run_entity(
        &buffs,
        &WPos { x: 0, y: 0, z: 0 },
        &Vec::new(),
        &Vec::new(),
        0,
        1,
        1,
        &health(),
        &energy(),
        &mut stat,
        100,
        1000,
    );
    assert_eq!(stat.attack_speed_mult, 250_000);
}

/// A buff tied to an aura whose source moved out of range detaches: it is
/// removed and replaced by a plain copy with the same numeric effect and the
/// same remaining duration, only the conditional tag stripped.
#[test]
fn aura_sourced_buff_detaches_on_range_loss() {
    let source = Actor::Npc(5);
    let mut buffs = Buffs::new();
    let key = buffs.insert(Buff {
        kind: BuffKind::ProtectingWard,
        strength: 2 * FP_ONE,
        start_time: 100,
        end_time: Some(9_000_000),
        source: BuffSource::Character(source),
        cat_ids: vec![BuffCategory::Magical, BuffCategory::FromActiveAura(source, 77)],
        effects: vec![BuffEffect::DamageReduction(600_000)],
    });
    // The aura exists but its bearer stands far outside the radius.
    let auras = vec![AuraView {
        source,
        key: 77,
        pos: WPos { x: 1_000, y: 0, z: 0 },
        radius_sq: 100,
    }];
    let (expired, events) = collect_expired(
        &buffs,
        &WPos { x: 0, y: 0, z: 0 },
        &auras,
        &Vec::new(),
        false,
        1_000,
    );
    assert_eq!(expired, vec![key]);
    assert_eq!(events.len(), 1);
    match &events[0] {
        OutEvent::AddDetached { old_key, buff } => {
            assert_eq!(*old_key, key);
            assert_eq!(buff.kind, BuffKind::ProtectingWard);
            assert_eq!(buff.strength, 2 * FP_ONE);
            assert_eq!(buff.start_time, 100);
            assert_eq!(buff.end_time, Some(9_000_000));
            assert_eq!(buff.effects, vec![BuffEffect::DamageReduction(600_000)]);
            assert_eq!(buff.cat_ids, vec![BuffCategory::Magical]);
        },
        other => panic!("expected a detach event, got {:?}", other),
    }

    // In range, the buff is kept untouched.
    let near = vec![AuraView {
        source,
        key: 77,
        pos: WPos { x: 3, y: 4, z: 0 },
        radius_sq: 25,
    }];
    let (expired2, events2) = collect_expired(
        &buffs,
        &WPos { x: 0, y: 0, z: 0 },
        &near,
        &Vec::new(),
        false,
        1_000,
    );
    assert!(expired2.is_empty());
    assert!(events2.is_empty());
}

/// Complete damage immunity expires every buff that is not inherently
/// beneficial.
#[test]
fn immunity_expires_harmful_buffs() {
    let mut buffs = Buffs::new();
    let harmful = buffs.insert(plain_buff(BuffKind::Bleeding, FP_ONE, Vec::new()));
    let helpful = buffs.insert(plain_buff(BuffKind::Regeneration, FP_ONE, Vec::new()));
    let (expired, _) = collect_expired(
        &buffs,
        &WPos { x: 0, y: 0, z: 0 },
        &Vec::new(),
        &Vec::new(),
        true,
        1_000,
    );
    assert!(expired.contains(&harmful));
    assert!(!expired.contains(&helpful));
}

/// A health-over-time buff emits a health change event when a tick boundary
/// is crossed, attributed to its kind.
#[test]
fn health_over_time_emits_events() {
    let mut buffs = Buffs::new();
    buffs.insert(Buff {
        kind: BuffKind::Regeneration,
        strength: FP_ONE,
        start_time: 0,
        end_time: None,
        source: BuffSource::World,
        cat_ids: Vec::new(),
        effects: vec![BuffEffect::HealthChangeOverTime {
            rate: 3,
            kind: ModifierKind::Additive,
            instance: 11,
            tick_dur: T,
        }],
    });
    let mut stat = Stats::new();
    let events = Sys::run_entity(
        &buffs,
        &WPos { x: 0, y: 0, z: 0 },
        &Vec::new(),
        &Vec::new(),
        0,
        1,
        1,
        &health(),
        &energy(),
        &mut stat,
        T,
        T,
    );
    assert_eq!(events.len(), 1);
    match &events[0] {
        OutEvent::Health { amount, cause, instance, .. } => {
            assert_eq!(*amount, 3 * T as i64);
            assert_eq!(*cause, Some(BuffKind::Regeneration));
            assert_eq!(*instance, 11);
        },
        other => panic!("expected a health event, got {:?}", other),
    }
}

/// Death strips everything that does not persist on death, as the last event.
#[test]
fn death_emits_bulk_removal() {
    let mut buffs = Buffs::new();
    buffs.insert(plain_buff(BuffKind::Potion, FP_ONE, Vec::new()));
    let dead = HealthInfo { maximum: 1000, base_max: 1000, fraction_fp: 0, is_dead: true };
    let mut stat = Stats::new();
    let events = Sys::run_entity(
        &buffs,
        &WPos { x: 0, y: 0, z: 0 },
        &Vec::new(),
        &Vec::new(),
        0,
        1,
        1,
        &dead,
        &energy(),
        &mut stat,
        100,
        1000,
    );
    assert_eq!(events.last(), Some(&OutEvent::RemoveNotPersistent));
}

/// The environmental pre-pass: lava sets a non-negating body burning; water
/// strips an active burning buff.
#[test]
fn environment_mapping_is_fixed() {
    let lava = environment_events(None, Some(LiquidKind::Lava), false, false, false);
    assert_eq!(lava.len(), 1);
    match &lava[0] {
        OutEvent::AddBuff { kind, strength, duration, natural } => {
            assert_eq!(*kind, BuffKind::Burning);
            assert_eq!(*strength, 20 * FP_ONE);
            assert_eq!(*duration, None);
            assert!(*natural);
        },
        other => panic!("expected a burning request, got {:?}", other),
    }
    let water = environment_events(None, Some(LiquidKind::Water), true, false, false);
    assert_eq!(water, vec![OutEvent::RemoveByKind(BuffKind::Burning)]);
    let spikes = environment_events(Some(GroundSprite::IceSpike), None, false, false, false);
    assert_eq!(spikes.len(), 2);
    let trap_immune = environment_events(Some(GroundSprite::HaniwaTrap), None, false, true, false);
    assert!(trap_immune.is_empty());
}
