use rtsim_core::mounting::{MountingError, NpcLinks};
use rtsim_core::npc::{Actor, BodyTag, DayPeriod, Npc, Role, SimulationMode, WPos, WorldView};
use rtsim_core::scheduler::{brain_dt, eligible, tick_all, DtWindow, SIMULATED_TICK_SKIP};

#[test]
fn self_mount_always_rejected() {
    let mut links = NpcLinks::new();
    let r = links.add_mounting(4, Actor::Npc(4), true, true);
    assert_eq!(r, Err(MountingError::MountSelf));
    // Nothing was recorded.
    assert!(links.get_mount_link(Actor::Npc(4)).is_none());
}

#[test]
fn second_steerer_rejected() {
    let mut links = NpcLinks::new();
    let first = links.steer(1, Actor::Npc(2), true);
    assert!(first.is_ok());
    let second = links.steer(1, Actor::Npc(3), true);
    assert_eq!(second, Err(MountingError::HasSteerer));
    // A plain passenger is still welcome.
    assert!(links.ride(1, Actor::Npc(3), true).is_ok());
}

#[test]
fn chained_mounts_rejected() {
    let mut links = NpcLinks::new();
    links.steer(1, Actor::Npc(2), true).unwrap();
    // A mount cannot itself become a rider: no chains.
    assert_eq!(links.steer(3, Actor::Npc(1), true), Err(MountingError::RiderIsMounted));
    // A riding actor cannot be mounted either.
    assert_eq!(links.steer(2, Actor::Npc(9), true), Err(MountingError::MountIsRiding));
    // A rider with a link cannot take a second one.
    assert_eq!(links.ride(9, Actor::Npc(2), true), Err(MountingError::AlreadyRiding));
}

#[test]
fn dead_mount_rejected() {
    let mut links = NpcLinks::new();
    assert_eq!(links.ride(1, Actor::Npc(2), false), Err(MountingError::MountDead));
}

#[test]
fn dismount_removes_link_and_empty_rider_entry() {
    let mut links = NpcLinks::new();
    let id = links.steer(1, Actor::Npc(2), true).unwrap();
    let l = links.get_mount_link(Actor::Npc(2)).unwrap();
    assert_eq!(l.mount, 1);
    assert!(l.is_steering);
    assert_eq!(links.get(id).map(|x| x.rider), Some(Actor::Npc(2)));
    assert_eq!(links.get_steerer_link(1).map(|x| x.rider), Some(Actor::Npc(2)));

    links.dismount(Actor::Npc(2));
    // The rider no longer appears.
    assert!(links.get_mount_link(Actor::Npc(2)).is_none());
    assert!(links.get(id).is_none());
    assert!(links.get_steerer_link(1).is_none());
    // The mount's rider entry is removed entirely once empty.
    assert!(links.mount_map.iter().all(|(m, _)| *m != 1));
    // A fresh steerer can mount again afterwards.
    assert!(links.steer(1, Actor::Npc(7), true).is_ok());
}

#[test]
fn dismount_keeps_entry_while_riders_remain() {
    let mut links = NpcLinks::new();
    links.steer(1, Actor::Npc(2), true).unwrap();
    links.ride(1, Actor::Npc(3), true).unwrap();
    links.dismount(Actor::Npc(2));
    // The passenger remains, so the mount entry stays.
    assert!(links.get_mount_link(Actor::Npc(3)).is_some());
    assert!(links.mount_map.iter().any(|(m, _)| *m == 1));
    assert!(links.get_steerer_link(1).is_none());
}

/// The rolling window: after ten pushes of one-thirtieth of a second, a
/// simulated NPC polled on tick ten is handed the sum of the ten most recent
/// deltas, about a third of a second, not a single tick's delta.
#[test]
fn tick_skip_dt_accumulates_window() {
    let dt: u64 = 33_333; // one thirtieth of a second, in time units
    let mut window = DtWindow::new(SIMULATED_TICK_SKIP as usize);
    for _ in 0..10 {
        window.push(dt);
    }
    let sum = window.sum();
    assert_eq!(sum, 10 * dt);
    assert_eq!(brain_dt(SimulationMode::Simulated, dt, sum), 10 * dt);
    assert_eq!(brain_dt(SimulationMode::Loaded, dt, sum), dt);

    // Once full, a new delta evicts the oldest: the window keeps covering
    // exactly the ten most recent ticks.
    window.push(99_999);
    assert_eq!(window.sum(), 9 * dt + 99_999);
    assert_eq!(window.buf.len(), 10);
}

#[test]
fn eligibility_follows_phase_and_mode() {
    // A loaded NPC runs every tick.
    assert!(eligible(10000, Role::Civilised(None), SimulationMode::Loaded, 3, 1));
    // A simulated NPC runs only on its phase of the skip cycle.
    let seed: u32 = 3;
    let mut runs = 0;
    for tick in 0..SIMULATED_TICK_SKIP {
        if eligible(10000, Role::Civilised(None), SimulationMode::Simulated, seed, tick) {
            runs += 1;
            assert_eq!((seed as u64 + tick) % SIMULATED_TICK_SKIP, 0);
        }
    }
    assert_eq!(runs, 1);
    // The dead and vehicles never run.
    assert!(!eligible(0, Role::Civilised(None), SimulationMode::Loaded, 3, 1));
    assert!(!eligible(10000, Role::Vehicle, SimulationMode::Loaded, 3, 1));
}

fn quiet_world() -> WorldView {
    WorldView {
        day_period: DayPeriod::Noon,
        time_of_day: 0,
        is_raining: false,
        sites: Vec::new(),
        nearby: Vec::new(),
        reports: Vec::new(),
    }
}

#[test]
fn scheduler_builds_brain_lazily_and_keeps_population() {
    let mut npc = Npc::new(7, WPos { x: 0, y: 0, z: 0 }, BodyTag::Humanoid, Role::Civilised(None));
    npc.mode = SimulationMode::Loaded;
    assert!(npc.brain.is_none());
    let mut npcs = vec![npc];
    let mut window = DtWindow::new(SIMULATED_TICK_SKIP as usize);
    tick_all(&mut npcs, quiet_world(), &mut window, 0, 0, 33_333);
    assert_eq!(npcs.len(), 1);
    // The brain was constructed on the first eligible tick and persists.
    assert!(npcs[0].brain.is_some());
    tick_all(&mut npcs, quiet_world(), &mut window, 1, 33_333, 33_333);
    assert!(npcs[0].brain.is_some());
    assert_eq!(window.buf.len(), 2);
}

#[test]
fn vehicles_are_not_scheduled() {
    let mut npc = Npc::new(7, WPos { x: 0, y: 0, z: 0 }, BodyTag::Other, Role::Vehicle);
    npc.mode = SimulationMode::Loaded;
    let mut npcs = vec![npc];
    let mut window = DtWindow::new(SIMULATED_TICK_SKIP as usize);
    tick_all(&mut npcs, quiet_world(), &mut window, 0, 0, 33_333);
    assert!(npcs[0].brain.is_none());
}

#[test]
fn remove_link_by_id_frees_the_rider() {
    let mut links = NpcLinks::new();
    let id = links.ride(1, Actor::Npc(2), true).unwrap();
    links.remove_link(id);
    assert!(links.get(id).is_none());
    assert!(links.get_mount_link(Actor::Npc(2)).is_none());
    assert!(links.mount_map.iter().all(|(m, _)| *m != 1));
}
