//! Core of a real-time NPC simulation: a combinator engine for resumable,
//! interruptible behaviours, a tick-skipping scheduler for large simulated
//! populations, a validated mount/rider link store, and a buff resolution
//! engine with exact tick-accumulation arithmetic.

pub mod action;
pub mod audio;
pub mod behavior;
pub mod buffs;
pub mod mounting;
pub mod npc;
pub mod rng;
pub mod scheduler;
pub mod skills;

use vstd::prelude::*;

verus! {

} // verus!
