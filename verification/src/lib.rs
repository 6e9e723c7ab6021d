//! Gameplay economy engine for an idle mining game.
//!
//! The engine tracks at most one active mining session per player, rolls loot
//! from weighted recursive loot tables, batches generated items for bulk
//! persistence, debits inventory quality to pay upgrade costs, and computes
//! the upgrade cost curve.
//!
//! Quantities that the wire format carries as fractions are held here in
//! fixed point: item quality and cost quality in millionths
//! (`QUALITY_SCALE`), per-tier base values in hundredths, and carried item
//! values in thousandths of the currency unit.

use vstd::prelude::*;

pub mod auth;
pub mod batch;
pub mod items;
pub mod ledger;
pub mod loot;
pub mod mine;
pub mod queries;
pub mod rng;
pub mod upgrades;

verus! {

/// Item quality is a fraction in [0, 1); it is held in millionths.
pub const QUALITY_SCALE: u32 = 1_000_000;

} // verus!
