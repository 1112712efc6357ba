//! Reactive visual-entity synchronization for a networked role-playing client.
//!
//! The crate keeps a character's derived visual state — its rig of skeleton
//! bones and equipment-driven mesh parts, and the overlay anchor floating
//! above it — in lock-step with the character's authoritative state
//! (identity, equipment, storefront mode, mount, focus), under strict
//! no-leak and exclusive-ownership invariants on the owned child entities.

pub mod clan;
pub mod entities;
pub mod items;
pub mod model_sync;
pub mod numbers;
pub mod overlay;
pub mod shop;
pub mod skills;
pub mod world;

use vstd::prelude::*;

verus! {

/// A conservative bound on entity allocation, far above anything a client
/// session reaches; it keeps freshly spawned identifiers representable.
pub const MAX_ENTITIES: usize = 0x1000_0000;

} // verus!
