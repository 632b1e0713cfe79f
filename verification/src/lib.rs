//! Core domain types and pure gameplay logic for Alchimera: identifiers,
//! deterministic seeds, inventories, crafting, alchemy and the rules that the
//! runtime shell applies to them.

pub mod alchemy;
pub mod crafting;
pub mod error;
pub mod game;
pub mod ids;
pub mod inventory;
pub mod item;
pub mod material;
pub mod save;
pub mod seed;
pub mod text;
pub mod validation;

use vstd::prelude::*;

verus! {

/// Stable identifier of the core domain layer, used by bootstrap smoke tests.
pub const CRATE_NAME: &'static str = "alchimera_core";

} // verus!
