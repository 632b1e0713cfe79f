//! Gameplay rules of the runtime shell: input bindings, hotbar selection, the
//! player inventory, hand crafting, diagnostics state and persistence snapshots.

pub mod crafting;
pub mod diagnostics;
pub mod harvesting;
pub mod input;
pub mod interaction;
pub mod persistence;
pub mod inventory_ui;
pub mod player;
pub mod runtime_metrics;
pub mod states;
pub mod streaming;

use vstd::prelude::*;

verus! {

/// Stable identifier of the gameplay layer, used by bootstrap smoke tests.
pub const CRATE_NAME: &'static str = "alchimera_game";

} // verus!
