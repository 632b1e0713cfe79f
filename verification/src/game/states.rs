//! Game state definitions.

use vstd::prelude::*;

verus! {

/// High-level runtime state for the app shell.
#[derive(Debug, Clone, Copy, PartialEq, Eq, Hash, Structural)]
pub enum GameState {
    /// Initial state used while game resources are being prepared.
    Boot,
    /// Main interactive world simulation state.
    InGame,
    /// Paused simulation/menu state.
    Paused,
}

impl Default for GameState {
    fn default() -> (r: Self)
        ensures
            r == GameState::Boot,
    {
        GameState::Boot
    }
}

} // verus!
