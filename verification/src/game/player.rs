//! Player markers.

use vstd::prelude::*;

verus! {

/// Marker for the controllable player entity.
#[derive(Debug, Clone, Copy, PartialEq, Eq, Default)]
pub struct Player;

} // verus!
