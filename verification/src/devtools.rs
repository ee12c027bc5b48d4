//! Requests the debug overlay hands back to the host loop.

use vstd::prelude::*;

verus! {

/// What the user asked for through the overlay this frame.
#[derive(Debug, Clone, Copy, PartialEq, Eq, Structural)]
pub struct OverlayActions {
    /// Cycle to the next fidelity tier.
    pub cycle_tier: bool,
    /// Toggle the simulation pause.
    pub toggle_pause: bool,
    /// Advance one fixed step while paused.
    pub single_step: bool,
}

impl Default for OverlayActions {
    /// No actions requested.
    fn default() -> (r: Self)
        ensures
            r == (OverlayActions { cycle_tier: false, toggle_pause: false, single_step: false }),
    {
        OverlayActions { cycle_tier: false, toggle_pause: false, single_step: false }
    }
}

} // verus!
