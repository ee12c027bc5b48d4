//! Fidelity tier selection for optional rendering quality features.
//!
//! Tiers only add visual polish; they never change simulation behaviour.

use vstd::prelude::*;

verus! {

/// Rendering fidelity tier. `Tier0` is the mobile-safe baseline, `Tier2`
/// enables the PC polish features.
#[derive(Debug, Clone, Copy, PartialEq, Eq, Hash, Structural)]
pub enum FidelityTier {
    Tier0,
    Tier2,
}

impl FidelityTier {
    /// Short human-readable label for overlay display.
    pub fn label(self) -> (r: &'static str)
        ensures
            self is Tier0 ==> r@ == "Tier 0 (Mobile)"@,
            self is Tier2 ==> r@ == "Tier 2 (PC)"@,
    {
        match self {
            FidelityTier::Tier0 => "Tier 0 (Mobile)",
            FidelityTier::Tier2 => "Tier 2 (PC)",
        }
    }

    /// Label as an owned string, for display layers that want one.
    pub fn display(self) -> (r: String)
        ensures
            self is Tier0 ==> r@ == "Tier 0 (Mobile)"@,
            self is Tier2 ==> r@ == "Tier 2 (PC)"@,
    {
        let s: &'static str = self.label();
        s.to_owned()
    }

    /// Cycle to the next tier (wraps around).
    pub fn next(self) -> (r: FidelityTier)
        ensures
            self is Tier0 ==> r is Tier2,
            self is Tier2 ==> r is Tier0,
    {
        match self {
            FidelityTier::Tier0 => FidelityTier::Tier2,
            FidelityTier::Tier2 => FidelityTier::Tier0,
        }
    }

    /// All tiers in display order.
    pub fn all() -> (r: Vec<FidelityTier>)
        ensures
            r@.len() == 2,
            r@[0] is Tier0,
            r@[1] is Tier2,
    {
        let mut v: Vec<FidelityTier> = Vec::new();
        v.push(FidelityTier::Tier0);
        v.push(FidelityTier::Tier2);
        v
    }
}

impl Default for FidelityTier {
    /// The default tier is the mobile-safe baseline.
    fn default() -> (r: Self)
        ensures
            r is Tier0,
    {
        FidelityTier::Tier0
    }
}

} // verus!
