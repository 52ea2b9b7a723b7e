use vstd::prelude::*;

verus! {

/// Tracks whether a case-folding operation changed any bytes.
#[derive(Debug, Clone, Copy, PartialEq, Eq, Structural)]
pub enum CaseFoldingEffect {
    /// No bytes have changed so far.
    Unchanged,
    /// We have changed at least one byte.
    Modified,
}

impl CaseFoldingEffect {
    /// The effect that records whether a change happened.
    pub open spec fn from_changed(changed: bool) -> CaseFoldingEffect {
        if changed {
            CaseFoldingEffect::Modified
        } else {
            CaseFoldingEffect::Unchanged
        }
    }

    /// Returns `true` if at least one byte was changed.
    pub fn changed(&self) -> (r: bool)
        ensures
            r == (*self is Modified),
    {
        matches!(self, Self::Modified)
    }
}

} // verus!
