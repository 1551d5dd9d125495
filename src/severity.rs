use vstd::prelude::*;

verus! {

/// Severity tier of a penalty, from worst to harmless.
#[derive(Clone, Copy, Debug, PartialEq, Eq, Structural)]
pub enum PenaltySeverity {
    High,
    Medium,
    Low,
    NoPenalty,
}

/// Points deducted from the base score for a penalty of the given tier.
pub open spec fn weight(s: PenaltySeverity) -> int {
    match s {
        PenaltySeverity::High => 250,
        PenaltySeverity::Medium => 150,
        PenaltySeverity::Low => 50,
        PenaltySeverity::NoPenalty => 0,
    }
}

impl PenaltySeverity {
    /// The number of points this tier deducts from the base score.
    pub fn weight(&self) -> (r: u32)
        ensures
            r as int == weight(*self),
    {
        match self {
            PenaltySeverity::High => 250,
            PenaltySeverity::Medium => 150,
            PenaltySeverity::Low => 50,
            PenaltySeverity::NoPenalty => 0,
        }
    }
}

} // verus!
