//! The fallback of the weight gradient's tuner.
use crate::candidate::{Candidate, Routine};
use vstd::prelude::*;

verus! {

/// The name and the routine of the weight gradient's fallback.
pub open spec fn fallback_registration() -> (Seq<char>, Routine) {
    ("wgrad_fallback"@, Routine::ConvWeightBackwardFallback)
}

/// The weight gradient's fallback.
pub fn fallback() -> (candidate: Candidate)
    ensures
        candidate@ == fallback_registration(),
{
    Candidate { name: "wgrad_fallback", routine: Routine::ConvWeightBackwardFallback }
}

} // verus!
