//! Why a convolution is not launched.
use vstd::prelude::*;

verus! {

/// Why a convolution is not launched.
#[derive(Clone, Copy, Debug, PartialEq, Eq, Structural)]
pub enum ConvSetupError {
    /// The routine needs one group and was handed this many.
    Groups(usize),
}

} // verus!
