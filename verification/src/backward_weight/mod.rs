//! The gradient of a convolution with respect to its weights.
pub mod tune;
