//! The gradient of a convolution with respect to its input.
pub mod tune;
