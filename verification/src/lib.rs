//! Convolution kernels and their tuners.
//!
//! * [`conv_transpose2d`] is the direct transposed convolution: its walk along one axis, one unit of
//!   its work, the launch over a whole output, and the sum of products that it computes.
//! * [`forward`] holds the tuner of the convolution and the launch of the accelerated ones,
//!   [`backward_data`] the tuner of the data gradient, and [`backward_weight`] the fallback of the
//!   weight gradient's.
//! * [`key`] is what a tuner remembers a convolution by, [`candidate`] what it chooses between, and
//!   [`align`] how well sizes and strides are aligned.
//! * [`sizes`], [`options`], [`tensor`], [`dtype`], [`element`] and [`error`] are what all of these
//!   speak of.
pub mod align;
pub mod backward_data;
pub mod backward_weight;
pub mod candidate;
pub mod conv_transpose2d;
pub mod dtype;
pub mod element;
pub mod error;
pub mod forward;
pub mod key;
pub mod options;
pub mod sizes;
pub mod tensor;
