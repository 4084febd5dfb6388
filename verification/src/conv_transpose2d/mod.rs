//! Transposed convolution.
pub mod axis;
pub mod position;
pub mod products;
pub mod sum;
pub mod transpose_direct;
