//! Convolution as a matrix product whose left operand is never materialized.
pub mod launch;
