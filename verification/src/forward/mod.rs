//! Convolution.
pub mod implicit_gemm;
pub mod tune;
