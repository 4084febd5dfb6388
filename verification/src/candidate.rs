//! What a tuner chooses between.
use crate::key::ConvAutotuneKey;
use vstd::prelude::*;

verus! {

/// Which tile matmul an accelerated routine uses.
#[derive(Clone, Copy, Debug, PartialEq, Eq, Structural)]
pub enum AcceleratedTileKind {
    Cmma,
    Mma,
}

/// How a depthwise routine cuts its output into tiles.
#[derive(Clone, Copy, Debug, PartialEq, Eq, Structural)]
pub struct DepthwiseTiling {
    pub rows: usize,
    pub cols: usize,
    pub chans: usize,
    pub lines: usize,
}

/// Who decides on the tiling of a depthwise routine.
#[derive(Clone, Copy, Debug, PartialEq, Eq, Structural)]
pub enum DepthwiseStrategy {
    /// The routine itself, from the problem.
    Routine,
    /// The caller.
    Fixed(DepthwiseTiling),
}

/// What a candidate runs.
#[derive(Clone, Copy, Debug, PartialEq, Eq, Structural)]
pub enum Routine {
    /// `conv_direct`: a convolution, one unit of work per output element.
    ConvDirect,
    /// `conv_depthwise`: a convolution with one filter per channel.
    ConvDepthwise(DepthwiseStrategy),
    /// `conv_im2col_1x1`: a pointwise convolution as one matrix product.
    ConvIm2col1x1,
    /// `conv_gemm_simple_sync`.
    ConvGemmSimpleSync(AcceleratedTileKind),
    /// `conv_gemm_simple_async`.
    ConvGemmSimpleAsync(AcceleratedTileKind),
    /// `conv_gemm_simple_tma`.
    ConvGemmSimpleTma(AcceleratedTileKind),
    /// `conv_data_backward_fallback`: a data gradient as a transposed convolution.
    ConvDataBackwardFallback,
    /// `dgrad_im2col_1x1`: the data gradient of a pointwise convolution as one matrix product.
    DgradIm2col1x1,
    /// `dgrad_gemm_simple_sync`.
    DgradGemmSimpleSync(AcceleratedTileKind),
    /// `dgrad_gemm_simple_async`.
    DgradGemmSimpleAsync(AcceleratedTileKind),
    /// `dgrad_gemm_simple_tma`.
    DgradGemmSimpleTma(AcceleratedTileKind),
    /// `conv_weight_backward_fallback`: a weight gradient as a convolution.
    ConvWeightBackwardFallback,
}

/// One candidate of a tuner: the name that the tuner logs it under, and what it runs.
#[derive(Clone, Copy, Debug)]
pub struct Candidate {
    pub name: &'static str,
    pub routine: Routine,
}

impl View for Candidate {
    type V = (Seq<char>, Routine);

    open spec fn view(&self) -> (Seq<char>, Routine) {
        (self.name@, self.routine)
    }
}

/// The names and routines of a list of candidates.
pub open spec fn registrations(candidates: Seq<Candidate>) -> Seq<(Seq<char>, Routine)> {
    candidates.map_values(|candidate: Candidate| candidate@)
}

/// What a tuner is run with: the key that it looks its decision up by, the candidates that it
/// decides between, and the inputs that it hands to the one it picks.
pub struct Tuning<I> {
    pub key: ConvAutotuneKey,
    pub candidates: Vec<Candidate>,
    pub inputs: I,
}

} // verus!
