//! The parameters of a convolution and of a transposed convolution.
use vstd::prelude::*;

verus! {

/// Convolution options over `N` spatial dimensions.
#[derive(Clone, Copy, Debug, PartialEq, Eq)]
pub struct ConvOptions<const N: usize> {
    /// Stride (non-zero).
    pub stride: [usize; N],
    /// Padding as `(begin, end)` pairs for each spatial dimension.
    pub padding: [(usize, usize); N],
    /// Dilation (non-zero).
    pub dilation: [usize; N],
    /// Groups (non-zero).
    pub groups: usize,
}

impl<const N: usize> ConvOptions<N> {
    /// The padding at the beginning of every spatial dimension.
    pub open spec fn padding_begin_spec(self) -> Seq<usize> {
        Seq::new(N as nat, |i: int| self.padding@[i].0)
    }

    /// The padding at the beginning of every spatial dimension.
    pub fn padding_begin(&self) -> (begin: [usize; N])
        ensures
            begin@ == self.padding_begin_spec(),
            forall|i: int| 0 <= i < N ==> #[trigger] begin@[i] == self.padding@[i].0,
    {
        let mut begin: [usize; N] = self.stride;
        let mut i: usize = 0;
        while i < N
            invariant
                i <= N,
                forall|j: int| 0 <= j < i ==> begin@[j] == #[trigger] self.padding@[j].0,
            decreases N - i,
        {
            begin[i] = self.padding[i].0;
            i = i + 1;
        }
        begin
    }
}

/// Transposed convolution options over `N` spatial dimensions.
#[derive(Clone, Copy, Debug, PartialEq, Eq)]
pub struct ConvTransposeOptions<const N: usize> {
    /// Stride (non-zero).
    pub stride: [usize; N],
    /// Padding.
    pub padding: [usize; N],
    /// Padding added to the output.
    pub padding_out: [usize; N],
    /// Dilation (non-zero).
    pub dilation: [usize; N],
    /// Groups (non-zero).
    pub groups: usize,
}

} // verus!
