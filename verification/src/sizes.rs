//! The sizes of what a convolution and a transposed convolution produce along one axis.
use vstd::prelude::*;

verus! {

/// The size that a convolution produces along an axis of size `size_in`: how often the dilated
/// kernel fits into the padded axis at this stride.
pub open spec fn conv_output_size(
    kernel: int,
    stride: int,
    padding: (int, int),
    dilation: int,
    size_in: int,
) -> int {
    (size_in + padding.0 + padding.1 - dilation * (kernel - 1) - 1) / stride + 1
}

/// Whether the dilated kernel fits into the padded axis, in machine integers.
pub open spec fn conv_size_fits(
    kernel: int,
    stride: int,
    padding: (int, int),
    dilation: int,
    size_in: int,
) -> bool {
    &&& kernel > 0
    &&& stride > 0
    &&& size_in + padding.0 + padding.1 <= usize::MAX
    &&& dilation * (kernel - 1) < size_in + padding.0 + padding.1
}

/// [`conv_output_size`] along axis `i`.
pub open spec fn conv_output_size_along(
    kernel: Seq<usize>,
    stride: Seq<usize>,
    padding: Seq<(usize, usize)>,
    dilation: Seq<usize>,
    size_in: Seq<usize>,
    i: int,
) -> int {
    conv_output_size(
        kernel[i] as int,
        stride[i] as int,
        (padding[i].0 as int, padding[i].1 as int),
        dilation[i] as int,
        size_in[i] as int,
    )
}

/// [`conv_size_fits`] along every axis, each of which has its parameters.
pub open spec fn conv_sizes_fit(
    kernel: Seq<usize>,
    stride: Seq<usize>,
    padding: Seq<(usize, usize)>,
    dilation: Seq<usize>,
    size_in: Seq<usize>,
) -> bool {
    &&& size_in.len() <= kernel.len()
    &&& size_in.len() <= stride.len()
    &&& size_in.len() <= padding.len()
    &&& size_in.len() <= dilation.len()
    &&& forall|i: int|
        0 <= i < size_in.len() ==> conv_size_fits(
            kernel[i] as int,
            stride[i] as int,
            (padding[i].0 as int, padding[i].1 as int),
            dilation[i] as int,
            #[trigger] size_in[i] as int,
        )
}

/// `burn_backend::ops::conv::calculate_conv_output_sizes`: along each axis of `size_in` it counts
/// how often the dilated kernel fits into the padded axis, in plain machine arithmetic.
pub assume_specification[ burn_backend::ops::conv::calculate_conv_output_sizes ](
    kernel_size: &[usize],
    stride: &[usize],
    padding: &[(usize, usize)],
    dilation: &[usize],
    size_in: &[usize],
) -> (size_out: Vec<usize>)
    requires
        conv_sizes_fit(kernel_size@, stride@, padding@, dilation@, size_in@),
    ensures
        size_out@.len() == size_in@.len(),
        forall|i: int|
            0 <= i < size_in@.len() ==> #[trigger] size_out@[i] == conv_output_size_along(
                kernel_size@,
                stride@,
                padding@,
                dilation@,
                size_in@,
                i,
            ),
;

/// The size that a transposed convolution produces along an axis of size `size_in`.
pub open spec fn transpose_output_size(
    kernel: int,
    stride: int,
    padding: int,
    padding_out: int,
    dilation: int,
    size_in: int,
) -> int {
    (size_in - 1) * stride + dilation * (kernel - 1) + padding_out - 2 * padding + 1
}

/// Whether the padding leaves anything of the output, in machine integers.
pub open spec fn transpose_size_fits(
    kernel: int,
    stride: int,
    padding: int,
    padding_out: int,
    dilation: int,
    size_in: int,
) -> bool {
    let padded = (size_in - 1) * stride + dilation * (kernel - 1) + padding_out;
    &&& size_in > 0
    &&& kernel > 0
    &&& padded <= usize::MAX
    &&& 2 * padding <= padded
    &&& padded - 2 * padding + 1 <= usize::MAX
}

/// The size that a transposed convolution produces along one axis.
pub fn transpose_size(
    kernel: usize,
    stride: usize,
    padding: usize,
    padding_out: usize,
    dilation: usize,
    size_in: usize,
) -> (size: usize)
    requires
        transpose_size_fits(
            kernel as int,
            stride as int,
            padding as int,
            padding_out as int,
            dilation as int,
            size_in as int,
        ),
    ensures
        size == transpose_output_size(
            kernel as int,
            stride as int,
            padding as int,
            padding_out as int,
            dilation as int,
            size_in as int,
        ),
        size == (size_in - 1) * stride + dilation * (kernel - 1) + padding_out - 2 * padding + 1,
{
    proof {
        assert(0 <= (size_in - 1) * stride && 0 <= dilation * (kernel - 1)) by (nonlinear_arith)
            requires
                size_in > 0,
                kernel > 0,
        ;
    }
    (size_in - 1) * stride + dilation * (kernel - 1) + padding_out - 2 * padding + 1
}

/// A transposed convolution undoes the size of a convolution with the same kernel, stride,
/// symmetric padding and dilation: it needs as output padding exactly the positions that the
/// convolution's stride left over, and none at a stride of one.
pub proof fn law_transpose_undoes_conv_size(
    kernel: int,
    stride: int,
    padding: int,
    dilation: int,
    size_in: int,
)
    requires
        conv_size_fits(kernel, stride, (padding, padding), dilation, size_in),
    ensures
        ({
            let size_out = conv_output_size(kernel, stride, (padding, padding), dilation, size_in);
            let left_over = (size_in + 2 * padding - dilation * (kernel - 1) - 1) % stride;
            &&& size_out > 0
            &&& 0 <= left_over < stride
            &&& stride == 1 ==> left_over == 0
            &&& transpose_output_size(kernel, stride, padding, left_over, dilation, size_out)
                == size_in
        }),
{
    let n = size_in + 2 * padding - dilation * (kernel - 1) - 1;
    assert(n == (n / stride) * stride + n % stride && 0 <= n % stride < stride && n / stride >= 0)
        by (nonlinear_arith)
        requires
            stride > 0,
            n >= 0,
    ;
}

/// The size that a convolution produces counts the windows: window `w` is one of them exactly where
/// the dilated kernel, moved by `w` strides, still ends inside the padded axis.
pub proof fn law_conv_output_size_counts_windows(
    kernel: int,
    stride: int,
    padding: (int, int),
    dilation: int,
    size_in: int,
    w: int,
)
    requires
        conv_size_fits(kernel, stride, padding, dilation, size_in),
        w >= 0,
    ensures
        w < conv_output_size(kernel, stride, padding, dilation, size_in) <==> w * stride + dilation
            * (kernel - 1) < size_in + padding.0 + padding.1,
{
    let n = size_in + padding.0 + padding.1 - dilation * (kernel - 1) - 1;
    assert(w <= n / stride <==> w * stride <= n) by (nonlinear_arith)
        requires
            stride > 0,
    ;
}

/// Only the total padding of an axis decides on its size, not on which side it stands.
pub proof fn law_padding_sides_count_alike(
    kernel: int,
    stride: int,
    padding: (int, int),
    other: (int, int),
    dilation: int,
    size_in: int,
)
    requires
        padding.0 + padding.1 == other.0 + other.1,
    ensures
        conv_output_size(kernel, stride, padding, dilation, size_in) == conv_output_size(
            kernel,
            stride,
            other,
            dilation,
            size_in,
        ),
{
}

/// Along an axis the output of a transposed convolution reaches, with its padding on both sides and
/// without what was added behind it, exactly as far as a product does: no pair of an input position
/// and a tap lands behind its end, and the last pair lands at it.
pub proof fn law_transpose_output_ends_at_the_last_product(
    kernel: int,
    stride: int,
    padding: int,
    padding_out: int,
    dilation: int,
    size_in: int,
    i: int,
    k: int,
)
    requires
        stride >= 0,
        dilation >= 0,
        0 <= i < size_in,
        0 <= k < kernel,
    ensures
        ({
            let end = transpose_output_size(
                kernel,
                stride,
                padding,
                padding_out,
                dilation,
                size_in,
            ) + 2 * padding - padding_out;
            &&& i * stride + k * dilation < end
            &&& i == size_in - 1 && k == kernel - 1 ==> i * stride + k * dilation == end - 1
        }),
{
    assert(i * stride <= (size_in - 1) * stride) by (nonlinear_arith)
        requires
            i <= size_in - 1,
            stride >= 0,
    ;
    assert(k * dilation <= dilation * (kernel - 1)) by (nonlinear_arith)
        requires
            k <= kernel - 1,
            dilation >= 0,
    ;
    if k == kernel - 1 {
        assert(k * dilation == dilation * k) by (nonlinear_arith);
    }
}

/// A convolution's size along an axis is the size that the same axis of its operands gives.
pub proof fn law_size_along_an_axis_is_of_that_axis(
    kernel: Seq<usize>,
    stride: Seq<usize>,
    padding: Seq<(usize, usize)>,
    dilation: Seq<usize>,
    size_in: Seq<usize>,
    i: int,
)
    ensures
        conv_output_size_along(kernel, stride, padding, dilation, size_in, i) == (size_in[i]
            + padding[i].0 + padding[i].1 - dilation[i] * (kernel[i] - 1) - 1) / (stride[i] as int)
            + 1,
{
}

} // verus!
