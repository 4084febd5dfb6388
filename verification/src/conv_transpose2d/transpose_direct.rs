//! Transposed convolution by the direct algorithm: one unit of work per output element.
use crate::conv_transpose2d::axis;
use crate::conv_transpose2d::axis::Axis;
use crate::conv_transpose2d::position;
use crate::conv_transpose2d::position::{contiguous, decompose_linear};
use crate::element::Element;
use crate::error::ConvSetupError;
use crate::options::ConvTransposeOptions;
use crate::sizes;
use crate::sizes::transpose_size;
use crate::tensor::StridedTensor;
use vstd::prelude::*;

verus! {

/// The parameters of the direct kernel.
#[derive(Clone, Copy, Debug, PartialEq, Eq)]
pub struct ConvArgs {
    pub conv_stride_0: usize,
    pub conv_stride_1: usize,
    pub dilation_0: usize,
    pub dilation_1: usize,
    pub padding_0: usize,
    pub padding_1: usize,
    pub groups: usize,
}

impl ConvArgs {
    pub open spec fn wf(self) -> bool {
        &&& self.conv_stride_0 > 0
        &&& self.conv_stride_1 > 0
        &&& self.dilation_0 > 0
        &&& self.dilation_1 > 0
        &&& self.groups > 0
    }

    /// The axis of height.
    pub open spec fn axis_0<E>(self, input: &StridedTensor<E>, weight: &StridedTensor<E>) -> Axis {
        Axis {
            kernel: weight.shape@[2],
            stride: self.conv_stride_0,
            dilation: self.dilation_0,
            input: input.shape@[2],
        }
    }

    /// The axis of width.
    pub open spec fn axis_1<E>(self, input: &StridedTensor<E>, weight: &StridedTensor<E>) -> Axis {
        Axis {
            kernel: weight.shape@[3],
            stride: self.conv_stride_1,
            dilation: self.dilation_1,
            input: input.shape@[3],
        }
    }
}

/// Adds to `start` what one input row and one kernel row contribute, over the pairs of column and
/// kernel column `xs`, in their order.
pub open spec fn add_row<E: Element>(
    start: E,
    input: &StridedTensor<E>,
    weight: &StridedTensor<E>,
    batch: int,
    out_c: int,
    in_c: int,
    y: (int, int),
    xs: Seq<(int, int)>,
) -> E
    decreases xs.len(),
{
    if xs.len() == 0 {
        start
    } else {
        let x = xs.last();
        add_row(start, input, weight, batch, out_c, in_c, y, xs.drop_last()).plus_spec(
            input.at(batch, in_c, y.0, x.0).times_spec(weight.at(in_c, out_c, y.1, x.1)),
        )
    }
}

/// Adds to `start` what one input channel contributes, over the pairs of row and kernel row `ys`,
/// in their order.
pub open spec fn add_plane<E: Element>(
    start: E,
    input: &StridedTensor<E>,
    weight: &StridedTensor<E>,
    batch: int,
    out_c: int,
    in_c: int,
    ys: Seq<(int, int)>,
    xs: Seq<(int, int)>,
) -> E
    decreases ys.len(),
{
    if ys.len() == 0 {
        start
    } else {
        let before = add_plane(start, input, weight, batch, out_c, in_c, ys.drop_last(), xs);
        add_row(before, input, weight, batch, out_c, in_c, ys.last(), xs)
    }
}

/// Adds to `start` what the input channels `lo..hi` contribute, in their order.
pub open spec fn add_channels<E: Element>(
    start: E,
    input: &StridedTensor<E>,
    weight: &StridedTensor<E>,
    batch: int,
    out_c: int,
    lo: int,
    hi: int,
    ys: Seq<(int, int)>,
    xs: Seq<(int, int)>,
) -> E
    decreases hi - lo,
{
    if hi <= lo {
        start
    } else {
        let before = add_channels(start, input, weight, batch, out_c, lo, hi - 1, ys, xs);
        add_plane(before, input, weight, batch, out_c, hi - 1, ys, xs)
    }
}

/// The input channels that feed output channel `oc`: those of its group.
pub open spec fn group_channels<E>(oc: int, weight: &StridedTensor<E>, args: ConvArgs) -> (int, int) {
    let per_group = weight.shape@[0] as int / args.groups as int;
    let group = oc / weight.shape@[1] as int;
    (group * per_group, group * per_group + per_group)
}

/// The value of the output element at coordinates `c`: its channel's bias, or zero without one,
/// and the products over the input channels of its group, the rows and taps that meet at its row
/// and the columns and taps that meet at its column.
pub open spec fn output_value<E: Element>(
    input: &StridedTensor<E>,
    weight: &StridedTensor<E>,
    bias: Option<&[E]>,
    args: ConvArgs,
    c: (int, int, int, int),
) -> E {
    let start = match bias {
        Some(bias) => bias@[c.1],
        None => E::zero_spec(),
    };
    let channels = group_channels(c.1, weight, args);
    add_channels(
        start,
        input,
        weight,
        c.0,
        c.1 % weight.shape@[1] as int,
        channels.0,
        channels.1,
        args.axis_0(input, weight).visited(c.2 + args.padding_0),
        args.axis_1(input, weight).visited(c.3 + args.padding_1),
    )
}

/// What the direct kernel is launched with: an output shape that belongs to the input and the
/// weights, a bias for every output channel, and sizes within its machine arithmetic.
pub open spec fn kernel_inputs_fit<E>(
    input: &StridedTensor<E>,
    weight: &StridedTensor<E>,
    bias: Option<&[E]>,
    out_shape: [usize; 4],
    args: ConvArgs,
) -> bool {
    &&& input.wf()
    &&& weight.wf()
    &&& args.wf()
    &&& out_shape@[0] <= input.shape@[0]
    &&& weight.shape@[0] <= input.shape@[1]
    &&& out_shape@[1] == weight.shape@[1] * args.groups
    &&& bias matches Some(bias) ==> out_shape@[1] <= bias@.len()
    &&& args.axis_0(input, weight).fits(out_shape@[2] + args.padding_0 - 1)
    &&& args.axis_1(input, weight).fits(out_shape@[3] + args.padding_1 - 1)
}

/// The output after one unit of work: where `pos` is a position of the output, the element there is
/// written; a unit beyond the output writes nothing.
pub open spec fn after_unit<E: Element>(
    output: Seq<E>,
    pos: int,
    input: &StridedTensor<E>,
    weight: &StridedTensor<E>,
    bias: Option<&[E]>,
    out_shape: Seq<usize>,
    args: ConvArgs,
) -> Seq<E> {
    if pos < output.len() {
        output.update(pos, output_value(input, weight, bias, args, position::coordinates(pos, out_shape)))
    } else {
        output
    }
}

/// Units of work can run in any order: what two of them leave behind does not depend on which ran
/// first.
pub proof fn law_units_commute<E: Element>(
    output: Seq<E>,
    p: nat,
    q: nat,
    input: &StridedTensor<E>,
    weight: &StridedTensor<E>,
    bias: Option<&[E]>,
    out_shape: Seq<usize>,
    args: ConvArgs,
)
    ensures
        after_unit(
            after_unit(output, p as int, input, weight, bias, out_shape, args),
            q as int,
            input,
            weight,
            bias,
            out_shape,
            args,
        ) == after_unit(
            after_unit(output, q as int, input, weight, bias, out_shape, args),
            p as int,
            input,
            weight,
            bias,
            out_shape,
            args,
        ),
{
}

/// Adds to `start` what one input row and one kernel row contribute at the padded output column
/// `base`.
fn accumulate_row<E: Element>(
    start: E,
    input: &StridedTensor<E>,
    weight: &StridedTensor<E>,
    batch: usize,
    out_c: usize,
    in_c: usize,
    in_y: usize,
    kernel_y: usize,
    axis: &Axis,
    base: usize,
) -> (sum: E)
    requires
        input.wf(),
        weight.wf(),
        axis.wf(),
        axis.fits(base as int),
        axis.input == input.shape@[3],
        axis.kernel == weight.shape@[3],
        batch < input.shape@[0],
        in_c < input.shape@[1],
        in_y < input.shape@[2],
        in_c < weight.shape@[0],
        out_c < weight.shape@[1],
        kernel_y < weight.shape@[2],
    ensures
        sum == add_row(
            start,
            input,
            weight,
            batch as int,
            out_c as int,
            in_c as int,
            (in_y as int, kernel_y as int),
            axis.visited(base as int),
        ),
{
    let (x_start, x_end) = axis.walk(base);
    let ghost y = (in_y as int, kernel_y as int);
    let mut sum: E = start;
    let mut in_x: usize = x_start;
    while in_x < x_end
        invariant
            input.wf(),
            weight.wf(),
            axis.wf(),
            axis.fits(base as int),
            axis.input == input.shape@[3],
            axis.kernel == weight.shape@[3],
            batch < input.shape@[0],
            in_c < input.shape@[1],
            in_y < input.shape@[2],
            in_c < weight.shape@[0],
            out_c < weight.shape@[1],
            kernel_y < weight.shape@[2],
            y == (in_y as int, kernel_y as int),
            x_start == axis.first(base as int),
            x_end == axis.last(base as int),
            x_start <= in_x,
            in_x <= x_end || in_x == x_start,
            sum == add_row(
                start,
                input,
                weight,
                batch as int,
                out_c as int,
                in_c as int,
                y,
                axis.meetings(base as int, x_start as int, in_x as int),
            ),
        decreases x_end - in_x,
    {
        let ghost earlier = axis.meetings(base as int, x_start as int, in_x as int);
        proof {
            assert(in_x * axis.stride <= axis.input * axis.stride) by (nonlinear_arith)
                requires
                    in_x <= axis.input,
            ;
        }
        let carried: usize = in_x * axis.stride;
        if base >= carried && (base - carried).is_multiple_of(axis.dilation) {
            let kernel_x: usize = (base - carried) / axis.dilation;
            proof {
                axis::lemma_walked_tap_exists(*axis, base as int, in_x as int);
                assert(input.contains(batch as int, in_c as int, in_y as int, in_x as int));
                assert(weight.contains(in_c as int, out_c as int, kernel_y as int, kernel_x as int));
            }
            let value: E = element(input, batch, in_c, in_y, in_x);
            let factor: E = element(weight, in_c, out_c, kernel_y, kernel_x);
            sum = sum.plus(value.times(factor));
            proof {
                assert(earlier.push((in_x as int, kernel_x as int)).drop_last() =~= earlier);
            }
        } else {
            proof {
                if axis.hit(base as int, in_x as int) {
                    axis::lemma_hit_divides(*axis, base as int, in_x as int);
                }
            }
        }
        in_x = in_x + 1;
    }
    proof {
        axis::lemma_walk_keeps_visited(*axis, base as int);
    }
    sum
}

/// Adds to `start` what one input channel contributes at the padded output row `base_0` and column
/// `base_1`.
fn accumulate_plane<E: Element>(
    start: E,
    input: &StridedTensor<E>,
    weight: &StridedTensor<E>,
    batch: usize,
    out_c: usize,
    in_c: usize,
    axis_0: &Axis,
    base_0: usize,
    axis_1: &Axis,
    base_1: usize,
) -> (sum: E)
    requires
        input.wf(),
        weight.wf(),
        axis_0.wf(),
        axis_0.fits(base_0 as int),
        axis_0.input == input.shape@[2],
        axis_0.kernel == weight.shape@[2],
        axis_1.wf(),
        axis_1.fits(base_1 as int),
        axis_1.input == input.shape@[3],
        axis_1.kernel == weight.shape@[3],
        batch < input.shape@[0],
        in_c < input.shape@[1],
        in_c < weight.shape@[0],
        out_c < weight.shape@[1],
    ensures
        sum == add_plane(
            start,
            input,
            weight,
            batch as int,
            out_c as int,
            in_c as int,
            axis_0.visited(base_0 as int),
            axis_1.visited(base_1 as int),
        ),
{
    let (y_start, y_end) = axis_0.walk(base_0);
    let ghost xs = axis_1.visited(base_1 as int);
    let mut sum: E = start;
    let mut in_y: usize = y_start;
    while in_y < y_end
        invariant
            input.wf(),
            weight.wf(),
            axis_0.wf(),
            axis_0.fits(base_0 as int),
            axis_0.input == input.shape@[2],
            axis_0.kernel == weight.shape@[2],
            axis_1.wf(),
            axis_1.fits(base_1 as int),
            axis_1.input == input.shape@[3],
            axis_1.kernel == weight.shape@[3],
            batch < input.shape@[0],
            in_c < input.shape@[1],
            in_c < weight.shape@[0],
            out_c < weight.shape@[1],
            xs == axis_1.visited(base_1 as int),
            y_start == axis_0.first(base_0 as int),
            y_end == axis_0.last(base_0 as int),
            y_start <= in_y,
            in_y <= y_end || in_y == y_start,
            sum == add_plane(
                start,
                input,
                weight,
                batch as int,
                out_c as int,
                in_c as int,
                axis_0.meetings(base_0 as int, y_start as int, in_y as int),
                xs,
            ),
        decreases y_end - in_y,
    {
        let ghost earlier = axis_0.meetings(base_0 as int, y_start as int, in_y as int);
        proof {
            assert(in_y * axis_0.stride <= axis_0.input * axis_0.stride) by (nonlinear_arith)
                requires
                    in_y <= axis_0.input,
            ;
        }
        let carried: usize = in_y * axis_0.stride;
        if base_0 >= carried && (base_0 - carried).is_multiple_of(axis_0.dilation) {
            let kernel_y: usize = (base_0 - carried) / axis_0.dilation;
            proof {
                axis::lemma_walked_tap_exists(*axis_0, base_0 as int, in_y as int);
            }
            sum = accumulate_row(
                sum,
                input,
                weight,
                batch,
                out_c,
                in_c,
                in_y,
                kernel_y,
                axis_1,
                base_1,
            );
            proof {
                assert(earlier.push((in_y as int, kernel_y as int)).drop_last() =~= earlier);
            }
        } else {
            proof {
                if axis_0.hit(base_0 as int, in_y as int) {
                    axis::lemma_hit_divides(*axis_0, base_0 as int, in_y as int);
                }
            }
        }
        in_y = in_y + 1;
    }
    proof {
        axis::lemma_walk_keeps_visited(*axis_0, base_0 as int);
    }
    sum
}

/// What one unit of work does: where `pos` is a position of the output, it computes the element
/// there and writes it; a unit beyond the output writes nothing.
pub fn conv_transpose2d_direct_kernel<E: Element>(
    pos: usize,
    input: &StridedTensor<E>,
    weight: &StridedTensor<E>,
    bias: Option<&[E]>,
    output: &mut Vec<E>,
    out_shape: &[usize; 4],
    args: &ConvArgs,
)
    requires
        kernel_inputs_fit(input, weight, bias, *out_shape, *args),
        old(output)@.len() == position::element_count(out_shape@),
    ensures
        final(output)@ == after_unit(
            old(output)@,
            pos as int,
            input,
            weight,
            bias,
            out_shape@,
            *args,
        ),
        final(output)@.len() == old(output)@.len(),
        forall|i: int|
            0 <= i < old(output)@.len() && i != pos ==> #[trigger] final(output)@[i] == old(
                output,
            )@[i],
        forall|a: int, b: int, y: int, x: int|
            0 <= a < out_shape@[0] && 0 <= b < out_shape@[1] && 0 <= y < out_shape@[2] && 0 <= x
                < out_shape@[3] && pos == ((a * out_shape@[1] + b) * out_shape@[2] + y)
                * out_shape@[3] + x ==> final(output)@[pos as int] == #[trigger] output_value(
                input,
                weight,
                bias,
                *args,
                (a, b, y, x),
            ),
{
    proof {
        assert forall|a: int, b: int, y: int, x: int|
            #![trigger output_value(input, weight, bias, *args, (a, b, y, x))]
            0 <= a < out_shape@[0] && 0 <= b < out_shape@[1] && 0 <= y < out_shape@[2] && 0 <= x
                < out_shape@[3] && pos == ((a * out_shape@[1] + b) * out_shape@[2] + y)
                * out_shape@[3] + x implies position::coordinates(pos as int, out_shape@) == (
        a, b, y, x) && pos < output@.len() by {
            position::law_the_last_dimension_runs_fastest(a, b, y, x, out_shape@);
        }
    }
    if pos >= output.len() {
        return;
    }
    let (batch, oc_out, out_y, out_x) = decompose_linear(pos, out_shape);
    let in_c_per_group: usize = weight.shape[0] / args.groups;
    let out_c_per_group: usize = weight.shape[1];
    proof {
        lemma_group(
            oc_out as int,
            out_c_per_group as int,
            in_c_per_group as int,
            weight.shape@[0] as int,
            args.groups as int,
        );
    }
    let k: usize = oc_out / out_c_per_group;
    let group: usize = k % args.groups;
    let out_c: usize = oc_out - out_c_per_group * group;
    let in_c_start: usize = group * in_c_per_group;
    let in_c_end: usize = in_c_start + in_c_per_group;
    let axis_0: Axis = Axis {
        kernel: weight.shape[2],
        stride: args.conv_stride_0,
        dilation: args.dilation_0,
        input: input.shape[2],
    };
    let axis_1: Axis = Axis {
        kernel: weight.shape[3],
        stride: args.conv_stride_1,
        dilation: args.dilation_1,
        input: input.shape[3],
    };
    let base_0: usize = out_y + args.padding_0;
    let base_1: usize = out_x + args.padding_1;
    let start: E = match bias {
        Some(bias) => bias[oc_out],
        None => E::zero(),
    };
    let mut sum: E = start;
    let mut in_c: usize = in_c_start;
    while in_c < in_c_end
        invariant
            input.wf(),
            weight.wf(),
            axis_0.wf(),
            axis_0.fits(base_0 as int),
            axis_0.input == input.shape@[2],
            axis_0.kernel == weight.shape@[2],
            axis_1.wf(),
            axis_1.fits(base_1 as int),
            axis_1.input == input.shape@[3],
            axis_1.kernel == weight.shape@[3],
            batch < input.shape@[0],
            in_c_end <= weight.shape@[0] <= input.shape@[1],
            out_c < weight.shape@[1],
            in_c_start <= in_c <= in_c_end,
            sum == add_channels(
                start,
                input,
                weight,
                batch as int,
                out_c as int,
                in_c_start as int,
                in_c as int,
                axis_0.visited(base_0 as int),
                axis_1.visited(base_1 as int),
            ),
        decreases in_c_end - in_c,
    {
        sum = accumulate_plane(
            sum,
            input,
            weight,
            batch,
            out_c,
            in_c,
            &axis_0,
            base_0,
            &axis_1,
            base_1,
        );
        in_c = in_c + 1;
    }
    output.set(pos, sum);
}

/// Output channel `oc` belongs to one of the groups, and so do the input channels of that group.
pub(crate) proof fn lemma_group(oc: int, out_per_group: int, in_per_group: int, in_channels: int, groups: int)
    requires
        groups > 0,
        in_channels >= 0,
        in_per_group == in_channels / groups,
        0 <= oc < out_per_group * groups,
    ensures
        out_per_group > 0,
        0 <= oc / out_per_group < groups,
        (oc / out_per_group) % groups == oc / out_per_group,
        0 <= out_per_group * (oc / out_per_group) <= oc,
        oc - out_per_group * (oc / out_per_group) == oc % out_per_group,
        0 <= (oc / out_per_group) * in_per_group,
        (oc / out_per_group) * in_per_group + in_per_group <= in_channels,
{
    assert(out_per_group > 0) by (nonlinear_arith)
        requires
            0 < out_per_group * groups,
            groups > 0,
    ;
    let group = oc / out_per_group;
    assert(0 <= group < groups) by (nonlinear_arith)
        requires
            0 <= oc < out_per_group * groups,
            out_per_group > 0,
            group == oc / out_per_group,
    ;
    assert(group % groups == group) by (nonlinear_arith)
        requires
            0 <= group < groups,
    ;
    assert(oc == out_per_group * group + oc % out_per_group && 0 <= oc % out_per_group
        && 0 <= out_per_group * group) by (nonlinear_arith)
        requires
            0 <= oc,
            out_per_group > 0,
            0 <= group,
            group == oc / out_per_group,
    ;
    assert(0 <= in_per_group && in_per_group * groups <= in_channels) by (nonlinear_arith)
        requires
            in_channels >= 0,
            groups > 0,
            in_per_group == in_channels / groups,
    ;
    assert(0 <= group * in_per_group && group * in_per_group + in_per_group <= in_per_group * groups)
        by (nonlinear_arith)
        requires
            0 <= group < groups,
            0 <= in_per_group,
    ;
}

/// Reads the element at these coordinates.
fn element<E: Element>(tensor: &StridedTensor<E>, a: usize, b: usize, c: usize, d: usize) -> (r: E)
    requires
        tensor.wf(),
        tensor.contains(a as int, b as int, c as int, d as int),
    ensures
        r == tensor.at(a as int, b as int, c as int, d as int),
{
    proof {
        assert(tensor.offset(a as int, b as int, c as int, d as int) < tensor.data.len());
        let (s0, s1, s2, s3) = (
            tensor.strides@[0] as int,
            tensor.strides@[1] as int,
            tensor.strides@[2] as int,
            tensor.strides@[3] as int,
        );
        assert(0 <= a * s0 && 0 <= b * s1 && 0 <= c * s2 && 0 <= d * s3) by (nonlinear_arith)
            requires
                0 <= s0,
                0 <= s1,
                0 <= s2,
                0 <= s3,
        ;
    }
    let index: usize = a * tensor.strides[0] + b * tensor.strides[1] + c * tensor.strides[2] + d
        * tensor.strides[3];
    tensor.data[index]
}

/// What a transposed convolution is launched with: the shape of the output, how many units of work
/// that takes, and the parameters of the kernel.
#[derive(Clone, Copy, Debug, PartialEq, Eq)]
pub struct TransposeLaunch {
    pub shape_out: [usize; 4],
    pub num_elems: usize,
    pub args: ConvArgs,
}

/// The size of the output along spatial axis `i`.
pub open spec fn output_size(
    input_shape: Seq<usize>,
    weight_shape: Seq<usize>,
    options: ConvTransposeOptions<2>,
    i: int,
) -> int {
    sizes::transpose_output_size(
        weight_shape[2 + i] as int,
        options.stride@[i] as int,
        options.padding@[i] as int,
        options.padding_out@[i] as int,
        options.dilation@[i] as int,
        input_shape[2 + i] as int,
    )
}

/// Whether the output has a size along spatial axis `i`.
pub open spec fn has_output_size(
    input_shape: Seq<usize>,
    weight_shape: Seq<usize>,
    options: ConvTransposeOptions<2>,
    i: int,
) -> bool {
    sizes::transpose_size_fits(
        weight_shape[2 + i] as int,
        options.stride@[i] as int,
        options.padding@[i] as int,
        options.padding_out@[i] as int,
        options.dilation@[i] as int,
        input_shape[2 + i] as int,
    )
}

/// Whether a transposed convolution has an output shape: the input and the weights have four
/// dimensions, the output has a size along both spatial axes, and its elements can be counted.
pub open spec fn has_output_shape(
    input_shape: Seq<usize>,
    weight_shape: Seq<usize>,
    options: ConvTransposeOptions<2>,
) -> bool {
    &&& input_shape.len() >= 4
    &&& weight_shape.len() >= 4
    &&& has_output_size(input_shape, weight_shape, options, 0)
    &&& has_output_size(input_shape, weight_shape, options, 1)
    &&& weight_shape[1] * options.groups <= usize::MAX
    &&& input_shape[0] * (weight_shape[1] * options.groups) * output_size(
        input_shape,
        weight_shape,
        options,
        0,
    ) * output_size(input_shape, weight_shape, options, 1) <= usize::MAX
}

/// Whether `shape_out` is the shape that a transposed convolution produces: the input's batch, the
/// output channels of all groups, and the size along both spatial axes.
pub open spec fn is_output_shape(
    shape_out: Seq<usize>,
    input_shape: Seq<usize>,
    weight_shape: Seq<usize>,
    options: ConvTransposeOptions<2>,
) -> bool {
    &&& shape_out.len() == 4
    &&& shape_out[0] == input_shape[0]
    &&& shape_out[1] == weight_shape[1] * options.groups
    &&& shape_out[2] == output_size(input_shape, weight_shape, options, 0)
    &&& shape_out[3] == output_size(input_shape, weight_shape, options, 1)
}

/// The parameters that the options hand to the kernel.
pub open spec fn kernel_args(options: ConvTransposeOptions<2>) -> ConvArgs {
    ConvArgs {
        conv_stride_0: options.stride@[0],
        conv_stride_1: options.stride@[1],
        dilation_0: options.dilation@[0],
        dilation_1: options.dilation@[1],
        padding_0: options.padding@[0],
        padding_1: options.padding@[1],
        groups: options.groups,
    }
}

/// What a transposed convolution of these shapes is launched with.
pub fn transpose_launch(
    input_shape: &[usize],
    weight_shape: &[usize],
    options: &ConvTransposeOptions<2>,
) -> (launch: TransposeLaunch)
    requires
        has_output_shape(input_shape@, weight_shape@, *options),
    ensures
        is_output_shape(launch.shape_out@, input_shape@, weight_shape@, *options),
        launch.num_elems == position::element_count(launch.shape_out@),
        launch.args == kernel_args(*options),
        launch.args.conv_stride_0 == options.stride@[0],
        launch.args.conv_stride_1 == options.stride@[1],
        launch.args.dilation_0 == options.dilation@[0],
        launch.args.dilation_1 == options.dilation@[1],
        launch.args.padding_0 == options.padding@[0],
        launch.args.padding_1 == options.padding@[1],
        launch.args.groups == options.groups,
        launch.shape_out@[0] == input_shape@[0],
        launch.shape_out@[1] == weight_shape@[1] * options.groups,
        launch.shape_out@[2] == (input_shape@[2] - 1) * options.stride@[0] + options.dilation@[0] * (
        weight_shape@[2] - 1) + options.padding_out@[0] - 2 * options.padding@[0] + 1,
        launch.shape_out@[3] == (input_shape@[3] - 1) * options.stride@[1] + options.dilation@[1] * (
        weight_shape@[3] - 1) + options.padding_out@[1] - 2 * options.padding@[1] + 1,
        launch.num_elems == launch.shape_out@[0] * launch.shape_out@[1] * launch.shape_out@[2]
            * launch.shape_out@[3],
{
    let batch_size: usize = input_shape[0];
    let out_0: usize = transpose_size(
        weight_shape[2],
        options.stride[0],
        options.padding[0],
        options.padding_out[0],
        options.dilation[0],
        input_shape[2],
    );
    let out_1: usize = transpose_size(
        weight_shape[3],
        options.stride[1],
        options.padding[1],
        options.padding_out[1],
        options.dilation[1],
        input_shape[3],
    );
    let channels: usize = weight_shape[1] * options.groups;
    proof {
        let planes = batch_size * channels;
        assert(0 <= planes <= planes * out_0 <= planes * out_0 * out_1) by (nonlinear_arith)
            requires
                planes == batch_size * channels,
                out_0 >= 1,
                out_1 >= 1,
        ;
    }
    TransposeLaunch {
        shape_out: [batch_size, channels, out_0, out_1],
        num_elems: batch_size * channels * out_0 * out_1,
        args: ConvArgs {
            conv_stride_0: options.stride[0],
            conv_stride_1: options.stride[1],
            dilation_0: options.dilation[0],
            dilation_1: options.dilation[1],
            padding_0: options.padding[0],
            padding_1: options.padding[1],
            groups: options.groups,
        },
    }
}

/// Whether the operands of a transposed convolution belong together: its output has a shape, the
/// input has the weights' channels, the bias has one value per output channel, and the sizes are
/// within the kernel's machine arithmetic.
pub open spec fn operands_fit<E>(
    input: &StridedTensor<E>,
    weight: &StridedTensor<E>,
    bias: Option<&[E]>,
    options: ConvTransposeOptions<2>,
) -> bool {
    let args = kernel_args(options);
    &&& input.wf()
    &&& weight.wf()
    &&& args.wf()
    &&& has_output_shape(input.shape@, weight.shape@, options)
    &&& weight.shape@[0] <= input.shape@[1]
    &&& bias matches Some(bias) ==> weight.shape@[1] * options.groups <= bias@.len()
    &&& args.axis_0(input, weight).fits(
        output_size(input.shape@, weight.shape@, options, 0) + args.padding_0 - 1,
    )
    &&& args.axis_1(input, weight).fits(
        output_size(input.shape@, weight.shape@, options, 1) + args.padding_1 - 1,
    )
}

/// Performs a 2D transposed convolution by the direct algorithm: it runs the kernel once for every
/// element of the output. It declines nothing.
///
/// * `input` - The input feature map
/// * `weight` - The weights (filter) applied to each kernel
/// * `bias` - The bias added to each channel
/// * `options` - The options to use for the convolution
pub fn conv_transpose2d_direct<E: Element>(
    input: &StridedTensor<E>,
    weight: &StridedTensor<E>,
    bias: Option<&[E]>,
    options: &ConvTransposeOptions<2>,
) -> (result: Result<StridedTensor<E>, ConvSetupError>)
    requires
        operands_fit(input, weight, bias, *options),
    ensures
        result matches Ok(output) && {
            &&& output.wf()
            &&& is_output_shape(output.shape@, input.shape@, weight.shape@, *options)
            &&& output.shape@[0] == input.shape@[0]
            &&& output.shape@[1] == weight.shape@[1] * options.groups
            &&& output.shape@[2] == (input.shape@[2] - 1) * options.stride@[0] + options.dilation@[0]
                * (weight.shape@[2] - 1) + options.padding_out@[0] - 2 * options.padding@[0] + 1
            &&& output.shape@[3] == (input.shape@[3] - 1) * options.stride@[1] + options.dilation@[1]
                * (weight.shape@[3] - 1) + options.padding_out@[1] - 2 * options.padding@[1] + 1
            &&& forall|a: int, b: int, c: int, d: int|
                position::in_shape((a, b, c, d), output.shape@) ==> #[trigger] output.at(a, b, c, d)
                    == output_value(input, weight, bias, kernel_args(*options), (a, b, c, d))
        },
{
    let launch: TransposeLaunch = transpose_launch(&input.shape, &weight.shape, options);
    let mut data: Vec<E> = Vec::new();
    let mut pos: usize = 0;
    while pos < launch.num_elems
        invariant
            pos <= launch.num_elems,
            data@.len() == pos,
        decreases launch.num_elems - pos,
    {
        data.push(E::zero());
        pos = pos + 1;
    }
    pos = 0;
    while pos < launch.num_elems
        invariant
            pos <= launch.num_elems,
            data@.len() == launch.num_elems == position::element_count(launch.shape_out@),
            launch.args == kernel_args(*options),
            kernel_inputs_fit(input, weight, bias, launch.shape_out, launch.args),
            forall|i: int|
                0 <= i < pos ==> #[trigger] data@[i] == output_value(
                    input,
                    weight,
                    bias,
                    launch.args,
                    position::coordinates(i, launch.shape_out@),
                ),
        decreases launch.num_elems - pos,
    {
        conv_transpose2d_direct_kernel(
            pos,
            input,
            weight,
            bias,
            &mut data,
            &launch.shape_out,
            &launch.args,
        );
        pos = pos + 1;
    }
    let output: StridedTensor<E> = contiguous(data, launch.shape_out);
    proof {
        assert forall|a: int, b: int, c: int, d: int|
            position::in_shape((a, b, c, d), output.shape@) implies #[trigger] output.at(a, b, c, d)
            == output_value(input, weight, bias, kernel_args(*options), (a, b, c, d)) by {
            position::law_coordinates_are_positions((a, b, c, d), output.shape@);
        }
    }
    Ok(output)
}

} // verus!
