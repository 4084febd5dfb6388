//! Which products a transposed convolution adds up, in terms of its options.
use crate::conv_transpose2d::axis;
use crate::conv_transpose2d::axis::Axis;
use crate::conv_transpose2d::sum;
use crate::conv_transpose2d::transpose_direct;
use crate::element::Modular;
use crate::options::ConvTransposeOptions;
use crate::tensor::StridedTensor;
use vstd::arithmetic::div_mod;
use vstd::prelude::*;

verus! {

/// An output element is its channel's bias and, over the input channels of its group, the product
/// of every input element and weight whose rows meet at its row and whose columns meet at its
/// column: row `iy` and kernel row `ky` meet where `iy * stride[0] + ky * dilation[0]` is its row
/// behind `padding[0]`, and columns alike along the other axis.
pub proof fn law_output_is_the_sum_of_the_products_that_land_there<E: Modular>(
    input: &StridedTensor<E>,
    weight: &StridedTensor<E>,
    bias: Option<&[E]>,
    options: ConvTransposeOptions<2>,
    c: (int, int, int, int),
)
    requires
        options.stride@[0] > 0,
        options.stride@[1] > 0,
        options.dilation@[0] > 0,
        options.dilation@[1] > 0,
        options.groups > 0,
    ensures
        ({
            let (stride, dilation, padding) = (options.stride@, options.dilation@, options.padding@);
            let per_group = weight.shape@[0] as int / options.groups as int;
            let group = c.1 / weight.shape@[1] as int;
            let out_c = c.1 % weight.shape@[1] as int;
            let start = match bias {
                Some(bias) => bias@[c.1].value(),
                None => 0,
            };
            let products = sum::sum(
                per_group,
                |n: int|
                    sum::sum(
                        input.shape@[2] as int,
                        |iy: int|
                            sum::sum(
                                weight.shape@[2] as int,
                                |ky: int|
                                    if iy * stride[0] + ky * dilation[0] == c.2 + padding[0] {
                                        sum::sum(
                                            input.shape@[3] as int,
                                            |ix: int|
                                                sum::sum(
                                                    weight.shape@[3] as int,
                                                    |kx: int|
                                                        if ix * stride[1] + kx * dilation[1] == c.3
                                                            + padding[1] {
                                                            input.at(
                                                                c.0,
                                                                group * per_group + n,
                                                                iy,
                                                                ix,
                                                            ).value() * weight.at(
                                                                group * per_group + n,
                                                                out_c,
                                                                ky,
                                                                kx,
                                                            ).value()
                                                        } else {
                                                            0
                                                        },
                                                ),
                                        )
                                    } else {
                                        0
                                    },
                            ),
                    ),
            );
            let args = transpose_direct::kernel_args(options);
            let computed = transpose_direct::output_value(input, weight, bias, args, c).value();
            &&& sum::congruent(computed, start + products, E::modulus())
            &&& E::least() <= start + products < E::least() + E::modulus() ==> computed == start
                + products
        }),
{
    let args = transpose_direct::kernel_args(options);
    let (stride, dilation, padding) = (options.stride@, options.dilation@, options.padding@);
    let (axis_0, axis_1) = (args.axis_0(input, weight), args.axis_1(input, weight));
    let (base_0, base_1) = (c.2 + padding[0], c.3 + padding[1]);
    let per_group = weight.shape@[0] as int / options.groups as int;
    let lo = (c.1 / weight.shape@[1] as int) * per_group;
    let out_c = c.1 % weight.shape@[1] as int;
    sum::law_kernel_computes_transposed_convolution(input, weight, bias, args, c);
    let channel = |n: int|
        sum::sum(
            input.shape@[2] as int,
            |iy: int|
                sum::sum(
                    weight.shape@[2] as int,
                    |ky: int|
                        if iy * stride[0] + ky * dilation[0] == c.2 + padding[0] {
                            sum::sum(
                                input.shape@[3] as int,
                                |ix: int|
                                    sum::sum(
                                        weight.shape@[3] as int,
                                        |kx: int|
                                            if ix * stride[1] + kx * dilation[1] == c.3 + padding[1] {
                                                input.at(c.0, lo + n, iy, ix).value() * weight.at(
                                                    lo + n,
                                                    out_c,
                                                    ky,
                                                    kx,
                                                ).value()
                                            } else {
                                                0
                                            },
                                    ),
                            )
                        } else {
                            0
                        },
                ),
        );
    let rows = |n: int|
        sum::axis_sum(
            axis_0,
            base_0,
            sum::row_sum(input, weight, c.0, out_c, lo + n, axis_1, base_1),
        );
    assert forall|n: int| #[trigger] rows(n) == channel(n) by {
        let f = sum::row_sum(input, weight, c.0, out_c, lo + n, axis_1, base_1);
        let row = |iy: int|
            sum::sum(
                weight.shape@[2] as int,
                |ky: int|
                    if iy * stride[0] + ky * dilation[0] == c.2 + padding[0] {
                        sum::sum(
                            input.shape@[3] as int,
                            |ix: int|
                                sum::sum(
                                    weight.shape@[3] as int,
                                    |kx: int|
                                        if ix * stride[1] + kx * dilation[1] == c.3 + padding[1] {
                                            input.at(c.0, lo + n, iy, ix).value() * weight.at(
                                                lo + n,
                                                out_c,
                                                ky,
                                                kx,
                                            ).value()
                                        } else {
                                            0
                                        },
                                ),
                        )
                    } else {
                        0
                    },
            );
        let taps = |iy: int| sum::tap_sum(axis_0, base_0, f, iy);
        assert forall|iy: int| #[trigger] taps(iy) == row(iy) by {
            let tap = |ky: int|
                if iy * stride[0] + ky * dilation[0] == c.2 + padding[0] {
                    sum::sum(
                        input.shape@[3] as int,
                        |ix: int|
                            sum::sum(
                                weight.shape@[3] as int,
                                |kx: int|
                                    if ix * stride[1] + kx * dilation[1] == c.3 + padding[1] {
                                        input.at(c.0, lo + n, iy, ix).value() * weight.at(
                                            lo + n,
                                            out_c,
                                            ky,
                                            kx,
                                        ).value()
                                    } else {
                                        0
                                    },
                            ),
                    )
                } else {
                    0
                };
            let at_tap = |ky: int|
                if iy * axis_0.stride + ky * axis_0.dilation == base_0 {
                    f(iy, ky)
                } else {
                    0
                };
            assert forall|ky: int| #[trigger] at_tap(ky) == tap(ky) by {
                let g = sum::product(input, weight, c.0, out_c, lo + n, (iy, ky));
                let column = |ix: int|
                    sum::sum(
                        weight.shape@[3] as int,
                        |kx: int|
                            if ix * stride[1] + kx * dilation[1] == c.3 + padding[1] {
                                input.at(c.0, lo + n, iy, ix).value() * weight.at(
                                    lo + n,
                                    out_c,
                                    ky,
                                    kx,
                                ).value()
                            } else {
                                0
                            },
                    );
                let column_taps = |ix: int| sum::tap_sum(axis_1, base_1, g, ix);
                assert forall|ix: int| #[trigger] column_taps(ix) == column(ix) by {
                    sum::lemma_sum_eq(
                        weight.shape@[3] as int,
                        |kx: int|
                            if ix * axis_1.stride + kx * axis_1.dilation == base_1 {
                                g(ix, kx)
                            } else {
                                0
                            },
                        |kx: int|
                            if ix * stride[1] + kx * dilation[1] == c.3 + padding[1] {
                                input.at(c.0, lo + n, iy, ix).value() * weight.at(
                                    lo + n,
                                    out_c,
                                    ky,
                                    kx,
                                ).value()
                            } else {
                                0
                            },
                    );
                }
                sum::lemma_sum_eq(input.shape@[3] as int, column_taps, column);
                assert(f(iy, ky) == sum::axis_sum(axis_1, base_1, g));
            }
            sum::lemma_sum_eq(weight.shape@[2] as int, at_tap, tap);
        }
        sum::lemma_sum_eq(input.shape@[2] as int, taps, row);
    }
    sum::lemma_sum_eq(per_group, rows, channel);
}

/// Without anything in the input an output element is the bias of its channel, or zero without one.
pub proof fn law_an_input_of_zeros_leaves_the_bias<E: Modular>(
    input: &StridedTensor<E>,
    weight: &StridedTensor<E>,
    bias: Option<&[E]>,
    options: ConvTransposeOptions<2>,
    c: (int, int, int, int),
)
    requires
        options.stride@[0] > 0,
        options.stride@[1] > 0,
        options.dilation@[0] > 0,
        options.dilation@[1] > 0,
        options.groups > 0,
        weight.shape@[0] <= input.shape@[1],
        0 <= c.0 < input.shape@[0],
        0 <= c.1 < weight.shape@[1] * options.groups,
        forall|b: int, ic: int, y: int, x: int|
            0 <= b < input.shape@[0] && 0 <= ic < input.shape@[1] && 0 <= y < input.shape@[2] && 0 <= x
                < input.shape@[3] ==> #[trigger] input.at(b, ic, y, x).value() == 0,
    ensures
        transpose_direct::output_value(
            input,
            weight,
            bias,
            transpose_direct::kernel_args(options),
            c,
        ).value() == match bias {
            Some(bias) => bias@[c.1].value(),
            None => 0,
        },
{
    let args = transpose_direct::kernel_args(options);
    let (axis_0, axis_1) = (args.axis_0(input, weight), args.axis_1(input, weight));
    let (base_0, base_1) = (c.2 + options.padding@[0], c.3 + options.padding@[1]);
    let per_group = weight.shape@[0] as int / options.groups as int;
    let out_c = c.1 % weight.shape@[1] as int;
    let lo = (c.1 / weight.shape@[1] as int) * per_group;
    transpose_direct::lemma_group(
        c.1,
        weight.shape@[1] as int,
        per_group,
        weight.shape@[0] as int,
        options.groups as int,
    );
    let channel = |n: int|
        sum::axis_sum(
            axis_0,
            base_0,
            sum::row_sum(input, weight, c.0, out_c, lo + n, axis_1, base_1),
        );
    assert forall|n: int| 0 <= n < per_group implies #[trigger] channel(n) == 0 by {
        let f = sum::row_sum(input, weight, c.0, out_c, lo + n, axis_1, base_1);
        assert forall|iy: int, ky: int| 0 <= iy < axis_0.input implies #[trigger] f(iy, ky) == 0 by {
            let g = sum::product(input, weight, c.0, out_c, lo + n, (iy, ky));
            assert forall|ix: int, kx: int| 0 <= ix < axis_1.input implies #[trigger] g(ix, kx)
                == 0 by {
                let factor = weight.at(lo + n, out_c, ky, kx).value();
                assert(input.at(c.0, lo + n, iy, ix).value() == 0);
                assert(0 * factor == 0) by (nonlinear_arith);
            }
            lemma_axis_sum_of_zeros(axis_1, base_1, g);
        }
        lemma_axis_sum_of_zeros(axis_0, base_0, f);
    }
    sum::lemma_sum_single(per_group, channel, -1);
    sum::law_kernel_computes_transposed_convolution(input, weight, bias, args, c);
    let wanted = sum::transposed_convolution(input, weight, bias, args, c);
    sum::lemma_sum_eq(
        per_group,
        channel,
        |n: int|
            sum::axis_sum(
                axis_0,
                base_0,
                sum::row_sum(input, weight, c.0, out_c, lo + n, axis_1, base_1),
            ),
    );
    E::zero_value();
    match bias {
        Some(bias) => {
            bias@[c.1].value_in_range();
        },
        None => {
            E::zero_spec().value_in_range();
        },
    }
    assert(wanted == match bias {
        Some(bias) => bias@[c.1].value(),
        None => 0,
    });
}

/// An input element reaches an output element through at most one tap. Two inputs that differ in the
/// element at `p` alone give output elements at `c` that differ, up to a multiple of the modulus, by
/// the difference times the weight of that tap. The tap is the one in kernel row `ky` and column
/// `kx` where the element's row times `stride[0]` and `ky * dilation[0]` add up to the output's row
/// behind `padding[0]`, and columns alike along the other axis. Where there is no such tap, or the
/// element is of another batch or another group of channels, nothing changes.
pub proof fn law_an_input_element_reaches_the_output_through_its_tap<E: Modular>(
    input: &StridedTensor<E>,
    other: &StridedTensor<E>,
    weight: &StridedTensor<E>,
    bias: Option<&[E]>,
    options: ConvTransposeOptions<2>,
    p: (int, int, int, int),
    c: (int, int, int, int),
    ky: int,
    kx: int,
)
    requires
        options.stride@[0] > 0,
        options.stride@[1] > 0,
        options.dilation@[0] > 0,
        options.dilation@[1] > 0,
        options.groups > 0,
        weight.shape@[0] <= input.shape@[1],
        0 <= c.0 < input.shape@[0],
        0 <= c.1 < weight.shape@[1] * options.groups,
        0 <= p.0 < input.shape@[0],
        0 <= p.1 < input.shape@[1],
        0 <= p.2 < input.shape@[2],
        0 <= p.3 < input.shape@[3],
        other.shape@ == input.shape@,
        forall|b: int, ic: int, y: int, x: int|
            0 <= b < input.shape@[0] && 0 <= ic < input.shape@[1] && 0 <= y < input.shape@[2] && 0 <= x
                < input.shape@[3] && (b, ic, y, x) != p ==> #[trigger] other.at(b, ic, y, x)
                == input.at(b, ic, y, x),
    ensures
        ({
            let args = transpose_direct::kernel_args(options);
            let before = transpose_direct::output_value(input, weight, bias, args, c).value();
            let after = transpose_direct::output_value(other, weight, bias, args, c).value();
            let change = other.at(p.0, p.1, p.2, p.3).value() - input.at(
                p.0,
                p.1,
                p.2,
                p.3,
            ).value();
            let per_group = weight.shape@[0] as int / options.groups as int;
            let group = c.1 / weight.shape@[1] as int;
            let same_group = p.0 == c.0 && group * per_group <= p.1 < group * per_group + per_group;
            &&& same_group && 0 <= ky < weight.shape@[2] && 0 <= kx < weight.shape@[3] && p.2
                * options.stride@[0] + ky * options.dilation@[0] == c.2 + options.padding@[0] && p.3
                * options.stride@[1] + kx * options.dilation@[1] == c.3 + options.padding@[1]
                ==> sum::congruent(
                after - before,
                change * weight.at(p.1, c.1 % weight.shape@[1] as int, ky, kx).value(),
                E::modulus(),
            )
            &&& !same_group ==> after == before
            &&& (forall|k: int|
                #![trigger k * options.dilation@[0]]
                0 <= k < weight.shape@[2] ==> p.2 * options.stride@[0] + k * options.dilation@[0]
                    != c.2 + options.padding@[0]) ==> after == before
            &&& (forall|k: int|
                #![trigger k * options.dilation@[1]]
                0 <= k < weight.shape@[3] ==> p.3 * options.stride@[1] + k * options.dilation@[1]
                    != c.3 + options.padding@[1]) ==> after == before
        }),
{
    let args = transpose_direct::kernel_args(options);
    let (axis_0, axis_1) = (args.axis_0(input, weight), args.axis_1(input, weight));
    let (base_0, base_1) = (c.2 + options.padding@[0], c.3 + options.padding@[1]);
    let per_group = weight.shape@[0] as int / options.groups as int;
    let out_c = c.1 % weight.shape@[1] as int;
    let lo = (c.1 / weight.shape@[1] as int) * per_group;
    let same_group = p.0 == c.0 && lo <= p.1 < lo + per_group;
    let change = other.at(p.0, p.1, p.2, p.3).value() - input.at(p.0, p.1, p.2, p.3).value();
    let (t_0, t_1) = (axis_0.tap_at(base_0, p.2), axis_1.tap_at(base_1, p.3));
    let (hit_0, hit_1) = (axis_0.hit(base_0, p.2), axis_1.hit(base_1, p.3));
    let added = if same_group && hit_0 && hit_1 {
        change * weight.at(p.1, out_c, t_0, t_1).value()
    } else {
        0
    };
    assert(args.axis_0(other, weight) == axis_0 && args.axis_1(other, weight) == axis_1);
    transpose_direct::lemma_group(
        c.1,
        weight.shape@[1] as int,
        per_group,
        weight.shape@[0] as int,
        options.groups as int,
    );
    let channel_before = |n: int|
        sum::axis_sum(
            axis_0,
            base_0,
            sum::row_sum(input, weight, c.0, out_c, lo + n, axis_1, base_1),
        );
    let channel_after = |n: int|
        sum::axis_sum(
            axis_0,
            base_0,
            sum::row_sum(other, weight, c.0, out_c, lo + n, axis_1, base_1),
        );
    assert forall|n: int| 0 <= n < per_group implies #[trigger] channel_after(n) - channel_before(n)
        == if lo + n == p.1 {
        added
    } else {
        0
    } by {
        let in_c = lo + n;
        lemma_channel(input, other, weight, p, c.0, out_c, in_c, axis_0, base_0, axis_1, base_1);
    }
    lemma_sum_change(per_group, channel_before, channel_after, p.1 - lo, added);
    sum::law_kernel_computes_transposed_convolution(input, weight, bias, args, c);
    sum::law_kernel_computes_transposed_convolution(other, weight, bias, args, c);
    let wanted_before = sum::transposed_convolution(input, weight, bias, args, c);
    let wanted_after = sum::transposed_convolution(other, weight, bias, args, c);
    sum::lemma_sum_eq(
        per_group,
        channel_before,
        |n: int|
            sum::axis_sum(
                axis_0,
                base_0,
                sum::row_sum(input, weight, c.0, out_c, lo + n, axis_1, base_1),
            ),
    );
    sum::lemma_sum_eq(
        per_group,
        channel_after,
        |n: int|
            sum::axis_sum(
                axis_0,
                base_0,
                sum::row_sum(other, weight, c.0, out_c, lo + n, axis_1, base_1),
            ),
    );
    assert(wanted_after - wanted_before == added);
    E::zero_value();
    let before = transpose_direct::output_value(input, weight, bias, args, c);
    let after = transpose_direct::output_value(other, weight, bias, args, c);
    lemma_congruent_difference(
        after.value(),
        wanted_after,
        before.value(),
        wanted_before,
        E::modulus(),
    );
    before.value_in_range();
    after.value_in_range();
    if added == 0 {
        let (m, diff) = (E::modulus(), after.value() - before.value());
        assert(diff == 0) by (nonlinear_arith)
            requires
                m > 0,
                -m < diff < m,
                (diff - 0) % m == 0,
        ;
    }
    if 0 <= ky < weight.shape@[2] && p.2 * options.stride@[0] + ky * options.dilation@[0] == base_0 {
        axis::lemma_tap_is_unique(axis_0, base_0, p.2, ky);
    }
    if 0 <= kx < weight.shape@[3] && p.3 * options.stride@[1] + kx * options.dilation@[1] == base_1 {
        axis::lemma_tap_is_unique(axis_1, base_1, p.3, kx);
    }
    if hit_0 {
        assert(p.2 * options.stride@[0] + t_0 * options.dilation@[0] == base_0);
    }
    if hit_1 {
        assert(p.3 * options.stride@[1] + t_1 * options.dilation@[1] == base_1);
    }
}

/// What the element at `p` changes in one input channel's sum.
proof fn lemma_channel<E: Modular>(
    input: &StridedTensor<E>,
    other: &StridedTensor<E>,
    weight: &StridedTensor<E>,
    p: (int, int, int, int),
    batch: int,
    out_c: int,
    in_c: int,
    axis_0: Axis,
    base_0: int,
    axis_1: Axis,
    base_1: int,
)
    requires
        axis_0.wf(),
        axis_1.wf(),
        axis_0.input == input.shape@[2],
        axis_1.input == input.shape@[3],
        0 <= batch < input.shape@[0],
        0 <= in_c < input.shape@[1],
        0 <= p.2 < input.shape@[2],
        0 <= p.3 < input.shape@[3],
        forall|b: int, ic: int, y: int, x: int|
            0 <= b < input.shape@[0] && 0 <= ic < input.shape@[1] && 0 <= y < input.shape@[2] && 0 <= x
                < input.shape@[3] && (b, ic, y, x) != p ==> #[trigger] other.at(b, ic, y, x)
                == input.at(b, ic, y, x),
    ensures
        sum::axis_sum(
            axis_0,
            base_0,
            sum::row_sum(other, weight, batch, out_c, in_c, axis_1, base_1),
        ) - sum::axis_sum(
            axis_0,
            base_0,
            sum::row_sum(input, weight, batch, out_c, in_c, axis_1, base_1),
        ) == if batch == p.0 && in_c == p.1 && axis_0.hit(base_0, p.2) && axis_1.hit(base_1, p.3) {
            (other.at(p.0, p.1, p.2, p.3).value() - input.at(p.0, p.1, p.2, p.3).value())
                * weight.at(
                in_c,
                out_c,
                axis_0.tap_at(base_0, p.2),
                axis_1.tap_at(base_1, p.3),
            ).value()
        } else {
            0
        },
{
    let f = sum::row_sum(input, weight, batch, out_c, in_c, axis_1, base_1);
    let g = sum::row_sum(other, weight, batch, out_c, in_c, axis_1, base_1);
    let here = batch == p.0 && in_c == p.1;
    let change = other.at(p.0, p.1, p.2, p.3).value() - input.at(p.0, p.1, p.2, p.3).value();
    let t_1 = axis_1.tap_at(base_1, p.3);
    assert forall|iy: int, ky: int| 0 <= iy < axis_0.input implies #[trigger] g(iy, ky) - f(iy, ky)
        == if here && iy == p.2 && axis_1.hit(base_1, p.3) {
        change * weight.at(in_c, out_c, ky, t_1).value()
    } else {
        0
    } by {
        let fx = sum::product(input, weight, batch, out_c, in_c, (iy, ky));
        let gx = sum::product(other, weight, batch, out_c, in_c, (iy, ky));
        assert forall|ix: int, kx: int| 0 <= ix < axis_1.input && !(here && iy == p.2 && ix
            == p.3) implies #[trigger] gx(ix, kx) == fx(ix, kx) by {
            assert(other.at(batch, in_c, iy, ix) == input.at(batch, in_c, iy, ix));
        }
        lemma_axis_sum_change(axis_1, base_1, fx, gx, p.3);
        let (a, b) = (
            other.at(batch, in_c, iy, p.3).value(),
            input.at(batch, in_c, iy, p.3).value(),
        );
        let factor = weight.at(in_c, out_c, ky, t_1).value();
        assert(gx(p.3, t_1) - fx(p.3, t_1) == a * factor - b * factor);
        assert(a * factor - b * factor == (a - b) * factor) by (nonlinear_arith);
    }
    assert forall|iy: int, ky: int| 0 <= iy < axis_0.input && iy != p.2 implies #[trigger] g(iy, ky)
        == f(iy, ky) by {
        assert(g(iy, ky) - f(iy, ky) == 0);
    }
    lemma_axis_sum_change(axis_0, base_0, f, g, p.2);
}

/// A sum over one axis changes by what changes at the one input position where the terms differ.
proof fn lemma_axis_sum_change(
    axis: Axis,
    base: int,
    f: spec_fn(int, int) -> int,
    g: spec_fn(int, int) -> int,
    i: int,
)
    requires
        axis.wf(),
        0 <= i < axis.input,
        forall|j: int, k: int| 0 <= j < axis.input && j != i ==> #[trigger] g(j, k) == f(j, k),
    ensures
        sum::axis_sum(axis, base, g) - sum::axis_sum(axis, base, f) == if axis.hit(base, i) {
            g(i, axis.tap_at(base, i)) - f(i, axis.tap_at(base, i))
        } else {
            0
        },
{
    let before = |j: int| sum::tap_sum(axis, base, f, j);
    let after = |j: int| sum::tap_sum(axis, base, g, j);
    assert forall|j: int| 0 <= j < axis.input implies #[trigger] after(j) - before(j) == if j == i {
        if axis.hit(base, i) {
            g(i, axis.tap_at(base, i)) - f(i, axis.tap_at(base, i))
        } else {
            0
        }
    } else {
        0
    } by {
        lemma_tap_sum(axis, base, f, j);
        lemma_tap_sum(axis, base, g, j);
    }
    lemma_sum_change(
        axis.input as int,
        before,
        after,
        i,
        if axis.hit(base, i) {
            g(i, axis.tap_at(base, i)) - f(i, axis.tap_at(base, i))
        } else {
            0
        },
    );
}

/// The sum over the taps of one input position is the term of the tap that it meets.
proof fn lemma_tap_sum(axis: Axis, base: int, f: spec_fn(int, int) -> int, i: int)
    requires
        axis.wf(),
        0 <= i < axis.input,
    ensures
        sum::tap_sum(axis, base, f, i) == if axis.hit(base, i) {
            f(i, axis.tap_at(base, i))
        } else {
            0
        },
{
    let at_tap = |k: int|
        if i * axis.stride + k * axis.dilation == base {
            f(i, k)
        } else {
            0
        };
    let tap = axis.tap_at(base, i);
    assert forall|k: int| 0 <= k < axis.kernel && k != tap implies #[trigger] at_tap(k) == 0 by {
        if i * axis.stride + k * axis.dilation == base {
            axis::lemma_tap_is_unique(axis, base, i, k);
        }
    }
    sum::lemma_sum_single(axis.kernel as int, at_tap, tap);
    assert(sum::tap_sum(axis, base, f, i) == sum::sum(axis.kernel as int, at_tap));
}

proof fn lemma_axis_sum_of_zeros(axis: Axis, base: int, f: spec_fn(int, int) -> int)
    requires
        axis.wf(),
        forall|i: int, k: int| 0 <= i < axis.input ==> #[trigger] f(i, k) == 0,
    ensures
        sum::axis_sum(axis, base, f) == 0,
{
    let taps = |i: int| sum::tap_sum(axis, base, f, i);
    assert forall|i: int| 0 <= i < axis.input && i != -1 implies #[trigger] taps(i) == 0 by {
        lemma_tap_sum(axis, base, f, i);
    }
    sum::lemma_sum_single(axis.input as int, taps, -1);
    assert(sum::axis_sum(axis, base, f) == sum::sum(axis.input as int, taps));
}

proof fn lemma_sum_change(
    n: int,
    f: spec_fn(int) -> int,
    g: spec_fn(int) -> int,
    t: int,
    change: int,
)
    requires
        forall|i: int|
            0 <= i < n ==> #[trigger] g(i) - f(i) == if i == t {
                change
            } else {
                0
            },
    ensures
        sum::sum(n, g) - sum::sum(n, f) == if 0 <= t < n {
            change
        } else {
            0
        },
    decreases n,
{
    if n > 0 {
        lemma_sum_change(n - 1, f, g, t, change);
        assert(g(n - 1) - f(n - 1) == if n - 1 == t {
            change
        } else {
            0
        });
    }
}

proof fn lemma_congruent_difference(a: int, b: int, c: int, d: int, m: int)
    requires
        m > 0,
        sum::congruent(a, b, m),
        sum::congruent(c, d, m),
    ensures
        sum::congruent(a - c, b - d, m),
{
    let p = (a - b) / m;
    let q = (c - d) / m;
    div_mod::lemma_fundamental_div_mod(a - b, m);
    div_mod::lemma_fundamental_div_mod(c - d, m);
    assert(m * p - m * q == (p - q) * m) by (nonlinear_arith);
    div_mod::lemma_mod_multiples_basic(p - q, m);
    assert(a - c - (b - d) == (p - q) * m);
}

} // verus!
