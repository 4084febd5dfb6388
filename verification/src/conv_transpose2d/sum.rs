//! The transposed convolution as a sum of integers, and that the direct kernel computes it.
use crate::conv_transpose2d::axis;
use crate::conv_transpose2d::axis::Axis;
use crate::conv_transpose2d::transpose_direct;
use crate::conv_transpose2d::transpose_direct::ConvArgs;
use crate::element::Modular;
use crate::tensor::StridedTensor;
use vstd::arithmetic::div_mod;
use vstd::prelude::*;

verus! {

/// Whether two integers differ by a multiple of `m`.
pub open spec fn congruent(a: int, b: int, m: int) -> bool {
    (a - b) % m == 0
}

/// The sum of `f` over `0..n`.
pub open spec fn sum(n: int, f: spec_fn(int) -> int) -> int
    decreases n,
{
    if n <= 0 {
        0
    } else {
        sum(n - 1, f) + f(n - 1)
    }
}

/// The sum of `f` over all pairs of an input position and a tap that meet at `base`.
pub open spec fn axis_sum(axis: Axis, base: int, f: spec_fn(int, int) -> int) -> int {
    sum(axis.input as int, |i: int| tap_sum(axis, base, f, i))
}

/// The sum of `f` over the taps that input position `i` meets at `base`.
pub open spec fn tap_sum(axis: Axis, base: int, f: spec_fn(int, int) -> int, i: int) -> int {
    sum(
        axis.kernel as int,
        |k: int|
            if i * axis.stride + k * axis.dilation == base {
                f(i, k)
            } else {
                0
            },
    )
}

/// The product of an input element in row `y.0` and a weight in kernel row `y.1`, given their
/// columns.
pub open spec fn product<E: Modular>(
    input: &StridedTensor<E>,
    weight: &StridedTensor<E>,
    batch: int,
    out_c: int,
    in_c: int,
    y: (int, int),
) -> spec_fn(int, int) -> int {
    |in_x: int, kernel_x: int|
        input.at(batch, in_c, y.0, in_x).value() * weight.at(in_c, out_c, y.1, kernel_x).value()
}

/// What the columns contribute to the row and kernel row given.
pub open spec fn row_sum<E: Modular>(
    input: &StridedTensor<E>,
    weight: &StridedTensor<E>,
    batch: int,
    out_c: int,
    in_c: int,
    axis: Axis,
    base: int,
) -> spec_fn(int, int) -> int {
    |in_y: int, kernel_y: int|
        axis_sum(axis, base, product(input, weight, batch, out_c, in_c, (in_y, kernel_y)))
}

/// The transposed convolution at output coordinates `c`, as an integer: the bias of its channel,
/// and for every input channel of its group, every row and kernel row that meet at its row, and
/// every column and kernel column that meet at its column, the product of input and weight.
pub open spec fn transposed_convolution<E: Modular>(
    input: &StridedTensor<E>,
    weight: &StridedTensor<E>,
    bias: Option<&[E]>,
    args: ConvArgs,
    c: (int, int, int, int),
) -> int {
    let start = match bias {
        Some(bias) => bias@[c.1].value(),
        None => 0,
    };
    let channels = transpose_direct::group_channels(c.1, weight, args);
    let out_c = c.1 % weight.shape@[1] as int;
    start + sum(
        channels.1 - channels.0,
        |n: int|
            axis_sum(
                args.axis_0(input, weight),
                c.2 + args.padding_0,
                row_sum(
                    input,
                    weight,
                    c.0,
                    out_c,
                    channels.0 + n,
                    args.axis_1(input, weight),
                    c.3 + args.padding_1,
                ),
            ),
    )
}

/// What the direct kernel computes is the transposed convolution, up to a multiple of the modulus,
/// and exactly where that lies in the range of the element type.
pub proof fn law_kernel_computes_transposed_convolution<E: Modular>(
    input: &StridedTensor<E>,
    weight: &StridedTensor<E>,
    bias: Option<&[E]>,
    args: ConvArgs,
    c: (int, int, int, int),
)
    requires
        args.wf(),
    ensures
        ({
            let computed = transpose_direct::output_value(input, weight, bias, args, c).value();
            let wanted = transposed_convolution(input, weight, bias, args, c);
            &&& congruent(computed, wanted, E::modulus())
            &&& E::least() <= wanted < E::least() + E::modulus() ==> computed == wanted
        }),
{
    let start = match bias {
        Some(bias) => bias@[c.1],
        None => E::zero_spec(),
    };
    let (axis_0, axis_1) = (args.axis_0(input, weight), args.axis_1(input, weight));
    let (base_0, base_1) = (c.2 + args.padding_0, c.3 + args.padding_1);
    let channels = transpose_direct::group_channels(c.1, weight, args);
    let out_c = c.1 % weight.shape@[1] as int;
    E::zero_value();
    lemma_channels(
        start,
        input,
        weight,
        c.0,
        out_c,
        channels.0,
        channels.1,
        axis_0,
        base_0,
        axis_1,
        base_1,
    );
    lemma_sum_eq(
        channels.1 - channels.0,
        channel_sum(input, weight, c.0, out_c, channels.0, axis_0, base_0, axis_1, base_1),
        |n: int|
            axis_sum(
                axis_0,
                base_0,
                row_sum(input, weight, c.0, out_c, channels.0 + n, axis_1, base_1),
            ),
    );
    let computed = transpose_direct::output_value(input, weight, bias, args, c);
    let wanted = transposed_convolution(input, weight, bias, args, c);
    computed.value_in_range();
    if E::least() <= wanted < E::least() + E::modulus() {
        let (m, diff) = (E::modulus(), computed.value() - wanted);
        assert(diff == 0) by (nonlinear_arith)
            requires
                m > 0,
                -m < diff < m,
                diff % m == 0,
        ;
    }
}

/// The sum of `f` over a list of pairs.
spec fn list_sum(pairs: Seq<(int, int)>, f: spec_fn(int, int) -> int) -> int
    decreases pairs.len(),
{
    if pairs.len() == 0 {
        0
    } else {
        list_sum(pairs.drop_last(), f) + f(pairs.last().0, pairs.last().1)
    }
}

/// What one input channel contributes, given how far it is from the first.
spec fn channel_sum<E: Modular>(
    input: &StridedTensor<E>,
    weight: &StridedTensor<E>,
    batch: int,
    out_c: int,
    lo: int,
    axis_0: Axis,
    base_0: int,
    axis_1: Axis,
    base_1: int,
) -> spec_fn(int) -> int {
    |n: int| axis_sum(axis_0, base_0, row_sum(input, weight, batch, out_c, lo + n, axis_1, base_1))
}

pub(crate) proof fn lemma_sum_eq(n: int, f: spec_fn(int) -> int, g: spec_fn(int) -> int)
    requires
        forall|i: int| 0 <= i < n ==> #[trigger] f(i) == g(i),
    ensures
        sum(n, f) == sum(n, g),
    decreases n,
{
    if n > 0 {
        lemma_sum_eq(n - 1, f, g);
        assert(f(n - 1) == g(n - 1));
    }
}

pub(crate) proof fn lemma_sum_single(n: int, f: spec_fn(int) -> int, t: int)
    requires
        forall|k: int| 0 <= k < n && k != t ==> #[trigger] f(k) == 0,
    ensures
        sum(n, f) == if 0 <= t < n {
            f(t)
        } else {
            0
        },
    decreases n,
{
    if n > 0 {
        lemma_sum_single(n - 1, f, t);
        if n - 1 != t {
            assert(f(n - 1) == 0);
        }
    }
}

/// A sum over the pairs that meet is the sum over the list of them.
proof fn lemma_axis_sum(axis: Axis, base: int, n: int, f: spec_fn(int, int) -> int)
    requires
        axis.wf(),
        0 <= n <= axis.input,
    ensures
        sum(n, |i: int| tap_sum(axis, base, f, i)) == list_sum(axis.meetings(base, 0, n), f),
    decreases n,
{
    if n > 0 {
        let i = n - 1;
        lemma_axis_sum(axis, base, i, f);
        let at_tap = |k: int|
            if i * axis.stride + k * axis.dilation == base {
                f(i, k)
            } else {
                0
            };
        let tap = axis.tap_at(base, i);
        assert forall|k: int| 0 <= k < axis.kernel && k != tap implies #[trigger] at_tap(k) == 0 by {
            if i * axis.stride + k * axis.dilation == base {
                axis::lemma_tap_is_unique(axis, base, i, k);
            }
        }
        lemma_sum_single(axis.kernel as int, at_tap, tap);
        assert(tap_sum(axis, base, f, i) == sum(axis.kernel as int, at_tap));
        let earlier = axis.meetings(base, 0, i);
        assert(earlier.push((i, tap)).drop_last() =~= earlier);
    }
}

/// Adding a term keeps a congruence.
proof fn lemma_congruent_step(after: int, before: int, term: int, total: int, m: int)
    requires
        m > 0,
        congruent(after, before + term, m),
        congruent(before, total, m),
    ensures
        congruent(after, total + term, m),
{
    let p = (after - (before + term)) / m;
    let q = (before - total) / m;
    div_mod::lemma_fundamental_div_mod(after - (before + term), m);
    div_mod::lemma_fundamental_div_mod(before - total, m);
    assert(m * p + m * q == (p + q) * m) by (nonlinear_arith);
    div_mod::lemma_mod_multiples_basic(p + q, m);
    assert(after - (total + term) == (p + q) * m);
}

proof fn lemma_congruent_self(a: int, m: int)
    requires
        m > 0,
    ensures
        congruent(a, a, m),
{
    div_mod::lemma_small_mod(0, m as nat);
}

proof fn lemma_row<E: Modular>(
    start: E,
    input: &StridedTensor<E>,
    weight: &StridedTensor<E>,
    batch: int,
    out_c: int,
    in_c: int,
    y: (int, int),
    xs: Seq<(int, int)>,
)
    ensures
        congruent(
            transpose_direct::add_row(start, input, weight, batch, out_c, in_c, y, xs).value(),
            start.value() + list_sum(xs, product(input, weight, batch, out_c, in_c, y)),
            E::modulus(),
        ),
    decreases xs.len(),
{
    E::zero_value();
    let m = E::modulus();
    lemma_congruent_self(start.value(), m);
    if xs.len() > 0 {
        let rest = xs.drop_last();
        let x = xs.last();
        let f = product(input, weight, batch, out_c, in_c, y);
        lemma_row(start, input, weight, batch, out_c, in_c, y, rest);
        let before = transpose_direct::add_row(start, input, weight, batch, out_c, in_c, y, rest);
        let value = input.at(batch, in_c, y.0, x.0);
        let factor = weight.at(in_c, out_c, y.1, x.1);
        let term = value.times_spec(factor);
        value.times_value(factor);
        before.plus_value(term);
        assert(f(x.0, x.1) == value.value() * factor.value());
        lemma_congruent_step(
            before.plus_spec(term).value(),
            term.value(),
            before.value(),
            f(x.0, x.1),
            m,
        );
        lemma_congruent_step(
            before.plus_spec(term).value(),
            before.value(),
            f(x.0, x.1),
            start.value() + list_sum(rest, f),
            m,
        );
    }
}

proof fn lemma_plane<E: Modular>(
    start: E,
    input: &StridedTensor<E>,
    weight: &StridedTensor<E>,
    batch: int,
    out_c: int,
    in_c: int,
    ys: Seq<(int, int)>,
    axis: Axis,
    base: int,
)
    requires
        axis.wf(),
    ensures
        congruent(
            transpose_direct::add_plane(
                start,
                input,
                weight,
                batch,
                out_c,
                in_c,
                ys,
                axis.visited(base),
            ).value(),
            start.value() + list_sum(ys, row_sum(input, weight, batch, out_c, in_c, axis, base)),
            E::modulus(),
        ),
    decreases ys.len(),
{
    E::zero_value();
    let m = E::modulus();
    lemma_congruent_self(start.value(), m);
    let xs = axis.visited(base);
    if ys.len() > 0 {
        let rest = ys.drop_last();
        let y = ys.last();
        let f = row_sum(input, weight, batch, out_c, in_c, axis, base);
        let g = product(input, weight, batch, out_c, in_c, y);
        lemma_plane(start, input, weight, batch, out_c, in_c, rest, axis, base);
        let before = transpose_direct::add_plane(
            start,
            input,
            weight,
            batch,
            out_c,
            in_c,
            rest,
            xs,
        );
        let after = transpose_direct::add_row(before, input, weight, batch, out_c, in_c, y, xs);
        lemma_row(before, input, weight, batch, out_c, in_c, y, xs);
        lemma_axis_sum(axis, base, axis.input as int, g);
        assert(f(y.0, y.1) == list_sum(xs, g));
        lemma_congruent_step(
            after.value(),
            before.value(),
            f(y.0, y.1),
            start.value() + list_sum(rest, f),
            m,
        );
    }
}

proof fn lemma_channels<E: Modular>(
    start: E,
    input: &StridedTensor<E>,
    weight: &StridedTensor<E>,
    batch: int,
    out_c: int,
    lo: int,
    hi: int,
    axis_0: Axis,
    base_0: int,
    axis_1: Axis,
    base_1: int,
)
    requires
        axis_0.wf(),
        axis_1.wf(),
    ensures
        congruent(
            transpose_direct::add_channels(
                start,
                input,
                weight,
                batch,
                out_c,
                lo,
                hi,
                axis_0.visited(base_0),
                axis_1.visited(base_1),
            ).value(),
            start.value() + sum(
                hi - lo,
                channel_sum(input, weight, batch, out_c, lo, axis_0, base_0, axis_1, base_1),
            ),
            E::modulus(),
        ),
    decreases hi - lo,
{
    E::zero_value();
    let m = E::modulus();
    lemma_congruent_self(start.value(), m);
    let ys = axis_0.visited(base_0);
    let xs = axis_1.visited(base_1);
    if lo < hi {
        let f = channel_sum(input, weight, batch, out_c, lo, axis_0, base_0, axis_1, base_1);
        let g = row_sum(input, weight, batch, out_c, hi - 1, axis_1, base_1);
        lemma_channels(
            start,
            input,
            weight,
            batch,
            out_c,
            lo,
            hi - 1,
            axis_0,
            base_0,
            axis_1,
            base_1,
        );
        let before = transpose_direct::add_channels(
            start,
            input,
            weight,
            batch,
            out_c,
            lo,
            hi - 1,
            ys,
            xs,
        );
        let after = transpose_direct::add_plane(before, input, weight, batch, out_c, hi - 1, ys, xs);
        lemma_plane(before, input, weight, batch, out_c, hi - 1, ys, axis_1, base_1);
        lemma_axis_sum(axis_0, base_0, axis_0.input as int, g);
        assert(f(hi - 1 - lo) == list_sum(ys, g));
        lemma_congruent_step(
            after.value(),
            before.value(),
            f(hi - 1 - lo),
            start.value() + sum(hi - 1 - lo, f),
            m,
        );
    }
}

} // verus!
