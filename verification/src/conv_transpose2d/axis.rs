//! One spatial axis of a transposed convolution.
//!
//! Input position `i` meets kernel tap `k` at the padded output position
//! `i * stride + k * dilation`. The direct kernel turns this around: for a padded output
//! position it walks a range of candidate input positions and keeps those that some tap
//! carries there.
use crate::sizes;
use vstd::prelude::*;
use vstd::set_lib;

verus! {

/// Division that rounds toward zero, as the machine divides signed integers.
pub open spec fn div_toward_zero(n: int, d: int) -> int {
    if n >= 0 {
        n / d
    } else {
        -((-n) / d)
    }
}

/// One spatial axis: how many taps the kernel has along it, how far apart neighbouring input
/// positions and neighbouring taps land in the output, and how many input positions there are.
#[derive(Clone, Copy, Debug, PartialEq, Eq)]
pub struct Axis {
    pub kernel: usize,
    pub stride: usize,
    pub dilation: usize,
    pub input: usize,
}

impl Axis {
    pub open spec fn wf(self) -> bool {
        self.stride > 0 && self.dilation > 0
    }

    /// How far the taps reach, counting the gaps between them.
    pub open spec fn extent(self) -> int {
        self.kernel * self.dilation
    }

    /// Whether tap `k` carries input position `i` to the padded output position `base`.
    pub open spec fn meets(self, base: int, i: int, k: int) -> bool {
        &&& 0 <= i < self.input
        &&& 0 <= k < self.kernel
        &&& i * self.stride + k * self.dilation == base
    }

    /// The only tap that can carry input position `i` to `base`.
    pub open spec fn tap_at(self, base: int, i: int) -> int {
        (base - i * self.stride) / (self.dilation as int)
    }

    /// Whether input position `i` is carried to `base` by some tap.
    pub open spec fn hit(self, base: int, i: int) -> bool {
        self.meets(base, i, self.tap_at(base, i))
    }

    /// The pairs of input position and tap that meet at `base`, over the input positions
    /// `lo..hi`, in increasing order of input position.
    pub open spec fn meetings(self, base: int, lo: int, hi: int) -> Seq<(int, int)>
        decreases hi - lo,
    {
        if hi <= lo {
            Seq::empty()
        } else {
            let earlier = self.meetings(base, lo, hi - 1);
            if self.hit(base, hi - 1) {
                earlier.push((hi - 1, self.tap_at(base, hi - 1)))
            } else {
                earlier
            }
        }
    }

    /// The pairs that the direct kernel multiplies and adds for `base`: all of those that meet
    /// there.
    pub open spec fn visited(self, base: int) -> Seq<(int, int)> {
        self.meetings(base, 0, self.input as int)
    }

    /// How far the walk over candidate input positions goes beyond its start: not at all where the
    /// stride exceeds the reach of the taps, since then at most one input position meets a tap.
    pub open spec fn span(self) -> int {
        if self.stride > self.extent() {
            0
        } else {
            self.extent() - self.stride
        }
    }

    /// Where the walk over candidate input positions starts, before it is clipped to the input.
    pub open spec fn walk_start(self, base: int) -> int {
        div_toward_zero(base - (self.extent() - self.stride), self.stride as int)
    }

    /// Where that walk ends, before it is clipped to the input.
    pub open spec fn walk_end(self, base: int) -> int {
        self.walk_start(base) + self.span() + 1
    }

    /// The first input position walked.
    pub open spec fn first(self, base: int) -> int {
        if self.walk_start(base) < 0 {
            0
        } else {
            self.walk_start(base)
        }
    }

    /// One past the last input position walked.
    pub open spec fn last(self, base: int) -> int {
        if self.walk_end(base) < 0 {
            0
        } else if self.walk_end(base) > self.input {
            self.input as int
        } else {
            self.walk_end(base)
        }
    }

    /// What the kernel's machine arithmetic needs for every padded output position up to and with
    /// `base`: the bounds of the walk are 32-bit signed integers.
    pub open spec fn fits(self, base: int) -> bool {
        &&& self.extent() <= i32::MAX
        &&& self.stride <= i32::MAX
        &&& self.input <= i32::MAX
        &&& self.input * self.stride <= usize::MAX
        &&& base < i32::MAX
        &&& base + self.stride - self.extent() <= i32::MAX
        &&& self.kernel == 0 ==> base + self.stride < i32::MAX
    }

    /// The range of input positions that the kernel walks for the padded output position `base`.
    pub fn walk(&self, base: usize) -> (range: (usize, usize))
        requires
            self.wf(),
            self.fits(base as int),
        ensures
            range.0 == self.first(base as int),
            range.1 == self.last(base as int),
            range.0 < range.1 ==> range.1 <= self.input,
            range.0 < range.1 && self.stride <= self.kernel * self.dilation ==> range.1 - range.0
                <= self.kernel * self.dilation - self.stride + 1,
            range.0 < range.1 && self.stride > self.kernel * self.dilation ==> range.1 - range.0
                == 1,
    {
        let stride: i32 = self.stride as i32;
        let reach: i32 = (self.kernel * self.dilation) as i32 - stride;
        let start: i32 = (base as i32 - reach) / stride;
        proof {
            lemma_walk_bounds(*self, base as int);
        }
        let span: i32 = if reach < 0 {
            0
        } else {
            reach
        };
        let end: i32 = span + start + 1;
        let first: usize = if start < 0 {
            0
        } else {
            start as usize
        };
        let last: usize = if end < 0 {
            0
        } else if end > self.input as i32 {
            self.input
        } else {
            end as usize
        };
        (first, last)
    }
}

/// The end of the walk stays in the range of a 32-bit signed integer.
proof fn lemma_walk_bounds(axis: Axis, base: int)
    requires
        axis.wf(),
        base >= 0,
        axis.fits(base),
    ensures
        i32::MIN <= axis.walk_start(base) <= i32::MAX,
        i32::MIN <= axis.walk_end(base) <= i32::MAX,
{
    let n = base - (axis.extent() - axis.stride);
    let s = axis.stride as int;
    assert(axis.extent() >= 0) by (nonlinear_arith)
        requires
            axis.extent() == axis.kernel * axis.dilation,
    ;
    if n >= 0 {
        assert(0 <= n / s <= n) by (nonlinear_arith)
            requires
                n >= 0,
                s > 0,
        ;
        if axis.kernel > 0 && s > axis.extent() {
            assert(axis.extent() >= 1) by (nonlinear_arith)
                requires
                    axis.kernel >= 1,
                    axis.dilation >= 1,
                    axis.extent() == axis.kernel * axis.dilation,
            ;
            assert(2 * (n / s) <= n) by (nonlinear_arith)
                requires
                    n >= 0,
                    s >= 2,
            ;
        }
    } else {
        assert(0 <= (-n) / s <= -n) by (nonlinear_arith)
            requires
                n < 0,
                s > 0,
        ;
    }
}

/// Inside the walk, an input position from which a whole number of taps leads to `base` is met
/// there by a tap that the kernel has.
pub(crate) proof fn lemma_walked_tap_exists(axis: Axis, base: int, i: int)
    requires
        axis.wf(),
        axis.first(base) <= i < axis.last(base),
        i * axis.stride <= base,
        (base - i * axis.stride) % (axis.dilation as int) == 0,
    ensures
        axis.hit(base, i),
{
    let n = base - (axis.extent() - axis.stride);
    let s = axis.stride as int;
    let d = axis.dilation as int;
    let k = axis.tap_at(base, i);
    let kernel = axis.kernel as int;
    let rest = base - i * s;
    assert(rest == k * d && k >= 0) by (nonlinear_arith)
        requires
            rest >= 0,
            d > 0,
            rest % d == 0,
            k == rest / d,
    ;
    assert(rest < kernel * d) by {
        if n >= 0 {
            let q = n / s;
            assert(n < q * s + s) by (nonlinear_arith)
                requires
                    s > 0,
                    q == n / s,
            ;
            assert(q * s <= i * s) by (nonlinear_arith)
                requires
                    q <= i,
                    s > 0,
            ;
        } else {
            assert(i * s >= 0) by (nonlinear_arith)
                requires
                    i >= 0,
                    s > 0,
            ;
        }
    }
    assert(k < kernel) by (nonlinear_arith)
        requires
            k * d < kernel * d,
            d > 0,
    ;
}

/// A whole number of taps leads from an input position to where it is met.
pub(crate) proof fn lemma_hit_divides(axis: Axis, base: int, i: int)
    requires
        axis.wf(),
        axis.hit(base, i),
    ensures
        i * axis.stride <= base,
        (base - i * axis.stride) % (axis.dilation as int) == 0,
{
    let d = axis.dilation as int;
    let k = axis.tap_at(base, i);
    assert(k * d >= 0 && (k * d) % d == 0) by (nonlinear_arith)
        requires
            k >= 0,
            d > 0,
    ;
}

/// Every input position that meets a tap at `base` lies inside the walk.
pub(crate) proof fn lemma_hits_are_walked(axis: Axis, base: int, i: int)
    requires
        axis.wf(),
        axis.hit(base, i),
    ensures
        axis.first(base) <= i < axis.last(base),
{
    let span = axis.span();
    let n = base - (axis.extent() - axis.stride);
    let s = axis.stride as int;
    let d = axis.dilation as int;
    let k = axis.tap_at(base, i);
    let kernel = axis.kernel as int;
    assert(0 <= k * d < kernel * d) by (nonlinear_arith)
        requires
            0 <= k < kernel,
            d > 0,
    ;
    if n >= 0 {
        let q = n / s;
        assert(q * s <= n < q * s + s) by (nonlinear_arith)
            requires
                s > 0,
                q == n / s,
        ;
        assert(q <= i) by (nonlinear_arith)
            requires
                q * s - s < i * s,
                s > 0,
        ;
        assert(i <= q + span) by (nonlinear_arith)
            requires
                i * s < q * s + s + span,
                span >= 0,
                s >= 1,
        ;
    } else {
        assert((-n) / s <= -n) by (nonlinear_arith)
            requires
                n < 0,
                s >= 1,
        ;
        assert(i <= i * s) by (nonlinear_arith)
            requires
                i >= 0,
                s >= 1,
        ;
    }
}

/// Positions without a meeting can be cut off the end of a range.
proof fn lemma_trim_end(axis: Axis, base: int, lo: int, b: int, hi: int)
    requires
        lo <= b <= hi,
        forall|i: int| b <= i < hi ==> !axis.hit(base, i),
    ensures
        axis.meetings(base, lo, hi) == axis.meetings(base, lo, b),
    decreases hi - b,
{
    if b < hi {
        lemma_trim_end(axis, base, lo, b, hi - 1);
    }
}

/// Positions without a meeting can be cut off the start of a range.
proof fn lemma_trim_start(axis: Axis, base: int, lo: int, a: int, hi: int)
    requires
        lo <= a <= hi,
        forall|i: int| lo <= i < a ==> !axis.hit(base, i),
    ensures
        axis.meetings(base, lo, hi) == axis.meetings(base, a, hi),
    decreases hi - a,
{
    if a < hi {
        lemma_trim_start(axis, base, lo, a, hi - 1);
    } else {
        lemma_trim_end(axis, base, lo, lo, hi);
    }
}

/// What the walk keeps is what [`Axis::visited`] names.
pub(crate) proof fn lemma_walk_keeps_visited(axis: Axis, base: int)
    requires
        axis.wf(),
    ensures
        axis.meetings(base, axis.first(base), axis.last(base)) == axis.visited(base),
{
    let (first, last, input) = (axis.first(base), axis.last(base), axis.input as int);
    assert forall|i: int| axis.hit(base, i) implies first <= i < last by {
        lemma_hits_are_walked(axis, base, i);
    }
    if first <= last {
        lemma_trim_end(axis, base, 0, last, input);
        lemma_trim_start(axis, base, 0, first, last);
    } else {
        lemma_trim_end(axis, base, 0, 0, input);
    }
}

/// At most one tap carries an input position to `base`.
pub(crate) proof fn lemma_tap_is_unique(axis: Axis, base: int, i: int, k: int)
    requires
        axis.wf(),
        i * axis.stride + k * axis.dilation == base,
    ensures
        k == axis.tap_at(base, i),
{
    let d = axis.dilation as int;
    assert((k * d) / d == k) by (nonlinear_arith)
        requires
            d > 0,
    ;
}

/// A range of input positions holds a pair exactly where the pair meets and its position is in the
/// range; the pairs stand in increasing order of input position.
proof fn lemma_meetings(axis: Axis, base: int, lo: int, hi: int)
    requires
        axis.wf(),
    ensures
        forall|i: int, k: int| #[trigger]
            axis.meetings(base, lo, hi).contains((i, k)) <==> lo <= i < hi && axis.meets(base, i, k),
        forall|p: int, q: int|
            0 <= p < q < axis.meetings(base, lo, hi).len() ==> #[trigger] axis.meetings(
                base,
                lo,
                hi,
            )[p].0 < #[trigger] axis.meetings(base, lo, hi)[q].0,
    decreases hi - lo,
{
    let all = axis.meetings(base, lo, hi);
    if lo < hi {
        lemma_meetings(axis, base, lo, hi - 1);
        let earlier = axis.meetings(base, lo, hi - 1);
        let tap = axis.tap_at(base, hi - 1);
        assert forall|p: int| 0 <= p < earlier.len() implies (#[trigger] earlier[p]).0 < hi - 1 by {
            assert(earlier.contains((earlier[p].0, earlier[p].1)));
        }
        assert forall|i: int, k: int| #[trigger]
            all.contains((i, k)) <==> lo <= i < hi && axis.meets(base, i, k) by {
            if all.contains((i, k)) {
                let p = choose|p: int| 0 <= p < all.len() && all[p] == (i, k);
                if p < earlier.len() {
                    assert(earlier[p] == (i, k));
                    assert(earlier.contains((i, k)));
                }
            }
            if lo <= i < hi && axis.meets(base, i, k) {
                lemma_tap_is_unique(axis, base, i, k);
                if i == hi - 1 {
                    assert(all[all.len() - 1] == (i, k));
                } else {
                    assert(earlier.contains((i, k)));
                    let p = choose|p: int| 0 <= p < earlier.len() && earlier[p] == (i, k);
                    assert(all[p] == (i, k));
                }
            }
        }
    }
}

/// The kernel multiplies an input position with a tap exactly where the two meet.
pub proof fn law_visits_what_meets(axis: Axis, base: int, i: int, k: int)
    requires
        axis.wf(),
    ensures
        axis.visited(base).contains((i, k)) <==> axis.meets(base, i, k),
{
    lemma_meetings(axis, base, 0, axis.input as int);
}

/// The kernel visits input positions in increasing order, and so none of them twice.
pub proof fn law_visits_in_order(axis: Axis, base: int, p: int, q: int)
    requires
        axis.wf(),
        0 <= p < q < axis.visited(base).len(),
    ensures
        axis.visited(base)[p].0 < axis.visited(base)[q].0,
{
    lemma_meetings(axis, base, 0, axis.input as int);
}

proof fn lemma_visits_once(axis: Axis, base: int)
    requires
        axis.wf(),
    ensures
        axis.visited(base).no_duplicates(),
{
    let pairs = axis.visited(base);
    assert forall|p: int, q: int|
        0 <= p < pairs.len() && 0 <= q < pairs.len() && p != q implies pairs[p] != pairs[q] by {
        if p < q {
            law_visits_in_order(axis, base, p, q);
        } else {
            law_visits_in_order(axis, base, q, p);
        }
    }
}

/// Every pair of an input position and a tap meets at exactly one padded output position, and
/// without padding that is a position of the output.
pub proof fn law_every_pair_meets_once(axis: Axis, padding_out: int, i: int, k: int, base: int)
    requires
        axis.wf(),
        padding_out >= 0,
        0 <= i < axis.input,
        0 <= k < axis.kernel,
    ensures
        axis.meets(base, i, k) <==> base == i * axis.stride + k * axis.dilation,
        axis.meets(base, i, k) ==> 0 <= base < sizes::transpose_output_size(
            axis.kernel as int,
            axis.stride as int,
            0,
            padding_out,
            axis.dilation as int,
            axis.input as int,
        ),
{
    let (s, d) = (axis.stride as int, axis.dilation as int);
    assert(0 <= i * s <= (axis.input - 1) * s) by (nonlinear_arith)
        requires
            0 <= i <= axis.input - 1,
            s > 0,
    ;
    assert(0 <= k * d <= d * (axis.kernel - 1)) by (nonlinear_arith)
        requires
            0 <= k <= axis.kernel - 1,
            d > 0,
    ;
}

/// How long the walk is does not depend on where it starts, and so not on the padding: before it is
/// clipped to the input it takes `kernel * dilation - stride + 1` steps, or one where the stride
/// exceeds the reach of the taps, and clipping only shortens it.
pub proof fn law_walk_length(axis: Axis, base: int)
    requires
        axis.wf(),
    ensures
        ({
            let length = axis.walk_end(base) - axis.walk_start(base);
            &&& axis.stride <= axis.extent() ==> length == axis.kernel * axis.dilation - axis.stride
                + 1
            &&& axis.stride > axis.extent() ==> length == 1
            &&& axis.last(base) - axis.first(base) <= length
            &&& 0 <= axis.walk_start(base) && axis.walk_end(base) <= axis.input ==> axis.last(base)
                - axis.first(base) == length
        }),
{
}

/// However long the walk is, it multiplies at most once per tap.
pub proof fn law_visits_at_most_once_per_tap(axis: Axis, base: int)
    requires
        axis.wf(),
    ensures
        axis.visited(base).len() <= axis.kernel,
{
    let pairs = axis.visited(base);
    let taps = set_lib::set_int_range(0, axis.kernel as int);
    let tap = |pair: (int, int)| pair.1;
    lemma_meetings(axis, base, 0, axis.input as int);
    lemma_visits_once(axis, base);
    pairs.unique_seq_to_set();
    set_lib::lemma_int_range(0, axis.kernel as int);
    assert forall|a: (int, int), b: (int, int)|
        #![trigger pairs.to_set().contains(a), pairs.to_set().contains(b)]
        pairs.to_set().contains(a) && pairs.to_set().contains(b) && tap(a) == tap(b) implies a
        == b by {
        assert(pairs.contains((a.0, a.1)) && pairs.contains((b.0, b.1)));
        assert(a.0 == b.0) by (nonlinear_arith)
            requires
                a.0 * axis.stride == b.0 * axis.stride,
                axis.stride > 0,
        ;
    }
    let used = pairs.to_set().map(tap);
    set_lib::lemma_map_size(pairs.to_set(), used, tap);
    assert(used.subset_of(taps)) by {
        assert forall|k: int| used.contains(k) implies taps.contains(k) by {
            let a = choose|a: (int, int)| pairs.to_set().contains(a) && tap(a) == k;
            assert(pairs.contains((a.0, a.1)));
        }
    }
    set_lib::lemma_len_subset(used, taps);
}

/// At a stride of one, a padded output position that every tap can reach from inside the input
/// takes one multiplication per tap, whatever the dilation.
pub proof fn law_visits_every_tap_inside(axis: Axis, base: int)
    requires
        axis.wf(),
        axis.stride == 1,
        axis.kernel >= 1,
        axis.dilation * (axis.kernel - 1) <= base < axis.input,
    ensures
        axis.visited(base).len() == axis.kernel,
{
    law_visits_at_most_once_per_tap(axis, base);
    let pairs = axis.visited(base);
    let taps = set_lib::set_int_range(0, axis.kernel as int);
    let d = axis.dilation as int;
    let pair = |k: int| (base - k * d, k);
    lemma_meetings(axis, base, 0, axis.input as int);
    lemma_visits_once(axis, base);
    pairs.unique_seq_to_set();
    set_lib::lemma_int_range(0, axis.kernel as int);
    let met = taps.map(pair);
    set_lib::lemma_map_size(taps, met, pair);
    assert(met.subset_of(pairs.to_set())) by {
        assert forall|a: (int, int)| met.contains(a) implies pairs.to_set().contains(a) by {
            let k = choose|k: int| taps.contains(k) && pair(k) == a;
            assert(0 <= k * d <= d * (axis.kernel - 1)) by (nonlinear_arith)
                requires
                    0 <= k <= axis.kernel - 1,
                    d > 0,
            ;
            assert(axis.meets(base, base - k * d, k));
            assert(pairs.contains((base - k * d, k)));
        }
    }
    set_lib::lemma_len_subset(met, pairs.to_set());
}

/// The walk leaves out no input position that a tap carries to `base`, looks at none outside the
/// input, and at no more than `kernel * dilation - stride + 1` of them, or one where the stride is
/// larger than that leaves room for.
pub proof fn law_walk_covers_what_is_carried(axis: Axis, base: int, i: int, k: int)
    requires
        axis.wf(),
    ensures
        0 <= i < axis.input && 0 <= k < axis.kernel && i * axis.stride + k * axis.dilation == base
            ==> axis.first(base) <= i < axis.last(base),
        0 <= axis.first(base),
        axis.last(base) <= axis.input,
        axis.stride <= axis.kernel * axis.dilation ==> axis.last(base) - axis.first(base)
            <= axis.kernel * axis.dilation - axis.stride + 1,
        axis.stride > axis.kernel * axis.dilation ==> axis.last(base) - axis.first(base) <= 1,
{
    if 0 <= i < axis.input && 0 <= k < axis.kernel && i * axis.stride + k * axis.dilation == base {
        lemma_tap_is_unique(axis, base, i, k);
        lemma_hits_are_walked(axis, base, i);
    }
}

/// What the kernel visits along an axis is what the axis itself says: a pair is visited exactly where
/// the input position times the stride and the tap times the dilation add up to `base`.
pub proof fn law_visits_what_adds_up(axis: Axis, base: int, i: int, k: int)
    requires
        axis.wf(),
    ensures
        axis.visited(base).contains((i, k)) <==> 0 <= i < axis.input && 0 <= k < axis.kernel && i
            * axis.stride + k * axis.dilation == base,
{
    law_visits_what_meets(axis, base, i, k);
}

} // verus!
