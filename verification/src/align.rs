//! How well sizes and strides are aligned, in powers of two.
use vstd::arithmetic::div_mod;
use vstd::arithmetic::power2;
use vstd::prelude::*;
use vstd::std_specs::bits;

verus! {

/// Maximum factor relevant for strides. 2^10 is the repeat number of the 128-byte swizzle, so it
/// is the largest alignment that can have performance impacts.
pub const MAX_STRIDE_FACTOR: u32 = 10;

/// Maximum factor relevant for the vectorization of an axis.
pub const MAX_AXIS_FACTOR: u32 = 4;

/// How often two divides `x`, counting no further than `cap`.
pub open spec fn twos(x: nat, cap: nat) -> nat
    decreases cap,
{
    if cap == 0 || x % 2 != 0 {
        0
    } else {
        1 + twos(x / 2, (cap - 1) as nat)
    }
}

/// The byte distance that a stride of `stride` elements covers.
pub open spec fn byte_stride(stride: usize, size_bits: int) -> int {
    (stride * size_bits) / 8
}

/// The smallest count of twos among the byte distances of the first `n` strides.
pub open spec fn least_twos(strides: Seq<usize>, size_bits: int, n: int) -> nat
    decreases n,
{
    if n <= 0 {
        MAX_STRIDE_FACTOR as nat
    } else {
        let before = least_twos(strides, size_bits, n - 1);
        let here = twos(byte_stride(strides[n - 1], size_bits) as nat, MAX_STRIDE_FACTOR as nat);
        if here < before {
            here
        } else {
            before
        }
    }
}

/// The alignment of a tensor's strides: of all of them but the innermost, which is the channels'.
pub open spec fn stride_alignment(strides: Seq<usize>, size_bits: int) -> nat {
    least_twos(strides, size_bits, strides.len() - 1)
}

/// Defines the potential vectorization.
pub fn pow2_factor(axis: usize) -> (factor: u8)
    ensures
        factor == twos(axis as nat, MAX_AXIS_FACTOR as nat),
        factor <= 4,
        forall|m: nat| m <= 4 ==> (m <= factor <==> axis as nat % #[trigger] power2::pow2(m) == 0),
{
    let zeros: u32 = (axis as u64).trailing_zeros();
    proof {
        lemma_trailing_zeros(axis as u64, MAX_AXIS_FACTOR as nat);
        law_twos_is_the_largest_power(axis as nat, MAX_AXIS_FACTOR as nat, 0);
        assert forall|m: nat| m <= 4 implies (m <= twos(axis as nat, 4) <==> axis as nat
            % #[trigger] power2::pow2(m) == 0) by {
            law_twos_is_the_largest_power(axis as nat, 4, m);
        }
    }
    if zeros < MAX_AXIS_FACTOR {
        zeros as u8
    } else {
        MAX_AXIS_FACTOR as u8
    }
}

/// Defines the non-contiguous stride alignment in terms of powers of two.
pub fn stride_align(strides: &[usize], size_bits: usize) -> (align: u8)
    requires
        strides@.len() > 0,
        forall|i: int| 0 <= i < strides@.len() - 1 ==> #[trigger] strides@[i] * size_bits <= usize::MAX,
    ensures
        align == stride_alignment(strides@, size_bits as int),
        align <= 10,
        forall|m: nat|
            m <= 10 ==> (m <= align <==> divides_outer_strides(
                #[trigger] power2::pow2(m),
                strides@,
                size_bits as int,
            )),
{
    let dim_c: usize = strides.len() - 1;
    let mut factor: u32 = MAX_STRIDE_FACTOR;
    let mut i: usize = 0;
    while i < dim_c
        invariant
            i <= dim_c,
            dim_c == strides@.len() - 1,
            forall|i: int|
                0 <= i < strides@.len() - 1 ==> #[trigger] strides@[i] * size_bits <= usize::MAX,
            factor == least_twos(strides@, size_bits as int, i as int),
            factor <= MAX_STRIDE_FACTOR,
        decreases dim_c - i,
    {
        let bytes: usize = (strides[i] * size_bits) / 8;
        let zeros: u32 = (bytes as u64).trailing_zeros();
        proof {
            lemma_trailing_zeros(bytes as u64, MAX_STRIDE_FACTOR as nat);
        }
        if zeros < factor {
            factor = zeros;
        }
        i = i + 1;
    }
    proof {
        law_stride_alignment_divides_every_stride(strides@, size_bits as int, 0);
        assert forall|m: nat| m <= 10 implies (m <= factor <==> divides_outer_strides(
            #[trigger] power2::pow2(m),
            strides@,
            size_bits as int,
        )) by {
            law_stride_alignment_divides_every_stride(strides@, size_bits as int, m);
            law_outer_strides_are_counted_in_bytes(power2::pow2(m), strides@, size_bits as int);
        }
    }
    factor as u8
}

/// Whether `power` divides the byte distance of every stride but the innermost.
pub open spec fn divides_outer_strides(power: nat, strides: Seq<usize>, size_bits: int) -> bool {
    forall|i: int|
        0 <= i < strides.len() - 1 ==> #[trigger] byte_stride(strides[i], size_bits) % (power as int)
            == 0
}

/// A power divides the outer strides exactly where it divides, for every dimension but the last,
/// the stride times the bits of an element, in whole bytes.
pub proof fn law_outer_strides_are_counted_in_bytes(
    power: nat,
    strides: Seq<usize>,
    size_bits: int,
)
    ensures
        divides_outer_strides(power, strides, size_bits) <==> forall|i: int|
            0 <= i < strides.len() - 1 ==> ((#[trigger] strides[i] * size_bits) / 8) % (power as int)
                == 0,
{
    if divides_outer_strides(power, strides, size_bits) {
        assert forall|i: int| 0 <= i < strides.len() - 1 implies ((#[trigger] strides[i] * size_bits)
            / 8) % (power as int) == 0 by {
            assert(byte_stride(strides[i], size_bits) % (power as int) == 0);
        }
    }
}

/// The count of twos is the largest power of two that divides, among those up to the cap: a
/// smaller or equal power divides, and a larger one does not.
pub proof fn law_twos_is_the_largest_power(x: nat, cap: nat, m: nat)
    requires
        m <= cap,
    ensures
        m <= twos(x, cap) <==> x % power2::pow2(m) == 0,
        twos(x, cap) <= cap,
    decreases cap,
{
    power2::lemma_pow2_pos(m);
    if m == 0 {
        power2::lemma2_to64();
        assert(x % 1 == 0);
        if cap > 0 && x % 2 == 0 {
            law_twos_is_the_largest_power(x / 2, (cap - 1) as nat, 0);
        }
    } else {
        let p = power2::pow2((m - 1) as nat);
        power2::lemma_pow2_unfold(m);
        power2::lemma_pow2_pos((m - 1) as nat);
        div_mod::lemma_mod_breakdown(x as int, 2, p as int);
        if x % 2 == 0 {
            law_twos_is_the_largest_power(x / 2, (cap - 1) as nat, (m - 1) as nat);
        }
    }
}

/// A power of two up to the cap is at most the stride alignment exactly where it divides the byte
/// distance of every stride but the innermost.
pub proof fn law_stride_alignment_divides_every_stride(strides: Seq<usize>, size_bits: int, m: nat)
    requires
        strides.len() > 0,
        size_bits >= 0,
        m <= 10,
    ensures
        m <= stride_alignment(strides, size_bits) <==> forall|i: int|
            0 <= i < strides.len() - 1 ==> #[trigger] byte_stride(strides[i], size_bits) % (power2::pow2(m) as int) == 0,
        stride_alignment(strides, size_bits) <= 10,
{
    lemma_least_twos(strides, size_bits, strides.len() - 1, m);
}

proof fn lemma_least_twos(strides: Seq<usize>, size_bits: int, n: int, m: nat)
    requires
        0 <= n <= strides.len(),
        size_bits >= 0,
        m <= MAX_STRIDE_FACTOR,
    ensures
        m <= least_twos(strides, size_bits, n) <==> forall|i: int|
            0 <= i < n ==> #[trigger] byte_stride(strides[i], size_bits) % (power2::pow2(m) as int) == 0,
        least_twos(strides, size_bits, n) <= MAX_STRIDE_FACTOR,
    decreases n,
{
    if n > 0 {
        lemma_least_twos(strides, size_bits, n - 1, m);
        let bytes = byte_stride(strides[n - 1], size_bits);
        assert(bytes >= 0) by (nonlinear_arith)
            requires
                size_bits >= 0,
                bytes == (strides[n - 1] * size_bits) / 8,
        ;
        law_twos_is_the_largest_power(bytes as nat, MAX_STRIDE_FACTOR as nat, m);
        assert(bytes % (power2::pow2(m) as int) == (bytes as nat) % power2::pow2(m)) by {
            power2::lemma_pow2_pos(m);
        }
        if least_twos(strides, size_bits, n - 1) < m {
            let i = choose|i: int|
                0 <= i < n - 1 && #[trigger] byte_stride(strides[i], size_bits) % (power2::pow2(m) as int)
                    != 0;
            assert(byte_stride(strides[i], size_bits) % (power2::pow2(m) as int) != 0);
        }
    }
}

/// The trailing zeros of a word, counted up to `cap`, are its twos.
proof fn lemma_trailing_zeros(x: u64, cap: nat)
    requires
        cap <= 64,
    ensures
        ({
            let zeros = bits::u64_trailing_zeros(x) as nat;
            twos(x as nat, cap) == if zeros < cap { zeros } else { cap }
        }),
{
    let zeros = bits::u64_trailing_zeros(x);
    let count = twos(x as nat, cap);
    bits::axiom_u64_trailing_zeros(x);
    lemma_twos_bits(x, cap);
    if x == 0 {
        if count < cap {
            let c = count as u64;
            assert((0u64 >> c) & 1 == 0) by (bit_vector);
        }
    } else if count < zeros && count < cap {
        assert((x >> count as u64) & 1u64 == 0u64);
    }
}

/// The bits below the count of twos are zero, and the bit at it is one unless the cap was reached.
proof fn lemma_twos_bits(x: u64, cap: nat)
    requires
        cap <= 64,
    ensures
        twos(x as nat, cap) <= cap,
        forall|j: u64| j < twos(x as nat, cap) ==> #[trigger] (x >> j) & 1u64 == 0u64,
        twos(x as nat, cap) < cap ==> (x >> twos(x as nat, cap) as u64) & 1u64 == 1u64,
    decreases cap,
{
    let count = twos(x as nat, cap);
    assert(x % 2 == x & 1) by (bit_vector);
    assert(x & 1 == 0 || x & 1 == 1) by (bit_vector);
    assert(x >> 0 == x) by (bit_vector);
    if cap > 0 && x % 2 == 0 {
        let half = x / 2;
        lemma_twos_bits(half, (cap - 1) as nat);
        assert forall|j: u64| j < count implies #[trigger] (x >> j) & 1u64 == 0u64 by {
            if j > 0 {
                let i = (j - 1) as u64;
                assert((half >> i) & 1u64 == 0u64);
                assert(x >> j == half >> i) by (bit_vector)
                    requires
                        half == x / 2,
                        j == i + 1,
                        j <= 64,
                ;
            }
        }
        if count < cap {
            let j = count as u64;
            let i = (count - 1) as u64;
            assert(x >> j == half >> i) by (bit_vector)
                requires
                    half == x / 2,
                    j == i + 1,
                    j <= 64,
            ;
        }
    }
}

} // verus!
