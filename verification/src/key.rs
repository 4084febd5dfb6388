//! What a tuner remembers a convolution by.
use crate::align;
use crate::align::{pow2_factor, stride_align};
use crate::dtype::DType;
use crate::tensor::{TensorDesc, TensorModel};
use vstd::arithmetic::power2;
use vstd::prelude::*;

verus! {

/// The properties of a convolution that decide which candidate is the fastest.
#[derive(Clone, Debug, PartialEq, Eq, Hash)]
pub struct ConvAutotuneKey {
    pub kernel_size: Vec<usize>,
    pub stride: Vec<usize>,
    pub padding: Vec<(usize, usize)>,
    pub dilation: Vec<usize>,
    pub groups: usize,
    pub in_channels: usize,
    pub out_channels: usize,
    pub shape: Vec<usize>,
    pub batch_size: usize,
    pub has_bias: bool,
    pub dtype: DType,
    pub lhs_shape_align: u8,
    pub lhs_stride_align: u8,
    pub rhs_shape_align: u8,
    pub rhs_stride_align: u8,
}

/// The mathematical content of a [`ConvAutotuneKey`].
#[verifier::ext_equal]
pub struct KeyModel {
    pub kernel_size: Seq<usize>,
    pub stride: Seq<usize>,
    pub padding: Seq<(usize, usize)>,
    pub dilation: Seq<usize>,
    pub groups: usize,
    pub in_channels: usize,
    pub out_channels: usize,
    pub shape: Seq<usize>,
    pub batch_size: usize,
    pub has_bias: bool,
    pub dtype: DType,
    pub lhs_shape_align: nat,
    pub lhs_stride_align: nat,
    pub rhs_shape_align: nat,
    pub rhs_stride_align: nat,
}

impl View for ConvAutotuneKey {
    type V = KeyModel;

    open spec fn view(&self) -> KeyModel {
        KeyModel {
            kernel_size: self.kernel_size@,
            stride: self.stride@,
            padding: self.padding@,
            dilation: self.dilation@,
            groups: self.groups,
            in_channels: self.in_channels,
            out_channels: self.out_channels,
            shape: self.shape@,
            batch_size: self.batch_size,
            has_bias: self.has_bias,
            dtype: self.dtype,
            lhs_shape_align: self.lhs_shape_align as nat,
            lhs_stride_align: self.lhs_stride_align as nat,
            rhs_shape_align: self.rhs_shape_align as nat,
            rhs_stride_align: self.rhs_stride_align as nat,
        }
    }
}

/// The stride alignment that counts for a tensor whose channels are dimension `dim_c`: none where
/// neighbouring channels are not neighbours in memory.
pub open spec fn channel_alignment(tensor: TensorModel, dim_c: int) -> nat {
    if tensor.strides[dim_c] == 1 {
        align::stride_alignment(tensor.strides, tensor.dtype.bits())
    } else {
        0
    }
}

/// The alignment that counts for a number of channels: as far as the strides are aligned too.
pub open spec fn shape_alignment(channels: usize, stride_alignment: nat) -> nat {
    let factor = align::twos(channels as nat, align::MAX_AXIS_FACTOR as nat);
    if factor < stride_alignment {
        factor
    } else {
        stride_alignment
    }
}

/// Whether the alignment of a tensor whose channels are dimension `dim_c` can be computed: where
/// its channels are neighbours in memory, its elements can be stored and its strides can be
/// counted in bits.
pub open spec fn alignable(tensor: TensorModel, dim_c: int) -> bool {
    &&& 0 <= dim_c < tensor.strides.len()
    &&& tensor.strides[dim_c] == 1 ==> {
        &&& tensor.dtype.storable()
        &&& forall|i: int|
            0 <= i < tensor.strides.len() - 1 ==> #[trigger] tensor.strides[i] * tensor.dtype.bits()
                <= usize::MAX
    }
}

/// The stride alignment that counts for a tensor whose channels are dimension `dim_c`.
pub fn channel_stride_align(tensor: &TensorDesc, dim_c: usize) -> (align: u8)
    requires
        alignable(tensor@, dim_c as int),
    ensures
        align == channel_alignment(tensor@, dim_c as int),
        tensor.strides@[dim_c as int] != 1 ==> align == 0,
        tensor.strides@[dim_c as int] == 1 ==> forall|m: nat|
            m <= 10 ==> (m <= align <==> align::divides_outer_strides(
                #[trigger] power2::pow2(m),
                tensor.strides@,
                tensor.dtype.bits(),
            )),
        align <= 10,
{
    if tensor.strides[dim_c] == 1 {
        stride_align(&tensor.strides, tensor.dtype.size_bits())
    } else {
        0
    }
}

/// The alignment that counts for a number of channels.
pub fn channel_shape_align(channels: usize, stride_align: u8) -> (align: u8)
    ensures
        align == shape_alignment(channels, stride_align as nat),
        align <= 4,
        align <= stride_align,
        forall|m: nat|
            m <= 4 ==> (m <= align <==> m <= stride_align && channels as nat
                % #[trigger] power2::pow2(m) == 0),
{
    let factor: u8 = pow2_factor(channels);
    if factor < stride_align {
        factor
    } else {
        stride_align
    }
}

/// `cubecl::tune::anchor`: rounds a size up to a power, so that close sizes share a key. Which
/// power that is depends on the configured autotune level, and with the most thorough one the
/// size stays as it is, so only what holds at every level is claimed: without bounds, zero and
/// one are anchored to themselves.
pub assume_specification[ cubecl::tune::anchor ](
    x: usize,
    max: Option<usize>,
    min: Option<usize>,
    base: Option<usize>,
) -> (anchored: usize)
    ensures
        max is None && min is None && x <= 1 ==> anchored == x,
;

/// Whether `anchored` can be what the sizes are anchored to: each on its own, without bounds and with
/// the default base, so that sizes up to one stay what they are.
pub open spec fn anchors(sizes: Seq<usize>, anchored: Seq<usize>) -> bool {
    &&& anchored.len() == sizes.len()
    &&& forall|i: int|
        0 <= i < sizes.len() ==> call_ensures(
            cubecl::tune::anchor,
            (sizes[i], None::<usize>, None::<usize>, None::<usize>),
            #[trigger] anchored[i],
        )
    &&& forall|i: int| 0 <= i < sizes.len() && sizes[i] <= 1 ==> #[trigger] anchored[i] == sizes[i]
}

/// Anchors every size on its own.
pub fn anchor_sizes(sizes: &[usize]) -> (anchored: Vec<usize>)
    ensures
        anchors(sizes@, anchored@),
        anchored@.len() == sizes@.len(),
        forall|i: int|
            0 <= i < sizes@.len() ==> call_ensures(
                cubecl::tune::anchor,
                (sizes@[i], None::<usize>, None::<usize>, None::<usize>),
                #[trigger] anchored@[i],
            ),
{
    let mut anchored: Vec<usize> = Vec::new();
    let mut i: usize = 0;
    while i < sizes.len()
        invariant
            i <= sizes@.len(),
            anchors(sizes@.take(i as int), anchored@),
        decreases sizes@.len() - i,
    {
        anchored.push(cubecl::tune::anchor(sizes[i], None, None, None));
        i = i + 1;
    }
    assert(sizes@.take(i as int) =~= sizes@);
    anchored
}

/// A number of channels counts as aligned to a power of two, up to the cap, exactly where the power
/// divides it and the strides are aligned to it too.
pub proof fn law_shape_alignment_needs_both(channels: usize, stride_alignment: nat, m: nat)
    requires
        m <= 4,
    ensures
        m <= shape_alignment(channels, stride_alignment) <==> m <= stride_alignment && channels as nat
            % power2::pow2(m) == 0,
        shape_alignment(channels, stride_alignment) <= stride_alignment,
        shape_alignment(channels, stride_alignment) <= 4,
{
    align::law_twos_is_the_largest_power(channels as nat, align::MAX_AXIS_FACTOR as nat, m);
}

/// Where neighbouring channels are neighbours in memory, a power of two up to the cap is at most the
/// alignment of the tensor exactly where it divides, for every dimension but the last, the stride in
/// whole bytes; otherwise the tensor counts as unaligned.
pub proof fn law_channel_alignment_divides_the_strides(tensor: TensorModel, dim_c: int, m: nat)
    requires
        tensor.strides.len() > 0,
        m <= 10,
    ensures
        tensor.strides[dim_c] == 1 ==> (m <= channel_alignment(tensor, dim_c) <==> forall|i: int|
            0 <= i < tensor.strides.len() - 1 ==> ((#[trigger] tensor.strides[i]
                * tensor.dtype.bits()) / 8) % (power2::pow2(m) as int) == 0),
        tensor.strides[dim_c] != 1 ==> channel_alignment(tensor, dim_c) == 0,
        channel_alignment(tensor, dim_c) <= 10,
{
    let bits = tensor.dtype.bits();
    align::law_stride_alignment_divides_every_stride(tensor.strides, bits, m);
    align::law_outer_strides_are_counted_in_bytes(power2::pow2(m), tensor.strides, bits);
}

/// The view of a key holds what the key holds.
pub proof fn law_view_holds_the_key(key: ConvAutotuneKey)
    ensures
        key@.kernel_size == key.kernel_size@,
        key@.stride == key.stride@,
        key@.padding == key.padding@,
        key@.dilation == key.dilation@,
        key@.groups == key.groups,
        key@.in_channels == key.in_channels,
        key@.out_channels == key.out_channels,
        key@.shape == key.shape@,
        key@.batch_size == key.batch_size,
        key@.has_bias == key.has_bias,
        key@.dtype == key.dtype,
        key@.lhs_shape_align == key.lhs_shape_align,
        key@.lhs_stride_align == key.lhs_stride_align,
        key@.rhs_shape_align == key.rhs_shape_align,
        key@.rhs_stride_align == key.rhs_stride_align,
{
}

/// Sizes are anchored one by one, each handed over as it is, without bounds and with the default
/// base.
pub proof fn law_sizes_are_anchored_one_by_one(sizes: Seq<usize>, anchored: Seq<usize>, i: int)
    requires
        anchors(sizes, anchored),
        0 <= i < sizes.len(),
    ensures
        anchored.len() == sizes.len(),
        call_ensures(
            cubecl::tune::anchor,
            (sizes[i], None::<usize>, None::<usize>, None::<usize>),
            anchored[i],
        ),
        sizes[i] <= 1 ==> anchored[i] == sizes[i],
{
}

/// Where neighbouring channels are not neighbours in memory, neither the strides nor the channels
/// count as aligned.
pub proof fn law_scattered_channels_are_unaligned(tensor: TensorModel, dim_c: int, channels: usize)
    requires
        tensor.strides[dim_c] != 1,
    ensures
        channel_alignment(tensor, dim_c) == 0,
        shape_alignment(channels, channel_alignment(tensor, dim_c)) == 0,
{
}

} // verus!
