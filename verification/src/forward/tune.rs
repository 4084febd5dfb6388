//! The tuner of the convolution.
use crate::candidate;
use crate::candidate::{
    AcceleratedTileKind, Candidate, DepthwiseStrategy, DepthwiseTiling, Routine, Tuning,
};
use crate::key;
use crate::key::{
    anchor_sizes, channel_shape_align, channel_stride_align, ConvAutotuneKey, KeyModel,
};
use crate::options::ConvOptions;
use crate::tensor;
use crate::tensor::{clone_optional, TensorDesc, TensorModel};
use vstd::prelude::*;
use vstd::slice::slice_to_vec;

verus! {

/// The key of a convolution of `input`, whose spatial sizes are anchored to `anchored`.
pub open spec fn forward_key<const N: usize>(
    input: TensorModel,
    weights: TensorModel,
    has_bias: bool,
    options: ConvOptions<N>,
    anchored: Seq<usize>,
) -> KeyModel {
    let dim_c = input.shape.len() - 1;
    let lhs_stride_align = key::channel_alignment(input, dim_c);
    let rhs_stride_align = key::channel_alignment(weights, dim_c);
    KeyModel {
        kernel_size: weights.shape.subrange(1, dim_c),
        stride: options.stride@,
        padding: options.padding@,
        dilation: options.dilation@,
        groups: options.groups,
        in_channels: input.shape[dim_c],
        out_channels: weights.shape[0],
        shape: anchored,
        batch_size: input.shape[0],
        has_bias,
        dtype: input.dtype,
        lhs_shape_align: key::shape_alignment(input.shape[dim_c], lhs_stride_align),
        lhs_stride_align,
        rhs_shape_align: key::shape_alignment(input.shape[dim_c], rhs_stride_align),
        rhs_stride_align,
    }
}

/// Whether a convolution of `input` with `weights` has a key: the input has a batch and a channel
/// dimension, the weights have as many, and the alignment of both can be computed.
pub open spec fn has_key(input: TensorModel, weights: TensorModel) -> bool {
    let dim_c = input.shape.len() - 1;
    &&& dim_c >= 1
    &&& weights.shape.len() >= dim_c
    &&& key::alignable(input, dim_c)
    &&& key::alignable(weights, dim_c)
}

/// The spatial sizes of a tensor with a batch dimension in front and channels behind.
pub open spec fn spatial(shape: Seq<usize>) -> Seq<usize> {
    shape.subrange(1, shape.len() - 1)
}

/// The key of a convolution whose spatial sizes have been anchored to `anchored`.
pub fn key_with_anchored<const N: usize>(
    inputs: &(TensorDesc, TensorDesc, Option<TensorDesc>, ConvOptions<N>),
    anchored: Vec<usize>,
) -> (key: ConvAutotuneKey)
    requires
        has_key(inputs.0@, inputs.1@),
    ensures
        key@ == forward_key(inputs.0@, inputs.1@, inputs.2 is Some, inputs.3, anchored@),
        key.shape@ == anchored@,
        key.kernel_size@ == inputs.1.shape@.subrange(1, inputs.0.shape@.len() - 1),
        key.stride@ == inputs.3.stride@,
        key.padding@ == inputs.3.padding@,
        key.dilation@ == inputs.3.dilation@,
        key.groups == inputs.3.groups,
        key.in_channels == inputs.0.shape@[inputs.0.shape@.len() - 1],
        key.out_channels == inputs.1.shape@[0],
        key.batch_size == inputs.0.shape@[0],
        key.has_bias <==> inputs.2 is Some,
        key.dtype == inputs.0.dtype,
        key.lhs_stride_align == key::channel_alignment(inputs.0@, inputs.0.shape@.len() - 1),
        key.lhs_shape_align == key::shape_alignment(key.in_channels, key.lhs_stride_align as nat),
        key.rhs_stride_align == key::channel_alignment(inputs.1@, inputs.0.shape@.len() - 1),
        key.rhs_shape_align == key::shape_alignment(key.in_channels, key.rhs_stride_align as nat),
{
    let (input, weights, bias, options) = inputs;
    let dim_c: usize = input.shape.len() - 1;
    let in_channels: usize = input.shape[dim_c];
    let lhs_stride_align: u8 = channel_stride_align(input, dim_c);
    let rhs_stride_align: u8 = channel_stride_align(weights, dim_c);
    ConvAutotuneKey {
        kernel_size: slice_to_vec(&weights.shape[1..dim_c]),
        stride: slice_to_vec(&options.stride),
        padding: slice_to_vec(&options.padding),
        dilation: slice_to_vec(&options.dilation),
        groups: options.groups,
        in_channels,
        out_channels: weights.shape[0],
        shape: anchored,
        batch_size: input.shape[0],
        has_bias: bias.is_some(),
        dtype: input.dtype,
        lhs_shape_align: channel_shape_align(in_channels, lhs_stride_align),
        lhs_stride_align,
        rhs_shape_align: channel_shape_align(in_channels, rhs_stride_align),
        rhs_stride_align,
    }
}

/// The key of a convolution. Its spatial sizes are anchored, to what depends on the configured
/// autotune level; everything else follows from the inputs.
pub fn create_key<const N: usize>(
    inputs: &(TensorDesc, TensorDesc, Option<TensorDesc>, ConvOptions<N>),
) -> (key: ConvAutotuneKey)
    requires
        has_key(inputs.0@, inputs.1@),
    ensures
        key@ == forward_key(inputs.0@, inputs.1@, inputs.2 is Some, inputs.3, key@.shape),
        key::anchors(spatial(inputs.0@.shape), key@.shape),
        key.shape@.len() == inputs.0.shape@.len() - 2,
        forall|i: int|
            0 <= i < key.shape@.len() ==> call_ensures(
                cubecl::tune::anchor,
                (inputs.0.shape@[i + 1], None::<usize>, None::<usize>, None::<usize>),
                #[trigger] key.shape@[i],
            ),
        key.kernel_size@ == inputs.1.shape@.subrange(1, inputs.0.shape@.len() - 1),
        key.stride@ == inputs.3.stride@,
        key.padding@ == inputs.3.padding@,
        key.dilation@ == inputs.3.dilation@,
        key.groups == inputs.3.groups,
        key.in_channels == inputs.0.shape@[inputs.0.shape@.len() - 1],
        key.out_channels == inputs.1.shape@[0],
        key.batch_size == inputs.0.shape@[0],
        key.has_bias <==> inputs.2 is Some,
        key.dtype == inputs.0.dtype,
        key.lhs_stride_align == key::channel_alignment(inputs.0@, inputs.0.shape@.len() - 1),
        key.lhs_shape_align == key::shape_alignment(key.in_channels, key.lhs_stride_align as nat),
        key.rhs_stride_align == key::channel_alignment(inputs.1@, inputs.0.shape@.len() - 1),
        key.rhs_shape_align == key::shape_alignment(key.in_channels, key.rhs_stride_align as nat),
{
    let dim_c: usize = inputs.0.shape.len() - 1;
    let anchored: Vec<usize> = anchor_sizes(&inputs.0.shape[1..dim_c]);
    assert forall|i: int| 0 <= i < anchored@.len() implies call_ensures(
        cubecl::tune::anchor,
        (inputs.0.shape@[i + 1], None::<usize>, None::<usize>, None::<usize>),
        #[trigger] anchored@[i],
    ) by {
        assert(spatial(inputs.0.shape@)[i] == inputs.0.shape@[i + 1]);
    }
    key_with_anchored(inputs, anchored)
}

/// The inputs that a candidate is tried on: the ones that the tuner was given, whatever the key.
pub fn create_conv_input<const N: usize>(
    _key: &ConvAutotuneKey,
    inputs: &(TensorDesc, TensorDesc, Option<TensorDesc>, ConvOptions<N>),
) -> (copy: (TensorDesc, TensorDesc, Option<TensorDesc>, ConvOptions<N>))
    ensures
        copy.0@ == inputs.0@,
        copy.1@ == inputs.1@,
        tensor::optional_model(copy.2) == tensor::optional_model(inputs.2),
        copy.3 == inputs.3,
        copy.0.shape@ == inputs.0.shape@,
        copy.0.strides@ == inputs.0.strides@,
        copy.0.dtype == inputs.0.dtype,
        copy.1.shape@ == inputs.1.shape@,
        copy.1.strides@ == inputs.1.strides@,
        copy.1.dtype == inputs.1.dtype,
        copy.2 is Some <==> inputs.2 is Some,
        inputs.2 is Some ==> {
            &&& copy.2->0.shape@ == inputs.2->0.shape@
            &&& copy.2->0.strides@ == inputs.2->0.strides@
            &&& copy.2->0.dtype == inputs.2->0.dtype
        },
{
    (inputs.0.clone(), inputs.1.clone(), clone_optional(&inputs.2), inputs.3)
}

/// A tiling of one channel per unit.
pub open spec fn tiling(rows: usize, cols: usize, lines: usize) -> Routine {
    Routine::ConvDepthwise(
        DepthwiseStrategy::Fixed(DepthwiseTiling { rows, cols, chans: 1, lines }),
    )
}

/// The candidates of the convolution, in the order in which the tuner tries them.
pub open spec fn forward_registrations() -> Seq<(Seq<char>, Routine)> {
    seq![
        ("conv_direct"@, Routine::ConvDirect),
        ("conv_depthwise"@, Routine::ConvDepthwise(DepthwiseStrategy::Routine)),
        ("conv_depthwise_8x4_lined"@, tiling(8, 4, 2)),
        ("conv_depthwise_2x4_scalar"@, tiling(2, 4, 1)),
        ("conv_depthwise_8x2_lined"@, tiling(8, 2, 2)),
        ("conv_depthwise_4x2_scalar"@, tiling(4, 2, 1)),
        ("conv_im2col_1x1"@, Routine::ConvIm2col1x1),
        ("simple_sync_cmma"@, Routine::ConvGemmSimpleSync(AcceleratedTileKind::Cmma)),
        ("simple_sync_mma"@, Routine::ConvGemmSimpleSync(AcceleratedTileKind::Mma)),
        ("simple_async_cmma"@, Routine::ConvGemmSimpleAsync(AcceleratedTileKind::Cmma)),
        ("simple_async_mma"@, Routine::ConvGemmSimpleAsync(AcceleratedTileKind::Mma)),
        ("simple_tma_cmma"@, Routine::ConvGemmSimpleTma(AcceleratedTileKind::Cmma)),
        ("simple_tma_mma"@, Routine::ConvGemmSimpleTma(AcceleratedTileKind::Mma)),
    ]
}

/// A depthwise candidate that runs under a tiling of one channel per unit.
fn depthwise(name: &'static str, rows: usize, cols: usize, lines: usize) -> (candidate: Candidate)
    ensures
        candidate@ == (name@, tiling(rows, cols, lines)),
{
    Candidate {
        name,
        routine: Routine::ConvDepthwise(
            DepthwiseStrategy::Fixed(DepthwiseTiling { rows, cols, chans: 1, lines }),
        ),
    }
}

/// The candidates of the convolution, in the order in which the tuner tries them.
///
/// The depthwise ones decline anything that is not one filter per channel, so each of these costs
/// a dense shape nothing but the setup call that rejects it. Several tilings rather than one
/// because which one wins swings with the window's depth and the block's width in a way the shape
/// does not predict. The routine's own default is the fallback when no tuning has run.
pub fn candidates() -> (list: Vec<Candidate>)
    ensures
        candidate::registrations(list@) == forward_registrations(),
{
    let list: Vec<Candidate> = vec![
        Candidate { name: "conv_direct", routine: Routine::ConvDirect },
        Candidate {
            name: "conv_depthwise",
            routine: Routine::ConvDepthwise(DepthwiseStrategy::Routine),
        },
        depthwise("conv_depthwise_8x4_lined", 8, 4, 2),
        depthwise("conv_depthwise_2x4_scalar", 2, 4, 1),
        depthwise("conv_depthwise_8x2_lined", 8, 2, 2),
        depthwise("conv_depthwise_4x2_scalar", 4, 2, 1),
        Candidate { name: "conv_im2col_1x1", routine: Routine::ConvIm2col1x1 },
        Candidate {
            name: "simple_sync_cmma",
            routine: Routine::ConvGemmSimpleSync(AcceleratedTileKind::Cmma),
        },
        Candidate {
            name: "simple_sync_mma",
            routine: Routine::ConvGemmSimpleSync(AcceleratedTileKind::Mma),
        },
        Candidate {
            name: "simple_async_cmma",
            routine: Routine::ConvGemmSimpleAsync(AcceleratedTileKind::Cmma),
        },
        Candidate {
            name: "simple_async_mma",
            routine: Routine::ConvGemmSimpleAsync(AcceleratedTileKind::Mma),
        },
        Candidate {
            name: "simple_tma_cmma",
            routine: Routine::ConvGemmSimpleTma(AcceleratedTileKind::Cmma),
        },
        Candidate {
            name: "simple_tma_mma",
            routine: Routine::ConvGemmSimpleTma(AcceleratedTileKind::Mma),
        },
    ];
    assert(candidate::registrations(list@) =~= forward_registrations());
    list
}

/// What a tuned convolution hands to the tuner.
pub fn conv_autotune<const N: usize>(
    input: TensorDesc,
    weight: TensorDesc,
    bias: Option<TensorDesc>,
    options: ConvOptions<N>,
) -> (tuning: Tuning<(TensorDesc, TensorDesc, Option<TensorDesc>, ConvOptions<N>)>)
    requires
        has_key(input@, weight@),
    ensures
        tuning.key@ == forward_key(input@, weight@, bias is Some, options, tuning.key@.shape),
        key::anchors(spatial(input@.shape), tuning.key@.shape),
        candidate::registrations(tuning.candidates@) == forward_registrations(),
        tuning.key.shape@.len() == input.shape@.len() - 2,
        forall|i: int|
            0 <= i < tuning.key.shape@.len() ==> call_ensures(
                cubecl::tune::anchor,
                (input.shape@[i + 1], None::<usize>, None::<usize>, None::<usize>),
                #[trigger] tuning.key.shape@[i],
            ),
        tuning.candidates@.len() == forward_registrations().len(),
        forall|i: int|
            0 <= i < tuning.candidates@.len() ==> {
                &&& (#[trigger] tuning.candidates@[i]).name@ == forward_registrations()[i].0
                &&& tuning.candidates@[i].routine == forward_registrations()[i].1
            },
        tuning.inputs == (input, weight, bias, options),
{
    let inputs = (input, weight, bias, options);
    let tuning = Tuning { key: create_key(&inputs), candidates: candidates(), inputs };
    proof {
        assert forall|i: int| 0 <= i < tuning.candidates@.len() implies {
            &&& (#[trigger] tuning.candidates@[i]).name@ == forward_registrations()[i].0
            &&& tuning.candidates@[i].routine == forward_registrations()[i].1
        } by {
            assert(candidate::registrations(tuning.candidates@)[i] == tuning.candidates@[i]@);
        }
    }
    tuning
}

/// The names of the convolution's candidates tell them apart.
pub proof fn law_names_are_distinct(i: int, j: int)
    requires
        0 <= i < j < forward_registrations().len(),
    ensures
        forward_registrations()[i].0 != forward_registrations()[j].0,
{
    reveal_strlit("conv_direct");
    reveal_strlit("conv_depthwise");
    reveal_strlit("conv_depthwise_8x4_lined");
    reveal_strlit("conv_depthwise_2x4_scalar");
    reveal_strlit("conv_depthwise_8x2_lined");
    reveal_strlit("conv_depthwise_4x2_scalar");
    reveal_strlit("conv_im2col_1x1");
    reveal_strlit("simple_sync_cmma");
    reveal_strlit("simple_sync_mma");
    reveal_strlit("simple_async_cmma");
    reveal_strlit("simple_async_mma");
    reveal_strlit("simple_tma_cmma");
    reveal_strlit("simple_tma_mma");
    let a = forward_registrations()[i].0;
    let b = forward_registrations()[j].0;
    if a.len() == b.len() {
        assert(a[0] != b[0] || a[7] != b[7] || a[15] != b[15] || a[17] != b[17]);
    }
}

/// The key of a convolution names the convolution: its options as they are, its kernel's sizes, its
/// channels and batch, whether it has a bias, its element type, and how well its operands are
/// aligned, the input's channels against the strides of both.
pub proof fn law_key_names_the_convolution<const N: usize>(
    input: TensorModel,
    weights: TensorModel,
    has_bias: bool,
    options: ConvOptions<N>,
    anchored: Seq<usize>,
)
    requires
        input.shape.len() >= 2,
        weights.shape.len() >= input.shape.len() - 1,
    ensures
        ({
            let key = forward_key(input, weights, has_bias, options, anchored);
            let dim_c = input.shape.len() - 1;
            &&& key.stride == options.stride@
            &&& key.padding == options.padding@
            &&& key.dilation == options.dilation@
            &&& key.groups == options.groups
            &&& key.kernel_size.len() == dim_c - 1
            &&& forall|i: int| 1 <= i < dim_c ==> key.kernel_size[i - 1] == #[trigger] weights.shape[i]
            &&& key.shape == anchored
            &&& key.batch_size == input.shape[0]
            &&& key.in_channels == input.shape[dim_c]
            &&& key.out_channels == weights.shape[0]
            &&& key.has_bias == has_bias
            &&& key.dtype == input.dtype
            &&& key.lhs_stride_align == key::channel_alignment(input, dim_c)
            &&& key.rhs_stride_align == key::channel_alignment(weights, dim_c)
            &&& key.lhs_shape_align == key::shape_alignment(
                input.shape[dim_c],
                key::channel_alignment(input, dim_c),
            )
            &&& key.rhs_shape_align == key::shape_alignment(
                input.shape[dim_c],
                key::channel_alignment(weights, dim_c),
            )
        }),
{
}

/// Keys tell convolutions apart: two convolutions with one key agree in stride, padding, dilation,
/// groups, kernel, channels, batch, element type and in whether they have a bias, so that none of
/// these can differ between convolutions that share a tuning decision.
pub proof fn law_one_key_means_one_convolution<const N: usize>(
    input: TensorModel,
    weights: TensorModel,
    has_bias: bool,
    options: ConvOptions<N>,
    anchored: Seq<usize>,
    other_input: TensorModel,
    other_weights: TensorModel,
    other_has_bias: bool,
    other_options: ConvOptions<N>,
    other_anchored: Seq<usize>,
)
    requires
        input.shape.len() >= 2,
        weights.shape.len() >= input.shape.len() - 1,
        other_input.shape.len() >= 2,
        other_weights.shape.len() >= other_input.shape.len() - 1,
        forward_key(input, weights, has_bias, options, anchored) == forward_key(
            other_input,
            other_weights,
            other_has_bias,
            other_options,
            other_anchored,
        ),
    ensures
        options.stride@ == other_options.stride@,
        options.padding@ == other_options.padding@,
        options.dilation@ == other_options.dilation@,
        options.groups == other_options.groups,
        input.shape.len() == other_input.shape.len(),
        input.shape[0] == other_input.shape[0],
        input.shape.last() == other_input.shape.last(),
        forall|i: int|
            0 <= i < input.shape.len() - 1 ==> #[trigger] weights.shape[i] == other_weights.shape[i],
        has_bias == other_has_bias,
        input.dtype == other_input.dtype,
        anchored == other_anchored,
{
    law_key_names_the_convolution(input, weights, has_bias, options, anchored);
    law_key_names_the_convolution(
        other_input,
        other_weights,
        other_has_bias,
        other_options,
        other_anchored,
    );
    assert forall|i: int| 0 <= i < input.shape.len() - 1 implies #[trigger] weights.shape[i]
        == other_weights.shape[i] by {
        if i >= 1 {
            let kernel = forward_key(input, weights, has_bias, options, anchored).kernel_size;
            assert(kernel[i - 1] == weights.shape[i]);
            assert(kernel[i - 1] == other_weights.shape[i]);
        }
    }
}

} // verus!
