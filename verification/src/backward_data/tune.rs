//! The tuner of the data gradient.
use crate::backward_weight;
use crate::candidate;
use crate::candidate::{AcceleratedTileKind, Candidate, Routine, Tuning};
use crate::key;
use crate::key::{
    anchor_sizes, channel_shape_align, channel_stride_align, ConvAutotuneKey, KeyModel,
};
use crate::options::ConvOptions;
use crate::tensor::{TensorDesc, TensorModel};
use vstd::prelude::*;
use vstd::slice::slice_to_vec;

verus! {

/// The key of a data gradient with respect to an input of shape `input_shape`, whose spatial sizes
/// are anchored to `anchored`.
pub open spec fn backward_data_key<const N: usize>(
    out_grad: TensorModel,
    weights: TensorModel,
    input_shape: Seq<usize>,
    options: ConvOptions<N>,
    anchored: Seq<usize>,
) -> KeyModel {
    let dim_c = out_grad.shape.len() - 1;
    let lhs_stride_align = key::channel_alignment(out_grad, dim_c);
    let rhs_stride_align = key::channel_alignment(weights, dim_c);
    KeyModel {
        kernel_size: weights.shape.subrange(1, dim_c),
        stride: options.stride@,
        padding: options.padding@,
        dilation: options.dilation@,
        groups: options.groups,
        in_channels: input_shape[dim_c],
        out_channels: out_grad.shape[dim_c],
        shape: anchored,
        batch_size: out_grad.shape[0],
        has_bias: false,
        dtype: out_grad.dtype,
        lhs_shape_align: key::shape_alignment(out_grad.shape[dim_c], lhs_stride_align),
        lhs_stride_align,
        rhs_shape_align: key::shape_alignment(input_shape[dim_c], rhs_stride_align),
        rhs_stride_align,
    }
}

/// Whether a data gradient has a key: the output gradient has a batch and a channel dimension, the
/// weights and the input have as many, and the alignment of both operands can be computed.
pub open spec fn has_key(out_grad: TensorModel, weights: TensorModel, input_shape: Seq<usize>) -> bool {
    let dim_c = out_grad.shape.len() - 1;
    &&& dim_c >= 1
    &&& weights.shape.len() >= dim_c
    &&& input_shape.len() > dim_c
    &&& key::alignable(out_grad, dim_c)
    &&& key::alignable(weights, dim_c)
}

/// The key of a data gradient whose input's spatial sizes have been anchored to `anchored`.
pub fn key_with_anchored<const N: usize>(
    inputs: &(TensorDesc, TensorDesc, Vec<usize>, ConvOptions<N>),
    anchored: Vec<usize>,
) -> (key: ConvAutotuneKey)
    requires
        has_key(inputs.0@, inputs.1@, inputs.2@),
    ensures
        key@ == backward_data_key(inputs.0@, inputs.1@, inputs.2@, inputs.3, anchored@),
        key.shape@ == anchored@,
        key.kernel_size@ == inputs.1.shape@.subrange(1, inputs.0.shape@.len() - 1),
        key.stride@ == inputs.3.stride@,
        key.padding@ == inputs.3.padding@,
        key.dilation@ == inputs.3.dilation@,
        key.groups == inputs.3.groups,
        key.in_channels == inputs.2@[inputs.0.shape@.len() - 1],
        key.out_channels == inputs.0.shape@[inputs.0.shape@.len() - 1],
        key.batch_size == inputs.0.shape@[0],
        !key.has_bias,
        key.dtype == inputs.0.dtype,
        key.lhs_stride_align == key::channel_alignment(inputs.0@, inputs.0.shape@.len() - 1),
        key.lhs_shape_align == key::shape_alignment(key.out_channels, key.lhs_stride_align as nat),
        key.rhs_stride_align == key::channel_alignment(inputs.1@, inputs.0.shape@.len() - 1),
        key.rhs_shape_align == key::shape_alignment(key.in_channels, key.rhs_stride_align as nat),
{
    let (out_grad, weights, input_shape, options) = inputs;
    let dim_c: usize = out_grad.shape.len() - 1;
    let in_channels: usize = input_shape[dim_c];
    let out_channels: usize = out_grad.shape[dim_c];
    let lhs_stride_align: u8 = channel_stride_align(out_grad, dim_c);
    let rhs_stride_align: u8 = channel_stride_align(weights, dim_c);
    ConvAutotuneKey {
        kernel_size: slice_to_vec(&weights.shape[1..dim_c]),
        stride: slice_to_vec(&options.stride),
        padding: slice_to_vec(&options.padding),
        dilation: slice_to_vec(&options.dilation),
        groups: options.groups,
        in_channels,
        out_channels,
        shape: anchored,
        batch_size: out_grad.shape[0],
        has_bias: false,
        dtype: out_grad.dtype,
        lhs_shape_align: channel_shape_align(out_channels, lhs_stride_align),
        lhs_stride_align,
        rhs_shape_align: channel_shape_align(in_channels, rhs_stride_align),
        rhs_stride_align,
    }
}

/// The key of a data gradient. Its input's spatial sizes are anchored, to what depends on the
/// configured autotune level; everything else follows from the inputs.
pub fn create_key<const N: usize>(
    inputs: &(TensorDesc, TensorDesc, Vec<usize>, ConvOptions<N>),
) -> (key: ConvAutotuneKey)
    requires
        has_key(inputs.0@, inputs.1@, inputs.2@),
    ensures
        key@ == backward_data_key(inputs.0@, inputs.1@, inputs.2@, inputs.3, key@.shape),
        key::anchors(inputs.2@.subrange(1, inputs.0@.shape.len() - 1), key@.shape),
        key.shape@.len() == inputs.0.shape@.len() - 2,
        forall|i: int|
            0 <= i < key.shape@.len() ==> call_ensures(
                cubecl::tune::anchor,
                (inputs.2@[i + 1], None::<usize>, None::<usize>, None::<usize>),
                #[trigger] key.shape@[i],
            ),
        key.kernel_size@ == inputs.1.shape@.subrange(1, inputs.0.shape@.len() - 1),
        key.stride@ == inputs.3.stride@,
        key.padding@ == inputs.3.padding@,
        key.dilation@ == inputs.3.dilation@,
        key.groups == inputs.3.groups,
        key.in_channels == inputs.2@[inputs.0.shape@.len() - 1],
        key.out_channels == inputs.0.shape@[inputs.0.shape@.len() - 1],
        key.batch_size == inputs.0.shape@[0],
        !key.has_bias,
        key.dtype == inputs.0.dtype,
        key.lhs_stride_align == key::channel_alignment(inputs.0@, inputs.0.shape@.len() - 1),
        key.lhs_shape_align == key::shape_alignment(key.out_channels, key.lhs_stride_align as nat),
        key.rhs_stride_align == key::channel_alignment(inputs.1@, inputs.0.shape@.len() - 1),
        key.rhs_shape_align == key::shape_alignment(key.in_channels, key.rhs_stride_align as nat),
{
    let dim_c: usize = inputs.0.shape.len() - 1;
    let anchored: Vec<usize> = anchor_sizes(&inputs.2[1..dim_c]);
    assert forall|i: int| 0 <= i < anchored@.len() implies call_ensures(
        cubecl::tune::anchor,
        (inputs.2@[i + 1], None::<usize>, None::<usize>, None::<usize>),
        #[trigger] anchored@[i],
    ) by {
        assert(inputs.2@.subrange(1, dim_c as int)[i] == inputs.2@[i + 1]);
    }
    key_with_anchored(inputs, anchored)
}

/// The inputs that a candidate is tried on: the ones that the tuner was given, whatever the key.
pub fn create_wgrad_input<const N: usize>(
    _key: &ConvAutotuneKey,
    inputs: &(TensorDesc, TensorDesc, Vec<usize>, ConvOptions<N>),
) -> (copy: (TensorDesc, TensorDesc, Vec<usize>, ConvOptions<N>))
    ensures
        copy.0@ == inputs.0@,
        copy.1@ == inputs.1@,
        copy.2@ == inputs.2@,
        copy.3 == inputs.3,
        copy.0.shape@ == inputs.0.shape@,
        copy.0.strides@ == inputs.0.strides@,
        copy.0.dtype == inputs.0.dtype,
        copy.1.shape@ == inputs.1.shape@,
        copy.1.strides@ == inputs.1.strides@,
        copy.1.dtype == inputs.1.dtype,
{
    (inputs.0.clone(), inputs.1.clone(), inputs.2.clone(), inputs.3)
}

/// The candidates of the data gradient, in the order in which the tuner tries them.
pub open spec fn backward_data_registrations() -> Seq<(Seq<char>, Routine)> {
    seq![
        ("wgrad_fallback"@, Routine::ConvDataBackwardFallback),
        ("dgrad_im2col_1x1"@, Routine::DgradIm2col1x1),
        ("simple_sync_cmma"@, Routine::DgradGemmSimpleSync(AcceleratedTileKind::Cmma)),
        ("simple_sync_mma"@, Routine::DgradGemmSimpleSync(AcceleratedTileKind::Mma)),
        ("simple_async_cmma"@, Routine::DgradGemmSimpleAsync(AcceleratedTileKind::Cmma)),
        ("simple_async_mma"@, Routine::DgradGemmSimpleAsync(AcceleratedTileKind::Mma)),
        ("simple_tma_mma"@, Routine::DgradGemmSimpleTma(AcceleratedTileKind::Mma)),
    ]
}

/// The candidates of the data gradient, in the order in which the tuner tries them.
///
/// The pointwise one declines every other shape. It earns its place because a device with no
/// accelerated matmul for the data type declines every candidate below it, leaving the fallback
/// unopposed. TMA always declines for now, and stands here to be used as soon as it works; there is
/// no CMMA for it because swizzling will be mandatory for good performance.
pub fn candidates() -> (list: Vec<Candidate>)
    ensures
        candidate::registrations(list@) == backward_data_registrations(),
{
    let list: Vec<Candidate> = vec![
        Candidate { name: "wgrad_fallback", routine: Routine::ConvDataBackwardFallback },
        Candidate { name: "dgrad_im2col_1x1", routine: Routine::DgradIm2col1x1 },
        Candidate {
            name: "simple_sync_cmma",
            routine: Routine::DgradGemmSimpleSync(AcceleratedTileKind::Cmma),
        },
        Candidate {
            name: "simple_sync_mma",
            routine: Routine::DgradGemmSimpleSync(AcceleratedTileKind::Mma),
        },
        Candidate {
            name: "simple_async_cmma",
            routine: Routine::DgradGemmSimpleAsync(AcceleratedTileKind::Cmma),
        },
        Candidate {
            name: "simple_async_mma",
            routine: Routine::DgradGemmSimpleAsync(AcceleratedTileKind::Mma),
        },
        Candidate {
            name: "simple_tma_mma",
            routine: Routine::DgradGemmSimpleTma(AcceleratedTileKind::Mma),
        },
    ];
    assert(candidate::registrations(list@) =~= backward_data_registrations());
    list
}

/// What a tuned data gradient hands to the tuner.
pub fn dgrad_autotune<const N: usize>(
    out_grad: TensorDesc,
    weights: TensorDesc,
    input_shape: Vec<usize>,
    options: ConvOptions<N>,
) -> (tuning: Tuning<(TensorDesc, TensorDesc, Vec<usize>, ConvOptions<N>)>)
    requires
        has_key(out_grad@, weights@, input_shape@),
    ensures
        tuning.key@ == backward_data_key(
            out_grad@,
            weights@,
            input_shape@,
            options,
            tuning.key@.shape,
        ),
        key::anchors(input_shape@.subrange(1, out_grad@.shape.len() - 1), tuning.key@.shape),
        candidate::registrations(tuning.candidates@) == backward_data_registrations(),
        tuning.key.shape@.len() == out_grad.shape@.len() - 2,
        forall|i: int|
            0 <= i < tuning.key.shape@.len() ==> call_ensures(
                cubecl::tune::anchor,
                (input_shape@[i + 1], None::<usize>, None::<usize>, None::<usize>),
                #[trigger] tuning.key.shape@[i],
            ),
        tuning.candidates@.len() == backward_data_registrations().len(),
        forall|i: int|
            0 <= i < tuning.candidates@.len() ==> {
                &&& (#[trigger] tuning.candidates@[i]).name@ == backward_data_registrations()[i].0
                &&& tuning.candidates@[i].routine == backward_data_registrations()[i].1
            },
        tuning.inputs == (out_grad, weights, input_shape, options),
{
    let inputs = (out_grad, weights, input_shape, options);
    let tuning = Tuning { key: create_key(&inputs), candidates: candidates(), inputs };
    proof {
        assert forall|i: int| 0 <= i < tuning.candidates@.len() implies {
            &&& (#[trigger] tuning.candidates@[i]).name@ == backward_data_registrations()[i].0
            &&& tuning.candidates@[i].routine == backward_data_registrations()[i].1
        } by {
            assert(candidate::registrations(tuning.candidates@)[i] == tuning.candidates@[i]@);
        }
    }
    tuning
}

/// The names of the data gradient's candidates tell them apart.
pub proof fn law_names_are_distinct(i: int, j: int)
    requires
        0 <= i < j < backward_data_registrations().len(),
    ensures
        backward_data_registrations()[i].0 != backward_data_registrations()[j].0,
{
    reveal_strlit("wgrad_fallback");
    reveal_strlit("dgrad_im2col_1x1");
    reveal_strlit("simple_sync_cmma");
    reveal_strlit("simple_sync_mma");
    reveal_strlit("simple_async_cmma");
    reveal_strlit("simple_async_mma");
    reveal_strlit("simple_tma_mma");
    let a = backward_data_registrations()[i].0;
    let b = backward_data_registrations()[j].0;
    if a.len() == b.len() {
        assert(a[0] != b[0] || a[7] != b[7] || a[8] != b[8] || a[12] != b[12] || a[13] != b[13]);
    }
}

/// The data gradient's fallback bears the name of the weight gradient's, though it runs something
/// else, and no candidate of the data gradient bears a fallback name of its own.
pub proof fn law_fallback_name_is_the_weight_gradients(i: int)
    requires
        0 <= i < backward_data_registrations().len(),
    ensures
        backward_data_registrations()[0].1 == Routine::ConvDataBackwardFallback,
        backward_data_registrations()[0].0 == backward_weight::tune::fallback_registration().0,
        backward_data_registrations()[0].1 != backward_weight::tune::fallback_registration().1,
        backward_data_registrations()[i].0 != "dgrad_fallback"@,
{
    reveal_strlit("dgrad_fallback");
    reveal_strlit("wgrad_fallback");
    reveal_strlit("dgrad_im2col_1x1");
    reveal_strlit("simple_sync_cmma");
    reveal_strlit("simple_sync_mma");
    reveal_strlit("simple_async_cmma");
    reveal_strlit("simple_async_mma");
    reveal_strlit("simple_tma_mma");
    let a = backward_data_registrations()[i].0;
    if a.len() == "dgrad_fallback"@.len() {
        assert(a[0] != "dgrad_fallback"@[0]);
    }
}

/// The key of a data gradient names the convolution that it belongs to: the options as they are, the
/// kernel's sizes, the channels of the input and of the output gradient, the batch and the element
/// type, never a bias, and how well the operands are aligned: the gradient's channels against its
/// own strides, the input's against those of the weights.
pub proof fn law_key_names_the_gradient<const N: usize>(
    out_grad: TensorModel,
    weights: TensorModel,
    input_shape: Seq<usize>,
    options: ConvOptions<N>,
    anchored: Seq<usize>,
)
    requires
        out_grad.shape.len() >= 2,
        weights.shape.len() >= out_grad.shape.len() - 1,
        input_shape.len() >= out_grad.shape.len(),
    ensures
        ({
            let key = backward_data_key(out_grad, weights, input_shape, options, anchored);
            let dim_c = out_grad.shape.len() - 1;
            &&& key.stride == options.stride@
            &&& key.padding == options.padding@
            &&& key.dilation == options.dilation@
            &&& key.groups == options.groups
            &&& key.kernel_size.len() == dim_c - 1
            &&& forall|i: int| 1 <= i < dim_c ==> key.kernel_size[i - 1] == #[trigger] weights.shape[i]
            &&& key.shape == anchored
            &&& key.batch_size == out_grad.shape[0]
            &&& key.in_channels == input_shape[dim_c]
            &&& key.out_channels == out_grad.shape[dim_c]
            &&& !key.has_bias
            &&& key.dtype == out_grad.dtype
            &&& key.lhs_stride_align == key::channel_alignment(out_grad, dim_c)
            &&& key.rhs_stride_align == key::channel_alignment(weights, dim_c)
            &&& key.lhs_shape_align == key::shape_alignment(
                out_grad.shape[dim_c],
                key::channel_alignment(out_grad, dim_c),
            )
            &&& key.rhs_shape_align == key::shape_alignment(
                input_shape[dim_c],
                key::channel_alignment(weights, dim_c),
            )
        }),
{
}

/// Keys tell data gradients apart: two data gradients with one key agree in stride, padding,
/// dilation, groups, kernel, channels, batch and element type, so that none of these can differ
/// between gradients that share a tuning decision.
pub proof fn law_one_key_means_one_gradient<const N: usize>(
    out_grad: TensorModel,
    weights: TensorModel,
    input_shape: Seq<usize>,
    options: ConvOptions<N>,
    anchored: Seq<usize>,
    other_out_grad: TensorModel,
    other_weights: TensorModel,
    other_input_shape: Seq<usize>,
    other_options: ConvOptions<N>,
    other_anchored: Seq<usize>,
)
    requires
        out_grad.shape.len() >= 2,
        weights.shape.len() >= out_grad.shape.len() - 1,
        input_shape.len() >= out_grad.shape.len(),
        other_out_grad.shape.len() >= 2,
        other_weights.shape.len() >= other_out_grad.shape.len() - 1,
        other_input_shape.len() >= other_out_grad.shape.len(),
        backward_data_key(out_grad, weights, input_shape, options, anchored) == backward_data_key(
            other_out_grad,
            other_weights,
            other_input_shape,
            other_options,
            other_anchored,
        ),
    ensures
        options.stride@ == other_options.stride@,
        options.padding@ == other_options.padding@,
        options.dilation@ == other_options.dilation@,
        options.groups == other_options.groups,
        out_grad.shape.len() == other_out_grad.shape.len(),
        out_grad.shape[0] == other_out_grad.shape[0],
        out_grad.shape.last() == other_out_grad.shape.last(),
        input_shape[out_grad.shape.len() - 1] == other_input_shape[out_grad.shape.len() - 1],
        forall|i: int|
            1 <= i < out_grad.shape.len() - 1 ==> #[trigger] weights.shape[i]
                == other_weights.shape[i],
        out_grad.dtype == other_out_grad.dtype,
        anchored == other_anchored,
{
    law_key_names_the_gradient(out_grad, weights, input_shape, options, anchored);
    law_key_names_the_gradient(
        other_out_grad,
        other_weights,
        other_input_shape,
        other_options,
        other_anchored,
    );
    assert forall|i: int| 1 <= i < out_grad.shape.len() - 1 implies #[trigger] weights.shape[i]
        == other_weights.shape[i] by {
        let kernel = backward_data_key(
            out_grad,
            weights,
            input_shape,
            options,
            anchored,
        ).kernel_size;
        assert(kernel[i - 1] == weights.shape[i]);
        assert(kernel[i - 1] == other_weights.shape[i]);
    }
}

} // verus!
