use conv_kernels::backward_data;
use conv_kernels::backward_weight;
use conv_kernels::candidate::{AcceleratedTileKind, DepthwiseStrategy, DepthwiseTiling, Routine};
use conv_kernels::dtype::DType;
use conv_kernels::forward;
use conv_kernels::options::ConvOptions;
use conv_kernels::tensor::TensorDesc;

fn desc(shape: &[usize]) -> TensorDesc {
    let mut strides = vec![1; shape.len()];
    for i in (0..shape.len() - 1).rev() {
        strides[i] = strides[i + 1] * shape[i + 1];
    }
    TensorDesc { shape: shape.to_vec(), strides, dtype: DType::F32 }
}

fn options() -> ConvOptions<1> {
    ConvOptions { stride: [1], padding: [(16, 16)], dilation: [4], groups: 1 }
}

/// The tunable that runs `conv_data_backward_fallback` is called `wgrad_fallback`, and the function
/// building its inputs is called `create_wgrad_input`.
#[test]
fn the_data_gradient_fallback_is_registered_under_a_wgrad_name() {
    let candidates = backward_data::tune::candidates();
    let fallback = candidates
        .iter()
        .find(|candidate| candidate.routine == Routine::ConvDataBackwardFallback);

    assert!(fallback.is_some(), "no data-gradient fallback is registered");
    assert!(
        fallback.unwrap().name == "wgrad_fallback"
            && candidates.iter().any(|candidate| candidate.name == "wgrad_fallback")
            && !candidates.iter().any(|candidate| candidate.name == "dgrad_fallback"),
        "the data gradient's fallback is no longer registered under a weight-gradient name",
    );

    let tuning = backward_data::tune::dgrad_autotune(
        desc(&[8, 176, 128]),
        desc(&[128, 5, 128]),
        vec![8, 160, 128],
        options(),
    );
    let inputs = backward_data::tune::create_wgrad_input(&tuning.key, &tuning.inputs);
    assert!(
        inputs.0.shape == tuning.inputs.0.shape
            && inputs.1.shape == tuning.inputs.1.shape
            && inputs.2 == tuning.inputs.2
            && inputs.3 == tuning.inputs.3,
        "the input builder does not hand on what it was given",
    );

    println!("\n=== what this tuner calls its own candidates ===");
    for candidate in &candidates {
        println!("  \"{}\",", candidate.name);
    }
    println!("  -> the first of these runs conv_data_backward_fallback");
}

/// The name is not merely wrong, it is taken: the weight gradient registers `wgrad_fallback` for
/// its own fallback. Two tuners therefore report the same winning name for entirely different
/// kernels.
#[test]
fn the_weight_gradient_tuner_registers_the_same_name_for_real() {
    let wgrad = backward_weight::tune::fallback();
    assert!(
        wgrad.name == "wgrad_fallback" && wgrad.routine == Routine::ConvWeightBackwardFallback,
        "the weight-gradient tuner no longer registers a `wgrad_fallback`, so the collision is gone",
    );

    let dgrad = backward_data::tune::candidates()[0];
    assert_eq!(dgrad.name, wgrad.name);
    assert_ne!(dgrad.routine, wgrad.routine);

    println!("\n=== the collision ===");
    println!("  backward_data    \"{}\" -> {:?}", dgrad.name, dgrad.routine);
    println!("  backward_weight  \"{}\" -> {:?}", wgrad.name, wgrad.routine);
    println!("  -> a log naming the winner cannot say which tuner won");
}

#[test]
fn data_gradient_candidates_stand_in_order() {
    let listed: Vec<(&str, Routine)> = backward_data::tune::candidates()
        .iter()
        .map(|candidate| (candidate.name, candidate.routine))
        .collect();
    assert_eq!(
        listed,
        vec![
            ("wgrad_fallback", Routine::ConvDataBackwardFallback),
            ("dgrad_im2col_1x1", Routine::DgradIm2col1x1),
            ("simple_sync_cmma", Routine::DgradGemmSimpleSync(AcceleratedTileKind::Cmma)),
            ("simple_sync_mma", Routine::DgradGemmSimpleSync(AcceleratedTileKind::Mma)),
            ("simple_async_cmma", Routine::DgradGemmSimpleAsync(AcceleratedTileKind::Cmma)),
            ("simple_async_mma", Routine::DgradGemmSimpleAsync(AcceleratedTileKind::Mma)),
            ("simple_tma_mma", Routine::DgradGemmSimpleTma(AcceleratedTileKind::Mma)),
        ]
    );
}

fn tiled(rows: usize, cols: usize, lines: usize) -> Routine {
    Routine::ConvDepthwise(DepthwiseStrategy::Fixed(DepthwiseTiling { rows, cols, chans: 1, lines }))
}

#[test]
fn convolution_candidates_stand_in_order() {
    let listed: Vec<(&str, Routine)> = forward::tune::candidates()
        .iter()
        .map(|candidate| (candidate.name, candidate.routine))
        .collect();
    assert_eq!(
        listed,
        vec![
            ("conv_direct", Routine::ConvDirect),
            ("conv_depthwise", Routine::ConvDepthwise(DepthwiseStrategy::Routine)),
            ("conv_depthwise_8x4_lined", tiled(8, 4, 2)),
            ("conv_depthwise_2x4_scalar", tiled(2, 4, 1)),
            ("conv_depthwise_8x2_lined", tiled(8, 2, 2)),
            ("conv_depthwise_4x2_scalar", tiled(4, 2, 1)),
            ("conv_im2col_1x1", Routine::ConvIm2col1x1),
            ("simple_sync_cmma", Routine::ConvGemmSimpleSync(AcceleratedTileKind::Cmma)),
            ("simple_sync_mma", Routine::ConvGemmSimpleSync(AcceleratedTileKind::Mma)),
            ("simple_async_cmma", Routine::ConvGemmSimpleAsync(AcceleratedTileKind::Cmma)),
            ("simple_async_mma", Routine::ConvGemmSimpleAsync(AcceleratedTileKind::Mma)),
            ("simple_tma_cmma", Routine::ConvGemmSimpleTma(AcceleratedTileKind::Cmma)),
            ("simple_tma_mma", Routine::ConvGemmSimpleTma(AcceleratedTileKind::Mma)),
        ]
    );
}

#[test]
fn candidate_names_are_distinct_within_a_tuner() {
    for list in [forward::tune::candidates(), backward_data::tune::candidates()] {
        for (i, candidate) in list.iter().enumerate() {
            for other in &list[i + 1..] {
                assert_ne!(candidate.name, other.name);
            }
        }
    }
}

#[test]
fn the_convolution_tuner_is_handed_its_own_inputs() {
    let tuning = forward::tune::conv_autotune(
        desc(&[8, 160, 128]),
        desc(&[128, 5, 128]),
        Some(desc(&[128])),
        options(),
    );
    assert_eq!(tuning.candidates.len(), 13);
    assert!(tuning.key.has_bias);
    let copy = forward::tune::create_conv_input(&tuning.key, &tuning.inputs);
    assert_eq!(copy.0.shape, vec![8, 160, 128]);
    assert_eq!(copy.0.strides, vec![20480, 128, 1]);
    assert_eq!(copy.1.shape, vec![128, 5, 128]);
    assert_eq!(copy.2.unwrap().shape, vec![128]);
    assert_eq!(copy.3, options());
    let without = (desc(&[8, 160, 128]), desc(&[128, 5, 128]), None, options());
    assert!(forward::tune::create_conv_input(&tuning.key, &without).2.is_none());
}
