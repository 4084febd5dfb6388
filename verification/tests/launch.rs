use conv_kernels::candidate::AcceleratedTileKind;
use conv_kernels::dtype::DType;
use conv_kernels::error::ConvSetupError;
use conv_kernels::forward::implicit_gemm::launch::{
    conv_gemm_simple_async, conv_gemm_simple_sync, conv_gemm_simple_tma,
    launch_convolution_forward, ConvAlgorithm, ForwardLaunch, GlobalDtypes, Strategy,
};
use conv_kernels::options::ConvOptions;
use conv_kernels::tensor::TensorDesc;

fn desc(shape: &[usize], dtype: DType) -> TensorDesc {
    let mut strides = vec![1; shape.len()];
    for i in (0..shape.len() - 1).rev() {
        strides[i] = strides[i + 1] * shape[i + 1];
    }
    TensorDesc { shape: shape.to_vec(), strides, dtype }
}

fn options<const N: usize>(
    stride: [usize; N],
    padding: [(usize, usize); N],
    dilation: [usize; N],
) -> ConvOptions<N> {
    ConvOptions { stride, padding, dilation, groups: 1 }
}

fn accept<const N: usize>(launch: Result<ForwardLaunch<N>, ConvSetupError>) -> ForwardLaunch<N> {
    match launch {
        Ok(launch) => launch,
        Err(error) => panic!("declined: {error:?}"),
    }
}

fn inferred(strategy: &Strategy) -> (ConvAlgorithm, AcceleratedTileKind) {
    match strategy {
        Strategy::Inferred { algorithm, tile_kind } => (*algorithm, *tile_kind),
        Strategy::Forced { .. } => panic!("the tiling is forced"),
    }
}

type Launch = fn(
    TensorDesc,
    TensorDesc,
    Option<TensorDesc>,
    ConvOptions<1>,
    AcceleratedTileKind,
) -> Result<ForwardLaunch<1>, ConvSetupError>;

#[test]
fn each_launcher_picks_its_algorithm() {
    let dense = options([1], [(16, 16)], [4]);
    let cases: [(Launch, AcceleratedTileKind, ConvAlgorithm); 6] = [
        (conv_gemm_simple_sync, AcceleratedTileKind::Cmma, ConvAlgorithm::SimpleSyncCyclic),
        (conv_gemm_simple_sync, AcceleratedTileKind::Mma, ConvAlgorithm::SimpleSyncStrided),
        (conv_gemm_simple_async, AcceleratedTileKind::Cmma, ConvAlgorithm::SimpleAsyncCyclic),
        (conv_gemm_simple_async, AcceleratedTileKind::Mma, ConvAlgorithm::SimpleAsyncStrided),
        (conv_gemm_simple_tma, AcceleratedTileKind::Cmma, ConvAlgorithm::SimpleAsyncTma),
        (conv_gemm_simple_tma, AcceleratedTileKind::Mma, ConvAlgorithm::SimpleAsyncTma),
    ];
    for (launcher, kind, algorithm) in cases {
        let launch = accept(launcher(
            desc(&[8, 160, 128], DType::F32),
            desc(&[128, 5, 128], DType::F32),
            Some(desc(&[128], DType::F32)),
            dense,
            kind,
        ));
        assert_eq!(inferred(&launch.strategy), (algorithm, kind));
        assert_eq!(launch.out_shape, vec![8, 176, 128]);
        assert_eq!(launch.bias.unwrap().shape, vec![128]);
    }
}

#[test]
fn every_launcher_declines_a_grouped_convolution() {
    let launchers: [Launch; 3] =
        [conv_gemm_simple_sync, conv_gemm_simple_async, conv_gemm_simple_tma];
    for groups in [0, 2, 128] {
        for launcher in launchers {
            for kind in [AcceleratedTileKind::Cmma, AcceleratedTileKind::Mma] {
                let mut grouped = options([1], [(16, 16)], [4]);
                grouped.groups = groups;
                let launch = launcher(
                    desc(&[8, 160, 128], DType::F32),
                    desc(&[128, 5, 1], DType::F32),
                    None,
                    grouped,
                    kind,
                );
                assert_eq!(launch.err(), Some(ConvSetupError::Groups(groups)));
            }
        }
    }
}

#[test]
fn groups_are_declined_before_any_shape_is_read() {
    let empty = || TensorDesc { shape: vec![], strides: vec![], dtype: DType::F32 };
    let mut grouped = options([0], [(0, 0)], [0]);
    grouped.groups = 3;
    let launch = launch_convolution_forward(
        Strategy::Inferred {
            algorithm: ConvAlgorithm::SpecializedTma,
            tile_kind: AcceleratedTileKind::Mma,
        },
        empty(),
        empty(),
        None,
        grouped,
    );
    assert_eq!(launch.err(), Some(ConvSetupError::Groups(3)));
}

#[test]
fn the_output_takes_the_input_element_type() {
    let launch = accept(conv_gemm_simple_sync(
        desc(&[2, 9, 4], DType::BF16),
        desc(&[6, 3, 4], DType::F32),
        None,
        options([2], [(1, 1)], [1]),
        AcceleratedTileKind::Cmma,
    ));
    assert_eq!(
        launch.dtypes,
        GlobalDtypes { lhs: DType::BF16, rhs: DType::F32, out: DType::BF16 }
    );
    assert_eq!(launch.input.shape, vec![2, 9, 4]);
    assert_eq!(launch.weight.shape, vec![6, 3, 4]);
    assert!(launch.bias.is_none());
    // (9 + 2 - 2 - 1) / 2 + 1
    assert_eq!(launch.out_shape, vec![2, 5, 6]);
}

#[test]
fn only_the_padding_in_front_reaches_the_kernel() {
    let launch = accept(conv_gemm_simple_tma(
        desc(&[1, 3, 4, 5, 2], DType::F32),
        desc(&[7, 2, 3, 1, 2], DType::F32),
        None,
        options([1, 2, 3], [(0, 1), (2, 0), (4, 5)], [1, 2, 1]),
        AcceleratedTileKind::Mma,
    ));
    assert_eq!(launch.args.stride, [1, 2, 3]);
    assert_eq!(launch.args.padding, [0, 2, 4]);
    assert_eq!(launch.args.dilation, [1, 2, 1]);
    // (3 + 1 - 1 - 1) / 1 + 1, (4 + 2 - 4 - 1) / 2 + 1, (5 + 9 - 0 - 1) / 3 + 1
    assert_eq!(launch.out_shape, vec![1, 3, 1, 5, 7]);
}

#[test]
fn padding_counts_alike_on_either_side() {
    let shape = |padding: (usize, usize)| {
        accept(conv_gemm_simple_sync(
            desc(&[1, 3, 1], DType::F32),
            desc(&[1, 2, 1], DType::F32),
            None,
            options([1], [padding], [1]),
            AcceleratedTileKind::Cmma,
        ))
        .out_shape
    };
    assert_eq!(shape((0, 0)), vec![1, 2, 1]);
    assert_eq!(shape((0, 2)), vec![1, 4, 1]);
    assert_eq!(shape((1, 1)), vec![1, 4, 1]);
    assert_eq!(shape((2, 0)), vec![1, 4, 1]);
}

#[test]
fn the_output_size_counts_windows() {
    for kernel in 1..4usize {
        for stride in 1..4usize {
            for dilation in 1..4usize {
                for padding in 0..3usize {
                    let (size_in, total) = (9usize, 9 + 2 * padding);
                    let reach = dilation * (kernel - 1);
                    let windows = (0..total).filter(|w| w * stride + reach < total).count();
                    let launch = accept(conv_gemm_simple_sync(
                        desc(&[1, size_in, 1], DType::F32),
                        desc(&[1, kernel, 1], DType::F32),
                        None,
                        options([stride], [(padding, padding)], [dilation]),
                        AcceleratedTileKind::Cmma,
                    ));
                    assert_eq!(launch.out_shape, vec![1, windows, 1]);
                }
            }
        }
    }
}
