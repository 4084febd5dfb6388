//! What an accelerated convolution is launched with.
use crate::candidate::AcceleratedTileKind;
use crate::dtype::DType;
use crate::error::ConvSetupError;
use crate::options::ConvOptions;
use crate::sizes;
use crate::tensor::{TensorDesc, TensorModel};
use burn_backend::ops::conv::calculate_conv_output_sizes;
use vstd::prelude::*;

verus! {

/// `cubek::convolution::definition::ConvBlueprint`: a kernel's tiling, as a caller has fixed it.
/// Nothing is claimed of it; it is carried through to the launch.
#[verifier::external_type_specification]
#[verifier::external_body]
pub struct ExConvBlueprint(cubek::convolution::definition::ConvBlueprint);

/// How an accelerated convolution reads its operands.
#[derive(Clone, Copy, Debug, PartialEq, Eq, Structural)]
pub enum ConvAlgorithm {
    SimpleSyncCyclic,
    SimpleSyncStrided,
    SimpleSyncTilewise,
    SimpleAsyncCyclic,
    SimpleAsyncStrided,
    SimpleAsyncTma,
    SpecializedAsyncCyclic,
    SpecializedAsyncStrided,
    SpecializedTma,
}

/// Who decides on the tiling of an accelerated convolution.
pub enum Strategy {
    /// The routine itself, from the problem.
    Inferred { algorithm: ConvAlgorithm, tile_kind: AcceleratedTileKind },
    /// The caller.
    Forced {
        algorithm: ConvAlgorithm,
        blueprint: cubek::convolution::definition::ConvBlueprint,
    },
}

/// The parameters of a launched convolution.
#[derive(Clone, Copy, Debug, PartialEq, Eq)]
pub struct ConvolutionArgs<const N: usize> {
    pub stride: [usize; N],
    pub padding: [usize; N],
    pub dilation: [usize; N],
}

/// The element types of a matrix product's operands and of its result.
#[derive(Clone, Copy, Debug, PartialEq, Eq)]
pub struct GlobalDtypes {
    pub lhs: DType,
    pub rhs: DType,
    pub out: DType,
}

/// A convolution that is ready to be launched into an output of shape `out_shape`.
pub struct ForwardLaunch<const N: usize> {
    pub strategy: Strategy,
    pub input: TensorDesc,
    pub weight: TensorDesc,
    pub bias: Option<TensorDesc>,
    pub out_shape: Vec<usize>,
    pub args: ConvolutionArgs<N>,
    pub dtypes: GlobalDtypes,
}

/// Whether the input and the weights of an ungrouped convolution belong together: both have their
/// dimensions, and along every spatial axis the dilated kernel fits into the padded input.
pub open spec fn operands_fit<const N: usize>(
    input: Seq<usize>,
    weight: Seq<usize>,
    options: ConvOptions<N>,
) -> bool {
    let dim_c = input.len() - 1;
    &&& dim_c >= 1
    &&& weight.len() >= dim_c
    &&& sizes::conv_sizes_fit(
        weight.subrange(1, dim_c),
        options.stride@,
        options.padding@,
        options.dilation@,
        input.subrange(1, dim_c),
    )
}

/// Whether `out` is the shape that a convolution produces: the input's batch in front, the output
/// channels behind, and between them the size along each spatial axis.
pub open spec fn is_output_shape<const N: usize>(
    out: Seq<usize>,
    input: Seq<usize>,
    weight: Seq<usize>,
    options: ConvOptions<N>,
) -> bool {
    let dim_c = input.len() - 1;
    &&& out.len() == input.len()
    &&& out[0] == input[0]
    &&& out[dim_c] == weight[0]
    &&& forall|i: int|
        1 <= i < dim_c ==> #[trigger] out[i] == sizes::conv_output_size_along(
            weight.subrange(1, dim_c),
            options.stride@,
            options.padding@,
            options.dilation@,
            input.subrange(1, dim_c),
            i - 1,
        )
}

/// Whether `launch` is an ungrouped convolution of these operands under `strategy`: its output has
/// the shape that the convolution produces and the input's element type, and of the padding it
/// takes what stands in front.
pub open spec fn launches<const N: usize>(
    launch: ForwardLaunch<N>,
    strategy: Strategy,
    input: TensorDesc,
    weight: TensorDesc,
    bias: Option<TensorDesc>,
    options: ConvOptions<N>,
) -> bool {
    &&& launch.strategy == strategy
    &&& launch.input == input
    &&& launch.weight == weight
    &&& launch.bias == bias
    &&& is_output_shape(launch.out_shape@, input@.shape, weight@.shape, options)
    &&& launch.args.stride == options.stride
    &&& launch.args.padding@ == options.padding_begin_spec()
    &&& launch.args.dilation == options.dilation
    &&& launch.dtypes == (GlobalDtypes { lhs: input.dtype, rhs: weight.dtype, out: input.dtype })
}

/// What a convolution with synchronous loads launches: it reads cyclically for one tile matmul and
/// strided for the other.
pub fn conv_gemm_simple_sync<const N: usize>(
    input: TensorDesc,
    weight: TensorDesc,
    bias: Option<TensorDesc>,
    options: ConvOptions<N>,
    tile_kind: AcceleratedTileKind,
) -> (launch: Result<ForwardLaunch<N>, ConvSetupError>)
    requires
        options.groups == 1 ==> operands_fit(input@.shape, weight@.shape, options),
    ensures
        options.groups != 1 ==> launch == Err::<ForwardLaunch<N>, _>(
            ConvSetupError::Groups(options.groups),
        ),
        options.groups == 1 ==> launch is Ok && launches(
            launch->Ok_0,
            Strategy::Inferred {
                algorithm: if tile_kind == AcceleratedTileKind::Cmma {
                    ConvAlgorithm::SimpleSyncCyclic
                } else {
                    ConvAlgorithm::SimpleSyncStrided
                },
                tile_kind,
            },
            input,
            weight,
            bias,
            options,
        ),
{
    let algorithm: ConvAlgorithm = match tile_kind {
        AcceleratedTileKind::Cmma => ConvAlgorithm::SimpleSyncCyclic,
        AcceleratedTileKind::Mma => ConvAlgorithm::SimpleSyncStrided,
    };
    launch_convolution_forward(
        Strategy::Inferred { algorithm, tile_kind },
        input,
        weight,
        bias,
        options,
    )
}

/// What a convolution with asynchronous loads launches: it reads cyclically for one tile matmul
/// and strided for the other.
pub fn conv_gemm_simple_async<const N: usize>(
    input: TensorDesc,
    weight: TensorDesc,
    bias: Option<TensorDesc>,
    options: ConvOptions<N>,
    tile_kind: AcceleratedTileKind,
) -> (launch: Result<ForwardLaunch<N>, ConvSetupError>)
    requires
        options.groups == 1 ==> operands_fit(input@.shape, weight@.shape, options),
    ensures
        options.groups != 1 ==> launch == Err::<ForwardLaunch<N>, _>(
            ConvSetupError::Groups(options.groups),
        ),
        options.groups == 1 ==> launch is Ok && launches(
            launch->Ok_0,
            Strategy::Inferred {
                algorithm: if tile_kind == AcceleratedTileKind::Cmma {
                    ConvAlgorithm::SimpleAsyncCyclic
                } else {
                    ConvAlgorithm::SimpleAsyncStrided
                },
                tile_kind,
            },
            input,
            weight,
            bias,
            options,
        ),
{
    let algorithm: ConvAlgorithm = match tile_kind {
        AcceleratedTileKind::Cmma => ConvAlgorithm::SimpleAsyncCyclic,
        AcceleratedTileKind::Mma => ConvAlgorithm::SimpleAsyncStrided,
    };
    launch_convolution_forward(
        Strategy::Inferred { algorithm, tile_kind },
        input,
        weight,
        bias,
        options,
    )
}

/// What a convolution through the tensor memory accelerator launches, for either tile matmul.
pub fn conv_gemm_simple_tma<const N: usize>(
    input: TensorDesc,
    weight: TensorDesc,
    bias: Option<TensorDesc>,
    options: ConvOptions<N>,
    tile_kind: AcceleratedTileKind,
) -> (launch: Result<ForwardLaunch<N>, ConvSetupError>)
    requires
        options.groups == 1 ==> operands_fit(input@.shape, weight@.shape, options),
    ensures
        options.groups != 1 ==> launch == Err::<ForwardLaunch<N>, _>(
            ConvSetupError::Groups(options.groups),
        ),
        options.groups == 1 ==> launch is Ok && launches(
            launch->Ok_0,
            Strategy::Inferred { algorithm: ConvAlgorithm::SimpleAsyncTma, tile_kind },
            input,
            weight,
            bias,
            options,
        ),
{
    launch_convolution_forward(
        Strategy::Inferred { algorithm: ConvAlgorithm::SimpleAsyncTma, tile_kind },
        input,
        weight,
        bias,
        options,
    )
}

/// What an accelerated convolution launches. It declines a grouped convolution, whatever its
/// operands.
pub fn launch_convolution_forward<const N: usize>(
    strategy: Strategy,
    input: TensorDesc,
    weight: TensorDesc,
    bias: Option<TensorDesc>,
    options: ConvOptions<N>,
) -> (launch: Result<ForwardLaunch<N>, ConvSetupError>)
    requires
        options.groups == 1 ==> operands_fit(input@.shape, weight@.shape, options),
    ensures
        options.groups != 1 ==> launch == Err::<ForwardLaunch<N>, _>(
            ConvSetupError::Groups(options.groups),
        ),
        options.groups == 1 ==> launch is Ok && launches(
            launch->Ok_0,
            strategy,
            input,
            weight,
            bias,
            options,
        ),
        options.groups == 1 ==> forall|i: int|
            0 <= i < N ==> {
                &&& (#[trigger] launch->Ok_0.args.padding@[i]) == options.padding@[i].0
                &&& launch->Ok_0.args.stride@[i] == options.stride@[i]
                &&& launch->Ok_0.args.dilation@[i] == options.dilation@[i]
            },
{
    if options.groups != 1 {
        return Err(ConvSetupError::Groups(options.groups));
    }
    let out_dtype: DType = input.dtype;
    let batch_size: usize = input.shape[0];
    let dim_c: usize = input.shape.len() - 1;
    let out_channels: usize = weight.shape[0];
    let mut out_shape: Vec<usize> = calculate_conv_output_sizes(
        &weight.shape[1..dim_c],
        &options.stride,
        &options.padding,
        &options.dilation,
        &input.shape[1..dim_c],
    );
    out_shape.insert(0, batch_size);
    out_shape.push(out_channels);
    let args: ConvolutionArgs<N> = ConvolutionArgs {
        stride: options.stride,
        padding: options.padding_begin(),
        dilation: options.dilation,
    };
    let dtypes: GlobalDtypes = GlobalDtypes {
        lhs: input.dtype,
        rhs: weight.dtype,
        out: out_dtype,
    };
    Ok(ForwardLaunch { strategy, input, weight, bias, out_shape, args, dtypes })
}

/// A launch holds what it was made from: the strategy and the operands as they are, along every axis
/// the stride and the dilation of the options and of their padding the part in front, the batch of
/// the input and the channels of the weights around the output's sizes, and the element types of the
/// operands, the input's for the output.
pub proof fn law_launch_holds_the_convolution<const N: usize>(
    launch: ForwardLaunch<N>,
    strategy: Strategy,
    input: TensorDesc,
    weight: TensorDesc,
    bias: Option<TensorDesc>,
    options: ConvOptions<N>,
)
    requires
        launches(launch, strategy, input, weight, bias, options),
        operands_fit(input@.shape, weight@.shape, options),
    ensures
        launch.strategy == strategy,
        launch.input == input,
        launch.weight == weight,
        launch.bias == bias,
        forall|i: int| 0 <= i < N ==> #[trigger] launch.args.stride@[i] == options.stride@[i],
        forall|i: int| 0 <= i < N ==> #[trigger] launch.args.padding@[i] == options.padding@[i].0,
        forall|i: int| 0 <= i < N ==> #[trigger] launch.args.dilation@[i] == options.dilation@[i],
        launch.out_shape@.len() == input.shape@.len(),
        launch.out_shape@[0] == input.shape@[0],
        launch.out_shape@.last() == weight.shape@[0],
        launch.dtypes.lhs == input.dtype,
        launch.dtypes.rhs == weight.dtype,
        launch.dtypes.out == input.dtype,
{
}

/// The windows that a launch reads are those of the padded input. Along every spatial axis window
/// `w` starts at `w` strides behind the padding in front, and it is one of the output exactly where
/// its last tap still lies before the end of the input and the padding behind it.
pub proof fn law_launch_reads_the_windows_of_the_padded_input<const N: usize>(
    launch: ForwardLaunch<N>,
    strategy: Strategy,
    input: TensorDesc,
    weight: TensorDesc,
    bias: Option<TensorDesc>,
    options: ConvOptions<N>,
    i: int,
    w: int,
)
    requires
        launches(launch, strategy, input, weight, bias, options),
        operands_fit(input@.shape, weight@.shape, options),
        0 <= i < input.shape@.len() - 2,
        w >= 0,
    ensures
        ({
            let start = w * launch.args.stride@[i] - launch.args.padding@[i];
            let last_tap = start + launch.args.dilation@[i] * (weight.shape@[i + 1] - 1);
            &&& start == w * options.stride@[i] - options.padding@[i].0
            &&& w < launch.out_shape@[i + 1] <==> last_tap < input.shape@[i + 1]
                + options.padding@[i].1
        }),
{
    let dim_c = input.shape@.len() - 1;
    let kernel = weight.shape@.subrange(1, dim_c);
    let size_in = input.shape@.subrange(1, dim_c);
    assert(kernel[i] == weight.shape@[i + 1] && size_in[i] == input.shape@[i + 1]);
    assert(launch.out_shape@[i + 1] == sizes::conv_output_size_along(
        kernel,
        options.stride@,
        options.padding@,
        options.dilation@,
        size_in,
        i,
    ));
    sizes::law_conv_output_size_counts_windows(
        kernel[i] as int,
        options.stride@[i] as int,
        (options.padding@[i].0 as int, options.padding@[i].1 as int),
        options.dilation@[i] as int,
        size_in[i] as int,
        w,
    );
}

/// Whether a convolution can be launched depends on nothing but its operands' sizes: the weights have
/// every spatial axis of the input, and along each of them the dilated kernel is no longer than the
/// padded input.
pub proof fn law_operands_fit_where_the_kernel_fits<const N: usize>(
    input: Seq<usize>,
    weight: Seq<usize>,
    options: ConvOptions<N>,
    i: int,
)
    requires
        operands_fit(input, weight, options),
        0 <= i < input.len() - 2,
    ensures
        i < N,
        weight[i + 1] > 0,
        options.stride@[i] > 0,
        options.dilation@[i] * (weight[i + 1] - 1) < input[i + 1] + options.padding@[i].0
            + options.padding@[i].1,
{
    let dim_c = input.len() - 1;
    assert(input.subrange(1, dim_c)[i] == input[i + 1]);
    assert(weight.subrange(1, dim_c)[i] == weight[i + 1]);
}

} // verus!
