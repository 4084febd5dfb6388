use conv_kernels::align::{pow2_factor, stride_align};
use conv_kernels::backward_data;
use conv_kernels::dtype::DType;
use conv_kernels::forward;
use conv_kernels::key::{anchor_sizes, channel_shape_align, channel_stride_align};
use conv_kernels::options::ConvOptions;
use conv_kernels::tensor::TensorDesc;

fn desc(shape: &[usize], strides: &[usize], dtype: DType) -> TensorDesc {
    TensorDesc { shape: shape.to_vec(), strides: strides.to_vec(), dtype }
}

#[test]
fn the_vectorization_factor_counts_twos_up_to_four() {
    assert_eq!(pow2_factor(1), 0);
    assert_eq!(pow2_factor(3), 0);
    assert_eq!(pow2_factor(6), 1);
    assert_eq!(pow2_factor(12), 2);
    assert_eq!(pow2_factor(8), 3);
    assert_eq!(pow2_factor(16), 4);
    assert_eq!(pow2_factor(128), 4);
    assert_eq!(pow2_factor(0), 4);
    assert_eq!(pow2_factor(usize::MAX), 0);
}

#[test]
fn the_stride_alignment_is_the_least_of_the_outer_strides() {
    // 20480 and 128 elements of four bytes: 2^14 * 5 and 2^9.
    assert_eq!(stride_align(&[20480, 128, 1], 32), 9);
    // The innermost stride does not count.
    assert_eq!(stride_align(&[20480, 128, 3], 32), 9);
    assert_eq!(stride_align(&[20480, 256, 1], 32), 10);
    assert_eq!(stride_align(&[20480, 4096, 1], 32), 10);
    assert_eq!(stride_align(&[3, 1], 8), 0);
    assert_eq!(stride_align(&[3, 1], 32), 2);
    // Without an outer stride nothing stands against the maximum.
    assert_eq!(stride_align(&[1], 32), 10);
    assert_eq!(stride_align(&[0, 1], 32), 10);
    // Bits are rounded down to bytes.
    assert_eq!(stride_align(&[3, 1], 4), 0);
}

#[test]
fn the_channels_are_aligned_no_better_than_the_strides() {
    assert_eq!(channel_shape_align(128, 9), 4);
    assert_eq!(channel_shape_align(128, 2), 2);
    assert_eq!(channel_shape_align(6, 9), 1);
    assert_eq!(channel_shape_align(128, 0), 0);
    // 2^m divides the channels, and the strides are aligned to it too.
    for channels in 0..64usize {
        for strides in 0..6u8 {
            let align = channel_shape_align(channels, strides);
            for m in 0..5u8 {
                assert_eq!(m <= align, m <= strides && channels % (1 << m) == 0);
            }
        }
    }
}

#[test]
fn scattered_channels_are_unaligned() {
    let together = desc(&[8, 160, 128], &[20480, 128, 1], DType::F32);
    let scattered = desc(&[8, 160, 128], &[20480, 1, 160], DType::F32);
    assert_eq!(channel_stride_align(&together, 2), 9);
    assert_eq!(channel_stride_align(&scattered, 2), 0);
    assert_eq!(channel_shape_align(128, channel_stride_align(&scattered, 2)), 0);
}

#[test]
fn half_precision_halves_the_stride_alignment() {
    let tensor = desc(&[8, 160, 128], &[20480, 128, 1], DType::BF16);
    assert_eq!(channel_stride_align(&tensor, 2), 8);
}

#[test]
fn sizes_are_anchored_one_by_one() {
    // The default level rounds up to a power of two.
    assert_eq!(anchor_sizes(&[0, 1, 2, 160, 176, 256, 257]), vec![0, 1, 2, 256, 256, 256, 512]);
    assert_eq!(anchor_sizes(&[]), Vec::<usize>::new());
}

#[test]
fn a_convolution_key_reads_the_input_and_the_weights() {
    let inputs = (
        desc(&[8, 160, 24, 12], &[46080, 288, 12, 1], DType::F32),
        desc(&[64, 5, 3, 12], &[180, 36, 12, 1], DType::F16),
        None,
        ConvOptions { stride: [1, 2], padding: [(16, 8), (0, 1)], dilation: [4, 1], groups: 1 },
    );
    let key = forward::tune::create_key(&inputs);
    assert_eq!(key.kernel_size, vec![5, 3]);
    assert_eq!(key.stride, vec![1, 2]);
    assert_eq!(key.padding, vec![(16, 8), (0, 1)]);
    assert_eq!(key.dilation, vec![4, 1]);
    assert_eq!(key.groups, 1);
    assert_eq!(key.in_channels, 12);
    assert_eq!(key.out_channels, 64);
    assert_eq!(key.shape, vec![256, 32]);
    assert_eq!(key.batch_size, 8);
    assert!(!key.has_bias);
    assert_eq!(key.dtype, DType::F32);
    // 12 elements of four bytes are 2^4 * 3 bytes, 12 channels are 2^2 * 3.
    assert_eq!(key.lhs_stride_align, 4);
    assert_eq!(key.lhs_shape_align, 2);
    // 12 elements of two bytes are 2^3 * 3 bytes.
    assert_eq!(key.rhs_stride_align, 3);
    assert_eq!(key.rhs_shape_align, 2);

    let same = forward::tune::key_with_anchored(&inputs, vec![256, 32]);
    assert_eq!(same, key);
    let other = forward::tune::key_with_anchored(&inputs, vec![160, 24]);
    assert_eq!(other.shape, vec![160, 24]);
    assert_eq!(other.kernel_size, key.kernel_size);
}

#[test]
fn a_data_gradient_key_reads_the_gradient_the_weights_and_the_input_shape() {
    let inputs = (
        desc(&[8, 176, 64], &[11264, 64, 1], DType::F32),
        desc(&[64, 5, 12], &[60, 12, 1], DType::F32),
        vec![8, 160, 12],
        ConvOptions { stride: [1], padding: [(16, 16)], dilation: [4], groups: 1 },
    );
    let key = backward_data::tune::create_key(&inputs);
    assert_eq!(key.kernel_size, vec![5]);
    assert_eq!(key.stride, vec![1]);
    assert_eq!(key.padding, vec![(16, 16)]);
    assert_eq!(key.dilation, vec![4]);
    assert_eq!(key.groups, 1);
    assert_eq!(key.in_channels, 12);
    assert_eq!(key.out_channels, 64);
    assert_eq!(key.shape, vec![256]);
    assert_eq!(key.batch_size, 8);
    assert!(!key.has_bias);
    assert_eq!(key.dtype, DType::F32);
    // The gradient's channels go with its strides, the input's with those of the weights.
    assert_eq!(key.lhs_stride_align, 8);
    assert_eq!(key.lhs_shape_align, 4);
    assert_eq!(key.rhs_stride_align, 4);
    assert_eq!(key.rhs_shape_align, 2);

    assert_eq!(backward_data::tune::key_with_anchored(&inputs, vec![160]).shape, vec![160]);
}

#[test]
fn a_key_without_spatial_sizes_has_none() {
    let inputs = (
        desc(&[8, 16], &[16, 1], DType::F32),
        desc(&[4, 16], &[16, 1], DType::F32),
        None,
        ConvOptions { stride: [], padding: [], dilation: [], groups: 1 },
    );
    let key = forward::tune::create_key::<0>(&inputs);
    assert_eq!(key.shape, Vec::<usize>::new());
    assert_eq!(key.kernel_size, Vec::<usize>::new());
    assert_eq!((key.in_channels, key.out_channels, key.batch_size), (16, 4, 8));
}

#[test]
fn the_stride_alignment_divides_every_outer_stride() {
    for a in [1usize, 2, 12, 48, 640, 4096] {
        for b in [1usize, 3, 16, 96, 1024] {
            let align = stride_align(&[a, b, 1], 16);
            for m in 0..=10u8 {
                let power = 1 << m;
                assert_eq!(m <= align, (a * 2) % power == 0 && (b * 2) % power == 0);
            }
        }
    }
}
