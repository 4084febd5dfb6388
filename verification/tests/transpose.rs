use conv_kernels::conv_transpose2d::axis::Axis;
use conv_kernels::conv_transpose2d::position::{contiguous, decompose_linear};
use conv_kernels::conv_transpose2d::transpose_direct::{
    conv_transpose2d_direct, conv_transpose2d_direct_kernel, transpose_launch, ConvArgs,
};
use conv_kernels::options::ConvTransposeOptions;
use conv_kernels::sizes::transpose_size;
use conv_kernels::tensor::StridedTensor;

fn tensor(shape: [usize; 4], data: Vec<i32>) -> StridedTensor<i32> {
    assert_eq!(data.len(), shape.iter().product::<usize>());
    contiguous(data, shape)
}

/// A tensor whose elements are all different and of both signs.
fn numbered(shape: [usize; 4]) -> StridedTensor<i32> {
    let len: usize = shape.iter().product();
    tensor(shape, (0..len as i32).map(|i| (i * 7) % 23 - 11).collect())
}

fn options(stride: usize, padding: usize, padding_out: usize, dilation: usize) -> ConvTransposeOptions<2> {
    ConvTransposeOptions {
        stride: [stride; 2],
        padding: [padding; 2],
        padding_out: [padding_out; 2],
        dilation: [dilation; 2],
        groups: 1,
    }
}

fn at(tensor: &StridedTensor<i32>, c: [usize; 4]) -> i32 {
    tensor.data[(0..4).map(|i| c[i] * tensor.strides[i]).sum::<usize>()]
}

/// Carries every input element through every tap to where it lands.
fn scatter(
    input: &StridedTensor<i32>,
    weight: &StridedTensor<i32>,
    bias: Option<&[i32]>,
    options: &ConvTransposeOptions<2>,
    shape: [usize; 4],
) -> Vec<i32> {
    let [batch, channels, height, width] = shape;
    let mut out = vec![0i32; batch * channels * height * width];
    for b in 0..batch {
        for c in 0..channels {
            for p in 0..height * width {
                out[(b * channels + c) * height * width + p] = bias.map_or(0, |bias| bias[c]);
            }
        }
    }
    let out_per_group = weight.shape[1];
    let in_per_group = weight.shape[0] / options.groups;
    for b in 0..batch {
        for ic in 0..weight.shape[0] {
            for oc in 0..out_per_group {
                for iy in 0..input.shape[2] {
                    for ky in 0..weight.shape[2] {
                        for ix in 0..input.shape[3] {
                            for kx in 0..weight.shape[3] {
                                let y = iy * options.stride[0] + ky * options.dilation[0];
                                let x = ix * options.stride[1] + kx * options.dilation[1];
                                if y < options.padding[0] || x < options.padding[1] {
                                    continue;
                                }
                                let (y, x) = (y - options.padding[0], x - options.padding[1]);
                                if y >= height || x >= width {
                                    continue;
                                }
                                let c = (ic / in_per_group) * out_per_group + oc;
                                let index = ((b * channels + c) * height + y) * width + x;
                                out[index] = out[index].wrapping_add(
                                    at(input, [b, ic, iy, ix])
                                        .wrapping_mul(at(weight, [ic, oc, ky, kx])),
                                );
                            }
                        }
                    }
                }
            }
        }
    }
    out
}

fn run(
    input: &StridedTensor<i32>,
    weight: &StridedTensor<i32>,
    bias: Option<&[i32]>,
    options: &ConvTransposeOptions<2>,
) -> StridedTensor<i32> {
    match conv_transpose2d_direct(input, weight, bias, options) {
        Ok(output) => output,
        Err(error) => panic!("the direct transposed convolution declines nothing: {error:?}"),
    }
}

#[test]
fn two_by_two_through_two_by_two() {
    let output = run(
        &tensor([1, 1, 2, 2], vec![1, 2, 3, 4]),
        &tensor([1, 1, 2, 2], vec![10, 20, 30, 40]),
        None,
        &options(1, 0, 0, 1),
    );
    assert_eq!(output.shape, [1, 1, 3, 3]);
    assert_eq!(output.strides, [9, 9, 3, 1]);
    assert_eq!(output.data, vec![10, 40, 40, 60, 200, 160, 90, 240, 160]);
}

#[test]
fn a_stride_spreads_the_input() {
    let output = run(
        &tensor([1, 1, 2, 2], vec![1, 2, 3, 4]),
        &tensor([1, 1, 2, 2], vec![1, 1, 1, 1]),
        Some(&[100]),
        &options(2, 0, 0, 1),
    );
    assert_eq!(output.shape, [1, 1, 4, 4]);
    assert_eq!(
        output.data,
        vec![
            101, 101, 102, 102, 101, 101, 102, 102, 103, 103, 104, 104, 103, 103, 104, 104
        ]
    );
}

#[test]
fn every_combination_agrees_with_scattering() {
    let input = numbered([2, 2, 4, 3]);
    for kernel in 1..4usize {
        let weight = numbered([2, 3, kernel, kernel]);
        for stride in 1..6usize {
            for dilation in 1..4usize {
                for padding in 0..3usize {
                    for padding_out in 0..2usize {
                        let options = options(stride, padding, padding_out, dilation);
                        let reach = 2 * stride + dilation * (kernel - 1) + padding_out;
                        if 2 * padding > reach {
                            continue;
                        }
                        let bias = [5, -6, 7];
                        let output = run(&input, &weight, Some(&bias), &options);
                        assert_eq!(
                            output.data,
                            scatter(&input, &weight, Some(&bias), &options, output.shape),
                            "kernel {kernel}, {options:?}"
                        );
                    }
                }
            }
        }
    }
}

#[test]
fn axes_are_independent() {
    let input = numbered([1, 1, 5, 2]);
    let weight = numbered([1, 1, 3, 2]);
    let options = ConvTransposeOptions {
        stride: [2, 1],
        padding: [1, 0],
        padding_out: [1, 0],
        dilation: [1, 3],
        groups: 1,
    };
    let output = run(&input, &weight, None, &options);
    assert_eq!(output.shape, [1, 1, 10, 5]);
    assert_eq!(output.data, scatter(&input, &weight, None, &options, output.shape));
}

#[test]
fn groups_keep_to_their_channels() {
    let input = numbered([2, 6, 3, 3]);
    let weight = numbered([6, 2, 2, 2]);
    let mut grouped = options(1, 0, 0, 1);
    grouped.groups = 3;
    let bias = [1, 2, 3, 4, 5, 6];
    let output = run(&input, &weight, Some(&bias), &grouped);
    assert_eq!(output.shape, [2, 6, 4, 4]);
    assert_eq!(output.data, scatter(&input, &weight, Some(&bias), &grouped, output.shape));
}

#[test]
fn strides_of_the_operands_are_followed() {
    let plain = numbered([1, 2, 3, 4]);
    let mut data = vec![0; 24];
    let strides = [1, 1, 2, 6];
    for c in 0..2 {
        for y in 0..3 {
            for x in 0..4 {
                data[c + 2 * y + 6 * x] = at(&plain, [0, c, y, x]);
            }
        }
    }
    let turned = StridedTensor { data, shape: [1, 2, 3, 4], strides };
    let weight = numbered([2, 1, 2, 2]);
    let options = options(1, 1, 0, 1);
    assert_eq!(
        run(&turned, &weight, None, &options).data,
        run(&plain, &weight, None, &options).data
    );
}

#[test]
fn a_stride_beyond_the_kernel_spreads_the_input() {
    let column = ConvTransposeOptions {
        stride: [2, 1],
        padding: [0, 0],
        padding_out: [0, 0],
        dilation: [1, 1],
        groups: 1,
    };
    let output = run(
        &tensor([1, 1, 2, 1], vec![3, 5]),
        &tensor([1, 1, 1, 1], vec![2]),
        None,
        &column,
    );
    assert_eq!(output.shape, [1, 1, 3, 1]);
    assert_eq!(output.data, vec![6, 0, 10]);

    let input = tensor([1, 1, 2, 2], vec![1, 2, 3, 4]);
    let weight = tensor([1, 1, 1, 1], vec![10]);
    let wide = options(2, 0, 0, 1);
    let output = run(&input, &weight, None, &wide);
    assert_eq!(output.shape, [1, 1, 3, 3]);
    assert_eq!(output.data, vec![10, 0, 20, 0, 0, 0, 30, 0, 40]);
    assert_eq!(run(&input, &weight, Some(&[7]), &wide).data, vec![17, 7, 27, 7, 7, 7, 37, 7, 47]);
    // At a stride as large as the kernel's reach the last products stand beside the next.
    let weight = tensor([1, 1, 2, 2], vec![10, 0, 0, 0]);
    assert_eq!(
        run(&input, &weight, None, &wide).data,
        vec![10, 0, 20, 0, 0, 0, 0, 0, 30, 0, 40, 0, 0, 0, 0, 0]
    );
}

#[test]
fn sums_wrap_around() {
    let output = run(
        &tensor([1, 1, 1, 1], vec![i32::MAX]),
        &tensor([1, 1, 1, 1], vec![2]),
        Some(&[5]),
        &options(1, 0, 0, 1),
    );
    assert_eq!(output.data, vec![3]);
}

#[test]
fn wide_integers_do_not_wrap_early() {
    let input = contiguous(vec![i32::MAX as i64], [1, 1, 1, 1]);
    let weight = contiguous(vec![2i64], [1, 1, 1, 1]);
    let output = conv_transpose2d_direct(&input, &weight, None, &options(1, 0, 0, 1));
    assert_eq!(output.ok().unwrap().data, vec![4294967294]);
}

#[test]
fn an_empty_batch_has_an_empty_output() {
    let output = run(
        &tensor([0, 1, 2, 2], vec![]),
        &tensor([1, 1, 2, 2], vec![1, 2, 3, 4]),
        None,
        &options(1, 0, 0, 1),
    );
    assert_eq!(output.shape, [0, 1, 3, 3]);
    assert_eq!(output.strides, [0, 0, 0, 0]);
    assert!(output.data.is_empty());
}

#[test]
fn units_beyond_the_output_write_nothing_and_the_order_does_not_matter() {
    let input = numbered([1, 1, 2, 2]);
    let weight = numbered([1, 1, 2, 2]);
    let args = ConvArgs {
        conv_stride_0: 1,
        conv_stride_1: 1,
        dilation_0: 1,
        dilation_1: 1,
        padding_0: 0,
        padding_1: 0,
        groups: 1,
    };
    let shape = [1, 1, 3, 3];
    let mut forward = vec![77; 9];
    for pos in 0..32 {
        conv_transpose2d_direct_kernel(pos, &input, &weight, None, &mut forward, &shape, &args);
    }
    let mut backward = vec![77; 9];
    for pos in (0..32).rev() {
        conv_transpose2d_direct_kernel(pos, &input, &weight, None, &mut backward, &shape, &args);
    }
    assert_eq!(forward, backward);
    let mut one = vec![77; 9];
    conv_transpose2d_direct_kernel(9, &input, &weight, None, &mut one, &shape, &args);
    assert_eq!(one, vec![77; 9]);
    conv_transpose2d_direct_kernel(4, &input, &weight, None, &mut one, &shape, &args);
    assert_eq!(one[4], forward[4]);
    assert_eq!(one.iter().filter(|value| **value == 77).count(), 8);
}

#[test]
fn a_launch_covers_the_output() {
    let launch = transpose_launch(
        &[128, 128, 176, 1],
        &[128, 128, 5, 1],
        &ConvTransposeOptions {
            stride: [1, 1],
            padding: [16, 0],
            padding_out: [0, 0],
            dilation: [4, 1],
            groups: 1,
        },
    );
    assert_eq!(launch.shape_out, [128, 128, 160, 1]);
    assert_eq!(launch.num_elems, 128 * 128 * 160);
    assert_eq!(
        launch.args,
        ConvArgs {
            conv_stride_0: 1,
            conv_stride_1: 1,
            dilation_0: 4,
            dilation_1: 1,
            padding_0: 16,
            padding_1: 0,
            groups: 1,
        }
    );
}

#[test]
fn the_walk_scales_with_the_dilation() {
    // A dilated layer from 160 to 176, kernel of five, turned around.
    for (dilation, padding, iterations) in [(1, 10, 5), (2, 12, 10), (4, 16, 20)] {
        assert_eq!((176 - 160 + dilation * (5 - 1)) / 2, padding);
        assert_eq!(transpose_size(5, 1, padding, 0, dilation, 176), 160);
        let axis = Axis { kernel: 5, stride: 1, dilation, input: 176 };
        for out in 40..120 {
            let base = out + padding;
            let (first, last) = axis.walk(base);
            assert_eq!(last - first, iterations);
            let useful =
                (first..last).filter(|i| i <= &base && (base - i) % dilation == 0).count();
            assert_eq!(useful, 5);
        }
    }
}

#[test]
fn the_walk_is_clipped_to_the_input() {
    let axis = Axis { kernel: 3, stride: 2, dilation: 1, input: 4 };
    assert_eq!(axis.walk(0), (0, 2));
    assert_eq!(axis.walk(3), (1, 3));
    assert_eq!(axis.walk(6), (2, 4));
    assert_eq!(axis.walk(8), (3, 4));
    let wide = Axis { kernel: 1, stride: 3, dilation: 1, input: 4 };
    for base in 0..=9 {
        let (first, last) = wide.walk(base);
        assert!(last <= first + 1);
        // Only a multiple of the stride is reached, from one position.
        if base % 3 == 0 {
            assert_eq!((first, last), (base / 3, base / 3 + 1));
        }
    }
}

#[test]
fn the_transposed_size_undoes_the_size() {
    for kernel in 1..4usize {
        for stride in 1..4usize {
            for dilation in 1..4usize {
                for padding in 0..3usize {
                    let size_in = 11usize;
                    let n = size_in + 2 * padding - dilation * (kernel - 1) - 1;
                    let size_out = n / stride + 1;
                    assert_eq!(
                        transpose_size(kernel, stride, padding, n % stride, dilation, size_out),
                        size_in
                    );
                }
            }
        }
    }
}

#[test]
fn a_contiguous_tensor_runs_fastest_along_its_last_dimension() {
    let tensor = contiguous((0..120).collect::<Vec<i32>>(), [2, 3, 4, 5]);
    assert_eq!(tensor.strides, [60, 20, 5, 1]);
    assert_eq!(at(&tensor, [1, 2, 3, 4]), 119);
    assert_eq!(contiguous(Vec::<i32>::new(), [2, 0, 4, 5]).strides, [0, 0, 0, 0]);
}

#[test]
fn positions_and_coordinates_determine_each_other() {
    let shape = [2, 3, 4, 5];
    for pos in 0..120 {
        let (a, b, c, d) = decompose_linear(pos, &shape);
        assert!(a < 2 && b < 3 && c < 4 && d < 5);
        assert_eq!(((a * 3 + b) * 4 + c) * 5 + d, pos);
    }
    assert_eq!(decompose_linear(119, &shape), (1, 2, 3, 4));
}

#[test]
fn without_padding_every_product_lands_once() {
    let input = numbered([1, 1, 3, 4]);
    let weight = numbered([1, 1, 3, 2]);
    for stride in 1..6usize {
        for dilation in 1..4usize {
            for padding_out in 0..2usize {
                let output = run(&input, &weight, None, &options(stride, 0, padding_out, dilation));
                let total = |tensor: &StridedTensor<i32>| tensor.data.iter().sum::<i32>();
                assert_eq!(total(&output), total(&input) * total(&weight));
            }
        }
    }
}
