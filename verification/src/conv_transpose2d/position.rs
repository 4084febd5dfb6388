//! Where an element of a tensor with four dimensions lies in its linear order.
use crate::tensor::StridedTensor;
use vstd::arithmetic::div_mod;
use vstd::prelude::*;

verus! {

/// How many elements a tensor of this shape has.
pub open spec fn element_count(shape: Seq<usize>) -> int {
    shape[0] * shape[1] * shape[2] * shape[3]
}

/// The coordinates of the element at linear position `pos`, the last dimension running fastest.
pub open spec fn coordinates(pos: int, shape: Seq<usize>) -> (int, int, int, int) {
    let rows = pos / shape[3] as int;
    let planes = rows / shape[2] as int;
    (
        planes / shape[1] as int,
        planes % shape[1] as int,
        rows % shape[2] as int,
        pos % shape[3] as int,
    )
}

/// The linear position of the element at these coordinates.
pub open spec fn linear_position(c: (int, int, int, int), shape: Seq<usize>) -> int {
    ((c.0 * shape[1] + c.1) * shape[2] + c.2) * shape[3] + c.3
}

/// Whether the coordinates name an element of a tensor of this shape.
pub open spec fn in_shape(c: (int, int, int, int), shape: Seq<usize>) -> bool {
    &&& 0 <= c.0 < shape[0]
    &&& 0 <= c.1 < shape[1]
    &&& 0 <= c.2 < shape[2]
    &&& 0 <= c.3 < shape[3]
}

/// Every linear position has coordinates that name an element, and leads back from them.
pub proof fn law_positions_are_coordinates(pos: int, shape: Seq<usize>)
    requires
        shape.len() == 4,
        0 <= pos < element_count(shape),
    ensures
        in_shape(coordinates(pos, shape), shape),
        linear_position(coordinates(pos, shape), shape) == pos,
{
    let (n, c, h, w) = (shape[0] as int, shape[1] as int, shape[2] as int, shape[3] as int);
    assert(n > 0 && c > 0 && h > 0 && w > 0) by (nonlinear_arith)
        requires
            0 <= n,
            0 <= c,
            0 <= h,
            0 <= w,
            0 < n * c * h * w,
    ;
    let rows = pos / w;
    let planes = rows / h;
    let batch = planes / c;
    assert(pos == rows * w + pos % w && 0 <= pos % w < w) by (nonlinear_arith)
        requires
            w > 0,
            rows == pos / w,
    ;
    assert(rows == planes * h + rows % h && 0 <= rows % h < h) by (nonlinear_arith)
        requires
            h > 0,
            planes == rows / h,
    ;
    assert(planes == batch * c + planes % c && 0 <= planes % c < c) by (nonlinear_arith)
        requires
            c > 0,
            batch == planes / c,
    ;
    assert(0 <= rows < n * c * h) by (nonlinear_arith)
        requires
            0 <= pos < n * c * h * w,
            w > 0,
            rows == pos / w,
    ;
    assert(0 <= planes < n * c) by (nonlinear_arith)
        requires
            0 <= rows < n * c * h,
            h > 0,
            planes == rows / h,
    ;
    assert(0 <= batch < n) by (nonlinear_arith)
        requires
            0 <= planes < n * c,
            c > 0,
            batch == planes / c,
    ;
}

/// Every element has a linear position inside the tensor, and its coordinates lead back from it.
pub proof fn law_coordinates_are_positions(c: (int, int, int, int), shape: Seq<usize>)
    requires
        shape.len() == 4,
        in_shape(c, shape),
    ensures
        0 <= linear_position(c, shape) < element_count(shape),
        coordinates(linear_position(c, shape), shape) == c,
{
    let (n, d, h, w) = (shape[0] as int, shape[1] as int, shape[2] as int, shape[3] as int);
    let planes = c.0 * d + c.1;
    let rows = planes * h + c.2;
    let pos = rows * w + c.3;
    lemma_digit(c.0, c.1, n, d);
    lemma_digit(planes, c.2, n * d, h);
    lemma_digit(rows, c.3, n * d * h, w);
}

/// Appending a digit to a number keeps it in range, and division takes the digit off again.
proof fn lemma_digit(high: int, low: int, high_end: int, base: int)
    requires
        0 <= high < high_end,
        0 <= low < base,
    ensures
        0 <= high * base + low < high_end * base,
        (high * base + low) / base == high,
        (high * base + low) % base == low,
{
    assert(0 <= high * base && high * base + base <= high_end * base) by (nonlinear_arith)
        requires
            0 <= high < high_end,
            base > 0,
    ;
    div_mod::lemma_fundamental_div_mod_converse(high * base + low, base, high, low);
}

/// Splits a linear position into coordinates, the last dimension running fastest.
pub fn decompose_linear(pos: usize, shape: &[usize; 4]) -> (c: (usize, usize, usize, usize))
    requires
        pos < element_count(shape@),
    ensures
        (c.0 as int, c.1 as int, c.2 as int, c.3 as int) == coordinates(pos as int, shape@),
        in_shape((c.0 as int, c.1 as int, c.2 as int, c.3 as int), shape@),
        c.0 < shape@[0],
        c.1 < shape@[1],
        c.2 < shape@[2],
        c.3 < shape@[3],
        pos == ((c.0 * shape@[1] + c.1) * shape@[2] + c.2) * shape@[3] + c.3,
{
    proof {
        law_positions_are_coordinates(pos as int, shape@);
    }
    let rows: usize = pos / shape[3];
    let planes: usize = rows / shape[2];
    (planes / shape[1], planes % shape[1], rows % shape[2], pos % shape[3])
}

/// A tensor of this shape over `data`, the last dimension running fastest. Without elements its
/// strides are zero.
pub fn contiguous<E>(data: Vec<E>, shape: [usize; 4]) -> (tensor: StridedTensor<E>)
    requires
        data@.len() == element_count(shape@),
    ensures
        tensor.shape == shape,
        tensor.data == data,
        data@.len() == 0 ==> tensor.strides@ == seq![0usize, 0, 0, 0],
        data@.len() > 0 ==> {
            &&& tensor.strides@[0] == shape@[1] * (shape@[2] * shape@[3])
            &&& tensor.strides@[1] == shape@[2] * shape@[3]
            &&& tensor.strides@[2] == shape@[3]
            &&& tensor.strides@[3] == 1
        },
        tensor.wf(),
        forall|a: int, b: int, c: int, d: int|
            in_shape((a, b, c, d), shape@) ==> #[trigger] tensor.at(a, b, c, d)
                == data@[linear_position((a, b, c, d), shape@)],
        forall|a: int, b: int, c: int, d: int|
            0 <= a < shape@[0] && 0 <= b < shape@[1] && 0 <= c < shape@[2] && 0 <= d < shape@[3]
                ==> #[trigger] tensor.at(a, b, c, d) == data@[((a * shape@[1] + b) * shape@[2] + c)
                * shape@[3] + d],
{
    if data.len() == 0 {
        let tensor: StridedTensor<E> = StridedTensor { data, shape, strides: [0, 0, 0, 0] };
        proof {
            assert forall|p: (int, int, int, int)| !#[trigger] in_shape(p, shape@) by {
                if in_shape(p, shape@) {
                    law_coordinates_are_positions(p, shape@);
                }
            }
            assert forall|a: int, b: int, c: int, d: int| !#[trigger] tensor.contains(a, b, c, d) by {
                assert(!in_shape((a, b, c, d), shape@));
            }
            assert forall|a: int, b: int, c: int, d: int|
                #![trigger tensor.at(a, b, c, d)]
                !(0 <= a < shape@[0] && 0 <= b < shape@[1] && 0 <= c < shape@[2] && 0 <= d
                    < shape@[3]) by {
                assert(!in_shape((a, b, c, d), shape@));
            }
        }
        return tensor;
    }
    proof {
        lemma_stride_bounds(
            shape@[0] as int,
            shape@[1] as int,
            shape@[2] as int,
            shape@[3] as int,
        );
    }
    let plane: usize = shape[2] * shape[3];
    let tensor: StridedTensor<E> = StridedTensor {
        data,
        shape,
        strides: [shape[1] * plane, plane, shape[3], 1],
    };
    proof {
        assert forall|a: int, b: int, c: int, d: int| in_shape((a, b, c, d), shape@) implies {
            &&& #[trigger] tensor.offset(a, b, c, d) == linear_position((a, b, c, d), shape@)
            &&& 0 <= tensor.offset(a, b, c, d) < data@.len()
        } by {
            law_coordinates_are_positions((a, b, c, d), shape@);
            let (s1, s2, s3) = (shape@[1] as int, shape@[2] as int, shape@[3] as int);
            assert(a * (s1 * (s2 * s3)) + b * (s2 * s3) + c * s3 + d * 1 == ((a * s1 + b) * s2 + c)
                * s3 + d) by (nonlinear_arith);
        }
        assert forall|a: int, b: int, c: int, d: int| #[trigger]
            tensor.contains(a, b, c, d) implies 0 <= tensor.offset(a, b, c, d) < data@.len() by {
            assert(in_shape((a, b, c, d), shape@));
        }
        assert forall|a: int, b: int, c: int, d: int| in_shape((a, b, c, d), shape@) implies
            #[trigger] tensor.at(a, b, c, d) == data@[linear_position((a, b, c, d), shape@)] by {
            assert(tensor.offset(a, b, c, d) == linear_position((a, b, c, d), shape@));
        }
    }
    tensor
}

/// The strides of a tensor with elements are no larger than the number of elements.
proof fn lemma_stride_bounds(n: int, c: int, h: int, w: int)
    requires
        0 <= n,
        0 <= c,
        0 <= h,
        0 <= w,
        n * c * h * w > 0,
    ensures
        0 < h * w <= c * (h * w) <= n * c * h * w,
{
    assert(n > 0 && c > 0 && h > 0 && w > 0) by (nonlinear_arith)
        requires
            0 <= n,
            0 <= c,
            0 <= h,
            0 <= w,
            n * c * h * w > 0,
    ;
    let plane = h * w;
    assert(0 < plane) by (nonlinear_arith)
        requires
            h > 0,
            w > 0,
            plane == h * w,
    ;
    assert(plane <= c * plane <= n * (c * plane)) by (nonlinear_arith)
        requires
            plane > 0,
            c > 0,
            n > 0,
    ;
    assert(n * (c * (h * w)) == n * c * h * w) by (nonlinear_arith);
}

/// The element at coordinates `(a, b, c, d)` is the one at position `((a * B + b) * C + c) * D + d`
/// of a tensor of shape `[A, B, C, D]`, and the tensor has `A * B * C * D` of them.
pub proof fn law_the_last_dimension_runs_fastest(
    a: int,
    b: int,
    c: int,
    d: int,
    shape: Seq<usize>,
)
    requires
        shape.len() == 4,
        0 <= a < shape[0],
        0 <= b < shape[1],
        0 <= c < shape[2],
        0 <= d < shape[3],
    ensures
        ({
            let there = ((a * shape[1] + b) * shape[2] + c) * shape[3] + d;
            &&& linear_position((a, b, c, d), shape) == there
            &&& coordinates(there, shape) == (a, b, c, d)
            &&& 0 <= there < shape[0] * shape[1] * shape[2] * shape[3]
            &&& element_count(shape) == shape[0] * shape[1] * shape[2] * shape[3]
            &&& in_shape((a, b, c, d), shape)
        }),
{
    law_coordinates_are_positions((a, b, c, d), shape);
}

} // verus!
