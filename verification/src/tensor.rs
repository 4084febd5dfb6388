//! Tensors as the kernels and the launchers see them.
use crate::dtype::DType;
use vstd::prelude::*;

verus! {

/// What a launcher knows of a tensor on a device: its shape, its strides and the type of its
/// elements.
pub struct TensorDesc {
    pub shape: Vec<usize>,
    pub strides: Vec<usize>,
    pub dtype: DType,
}

/// The mathematical content of a [`TensorDesc`].
#[verifier::ext_equal]
pub struct TensorModel {
    pub shape: Seq<usize>,
    pub strides: Seq<usize>,
    pub dtype: DType,
}

impl View for TensorDesc {
    type V = TensorModel;

    open spec fn view(&self) -> TensorModel {
        TensorModel { shape: self.shape@, strides: self.strides@, dtype: self.dtype }
    }
}

impl Clone for TensorDesc {
    fn clone(&self) -> (r: TensorDesc)
        ensures
            r@ == self@,
            r.shape@ == self.shape@,
            r.strides@ == self.strides@,
            r.dtype == self.dtype,
    {
        TensorDesc {
            shape: self.shape.clone(),
            strides: self.strides.clone(),
            dtype: self.dtype,
        }
    }
}

/// The content of a tensor that may be missing.
pub open spec fn optional_model(tensor: Option<TensorDesc>) -> Option<TensorModel> {
    match tensor {
        Some(tensor) => Some(tensor@),
        None => None,
    }
}

/// Another description of the same tensor, where there is one.
pub fn clone_optional(tensor: &Option<TensorDesc>) -> (r: Option<TensorDesc>)
    ensures
        optional_model(r) == optional_model(*tensor),
        r is Some <==> tensor is Some,
        tensor is Some ==> {
            &&& r->0.shape@ == tensor->0.shape@
            &&& r->0.strides@ == tensor->0.strides@
            &&& r->0.dtype == tensor->0.dtype
        },
{
    match tensor {
        Some(tensor) => Some(tensor.clone()),
        None => None,
    }
}

/// A tensor with four dimensions in memory: where an element lies is the sum of its coordinates
/// weighed by the strides.
pub struct StridedTensor<E> {
    pub data: Vec<E>,
    pub shape: [usize; 4],
    pub strides: [usize; 4],
}

impl<E> StridedTensor<E> {
    /// Whether the coordinates name an element.
    pub open spec fn contains(&self, a: int, b: int, c: int, d: int) -> bool {
        &&& 0 <= a < self.shape@[0]
        &&& 0 <= b < self.shape@[1]
        &&& 0 <= c < self.shape@[2]
        &&& 0 <= d < self.shape@[3]
    }

    /// Where the element at these coordinates lies.
    pub open spec fn offset(&self, a: int, b: int, c: int, d: int) -> int {
        a * self.strides@[0] + b * self.strides@[1] + c * self.strides@[2] + d * self.strides@[3]
    }

    /// The element at these coordinates.
    pub open spec fn at(&self, a: int, b: int, c: int, d: int) -> E {
        self.data@[self.offset(a, b, c, d)]
    }

    /// Every element lies inside the memory.
    pub open spec fn wf(&self) -> bool {
        forall|a: int, b: int, c: int, d: int|
            self.contains(a, b, c, d) ==> 0 <= #[trigger] self.offset(a, b, c, d) < self.data@.len()
    }
}

/// The view of a description is what it describes.
pub proof fn law_view_holds_the_description(tensor: TensorDesc)
    ensures
        tensor@.shape == tensor.shape@,
        tensor@.strides == tensor.strides@,
        tensor@.dtype == tensor.dtype,
{
}

/// An element lies where its coordinates, each times the stride of its dimension, add up to, and
/// the coordinates that name one are those below the sizes.
pub proof fn law_elements_lie_at_their_strides<E>(
    tensor: &StridedTensor<E>,
    a: int,
    b: int,
    c: int,
    d: int,
)
    ensures
        tensor.at(a, b, c, d) == tensor.data@[a * tensor.strides@[0] + b * tensor.strides@[1] + c
            * tensor.strides@[2] + d * tensor.strides@[3]],
        tensor.contains(a, b, c, d) <==> 0 <= a < tensor.shape@[0] && 0 <= b < tensor.shape@[1] && 0
            <= c < tensor.shape@[2] && 0 <= d < tensor.shape@[3],
{
}

} // verus!
