//! Tensors: elements in a [`Storage`], read through a [`Shape`].

use crate::error::TensorError;
use crate::memory::buffer::buildable;
use crate::memory::policy::{AlignmentStrategy, SimdAlignment, Target};
use crate::shape::{in_bounds, lemma_offset_below_product, offset, product, Shape};
use crate::storage::{lemma_len_is_bounded, Storage};
use crate::tensorizable::{holds, Tensorizable};
use vstd::layout::align_of;
use vstd::prelude::*;

verus! {

/// A multi-dimensional array.
///
/// The elements lie in one storage, in row-major order of the shape. A tensor
/// can ask for a gradient, which is then kept in a storage of its own.
#[derive(Debug)]
pub struct Tensor<T> {
    /// The elements.
    storage: Storage<T>,
    /// The extents of the dimensions.
    shape: Shape,
    /// Whether a gradient is to be computed for this tensor.
    requires_grad: bool,
    /// The gradient, once it was computed.
    grad: Option<Storage<T>>,
}

impl<T> Tensor<T> {
    /// The storage that holds the elements.
    pub closed spec fn spec_storage(&self) -> Storage<T> {
        self.storage
    }

    /// The shape.
    pub closed spec fn spec_shape(&self) -> Shape {
        self.shape
    }

    /// Whether a gradient is to be computed.
    pub closed spec fn spec_requires_grad(&self) -> bool {
        self.requires_grad
    }

    /// The storage of the gradient, if there is one.
    pub closed spec fn spec_grad(&self) -> Option<Storage<T>> {
        self.grad
    }

    /// The live elements of the storage, in row-major order.
    pub open spec fn view(&self) -> Seq<T> {
        self.spec_storage()@
    }

    /// The storages are well formed, and the storage of the elements holds as
    /// many live elements as the shape counts.
    pub open spec fn wf(&self) -> bool {
        &&& self.spec_storage().wf()
        &&& self.spec_storage().spec_len() == product(self.spec_shape()@)
        &&& self.spec_grad() matches Some(grad) ==> grad.wf()
    }

    /// The tensor of the elements and extents of `data`.
    pub fn new<D: Tensorizable<T>>(data: D, target: Target) -> (r: Result<Self, TensorError>)
        requires
            data.regular() ==> buildable::<T>(
                data.elements().len(),
                SimdAlignment::spec_alignment(target, align_of::<T>()),
            ),
        ensures
            !data.regular() ==> (r matches Err(
                TensorError::InconsistentDims { expected, received },
            ) && data.fault(expected@, received@)),
            data.regular() ==> (r matches Ok(tensor) ==> holds(
                tensor,
                data.elements(),
                data.extents(),
            )),
            data.regular() ==> (r matches Err(e) ==> e is Memory),
    {
        data.to_tensor(target)
    }

    /// The tensor made of its parts. The caller sees to it that the storage
    /// holds as many live elements as the shape counts.
    pub fn from_raw(
        storage: Storage<T>,
        shape: Shape,
        requires_grad: bool,
        grad: Option<Storage<T>>,
    ) -> (tensor: Self)
        ensures
            tensor.spec_storage() == storage,
            tensor.spec_shape() == shape,
            tensor.spec_requires_grad() == requires_grad,
            tensor.spec_grad() == grad,
    {
        Tensor { storage, shape, requires_grad, grad }
    }

    /// The storage that holds the elements.
    pub fn storage(&self) -> (storage: &Storage<T>)
        ensures
            *storage == self.spec_storage(),
    {
        &self.storage
    }

    /// The shape.
    pub fn shape(&self) -> (shape: &Shape)
        ensures
            *shape == self.spec_shape(),
    {
        &self.shape
    }

    /// Whether a gradient is to be computed for this tensor.
    pub fn requires_grad(&self) -> (flag: bool)
        ensures
            flag == self.spec_requires_grad(),
    {
        self.requires_grad
    }

    /// The storage of the gradient, if it was computed.
    pub fn grad(&self) -> (grad: Option<&Storage<T>>)
        ensures
            grad == (match self.spec_grad() {
                Some(storage) => Some(&storage),
                None => None,
            }),
    {
        self.grad.as_ref()
    }

    /// The number of elements.
    pub fn len(&self) -> (len: usize)
        ensures
            len == self.spec_storage().spec_len(),
    {
        self.storage.len()
    }

    /// The element at `index` of the storage.
    pub fn direct_index(&self, index: usize) -> (element: &T)
        requires
            self.spec_storage().wf(),
            index < self.spec_storage().spec_len(),
        ensures
            *element == self@[index as int],
    {
        self.storage.direct_read(index)
    }

    /// Writes `val` at `index` of the storage. The value that was there is
    /// given up without being destroyed.
    pub fn direct_write(&mut self, index: usize, val: T)
        requires
            old(self).spec_storage().wf(),
            index < old(self).spec_storage().spec_len(),
        ensures
            final(self).spec_storage().wf(),
            final(self).spec_shape() == old(self).spec_shape(),
            final(self).spec_requires_grad() == old(self).spec_requires_grad(),
            final(self).spec_grad() == old(self).spec_grad(),
            final(self).spec_storage().spec_len() == old(self).spec_storage().spec_len(),
            final(self)@ == old(self)@.update(index as int, val),
    {
        self.storage.direct_write(index, val);
    }

    /// The element at the position `index`, which has one index for each
    /// dimension.
    pub fn index(&self, index: &[usize]) -> (element: &T)
        requires
            self.wf(),
            in_bounds(self.spec_shape()@, index@),
        ensures
            *element == self@[offset(self.spec_shape()@, index@) as int],
    {
        proof {
            lemma_offset_below_product(self.spec_shape()@, index@);
            lemma_len_is_bounded(self.spec_storage());
        }
        let at = self.shape.linear_index(index);
        self.storage.direct_read(at)
    }

    /// The element at the position `index`, for changing it.
    pub fn index_mut(&mut self, index: &[usize]) -> (element: &mut T)
        requires
            old(self).wf(),
            in_bounds(old(self).spec_shape()@, index@),
        ensures
            *element == old(self)@[offset(old(self).spec_shape()@, index@) as int],
            final(self).spec_shape() == old(self).spec_shape(),
            final(self).spec_requires_grad() == old(self).spec_requires_grad(),
            final(self).spec_grad() == old(self).spec_grad(),
            final(self).wf(),
            final(self)@ == old(self)@.update(
                offset(old(self).spec_shape()@, index@) as int,
                *final(element),
            ),
    {
        proof {
            lemma_offset_below_product(self.spec_shape()@, index@);
            lemma_len_is_bounded(self.spec_storage());
        }
        let at = self.shape.linear_index(index);
        self.storage.direct_mut(at)
    }
}

} // verus!
