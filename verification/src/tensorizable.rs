//! Conversion of nested containers into tensors.

use crate::error::TensorError;
use crate::memory::allocator::Global;
use crate::memory::buffer::buildable;
use crate::memory::policy::{AlignmentStrategy, SimdAlignment, Target};
use crate::shape::{product, Shape};
use crate::storage::Storage;
use crate::tensor::Tensor;
use std::rc::Rc;
use vstd::layout::align_of;
use vstd::prelude::*;

verus! {

/// The elements of the rows, row after row.
pub open spec fn flat2<T>(rows: Seq<Vec<T>>) -> Seq<T>
    decreases rows.len(),
{
    if rows.len() == 0 {
        Seq::empty()
    } else {
        flat2(rows.drop_last()) + rows.last()@
    }
}

/// The elements of the planes, plane after plane, each row after row.
pub open spec fn flat3<T>(planes: Seq<Vec<Vec<T>>>) -> Seq<T>
    decreases planes.len(),
{
    if planes.len() == 0 {
        Seq::empty()
    } else {
        flat3(planes.drop_last()) + flat2(planes.last()@)
    }
}

/// The length of the first row, 0 where there is none.
pub open spec fn width<T>(rows: Seq<Vec<T>>) -> nat {
    if rows.len() == 0 {
        0
    } else {
        rows[0]@.len()
    }
}

/// Every row has `columns` elements.
pub open spec fn rows_have<T>(rows: Seq<Vec<T>>, columns: nat) -> bool {
    forall|i: int| 0 <= i < rows.len() ==> (#[trigger] rows[i])@.len() == columns
}

/// Row `i` is the first that has not `columns` elements.
pub open spec fn first_ragged_row<T>(rows: Seq<Vec<T>>, columns: nat, i: int) -> bool {
    &&& 0 <= i < rows.len()
    &&& rows[i]@.len() != columns
    &&& rows_have(rows.take(i), columns)
}

/// The plane has `rows` rows of `columns` elements each.
pub open spec fn plane_has<T>(plane: Vec<Vec<T>>, rows: nat, columns: nat) -> bool {
    plane@.len() == rows && rows_have(plane@, columns)
}

/// Every plane has `rows` rows of `columns` elements each.
pub open spec fn planes_have<T>(planes: Seq<Vec<Vec<T>>>, rows: nat, columns: nat) -> bool {
    forall|p: int| 0 <= p < planes.len() ==> plane_has(#[trigger] planes[p], rows, columns)
}

/// The number of rows of the first plane, 0 where there is none.
pub open spec fn height<T>(planes: Seq<Vec<Vec<T>>>) -> nat {
    if planes.len() == 0 {
        0
    } else {
        planes[0]@.len()
    }
}

/// The length of the first row of the first plane, 0 where there is none.
pub open spec fn depth<T>(planes: Seq<Vec<Vec<T>>>) -> nat {
    if planes.len() == 0 {
        0
    } else {
        width(planes[0]@)
    }
}

/// The extents that the first fault of `planes` shows in place of
/// `[planes.len(), rows, columns]`: plane `p` is the first that has not the
/// expected form; it has another number of rows, or its row `r` is the first
/// of another length.
pub open spec fn fault_3d<T>(
    planes: Seq<Vec<Vec<T>>>,
    rows: nat,
    columns: nat,
    received: Seq<usize>,
) -> bool {
    exists|p: int|
        {
            &&& 0 <= p < planes.len()
            &&& planes_have(planes.take(p), rows, columns)
            &&& #[trigger] planes[p]@.len() != rows ==> received == seq![
                planes.len() as usize,
                planes[p]@.len() as usize,
                columns as usize,
            ]
            &&& planes[p]@.len() == rows ==> exists|r: int|
                first_ragged_row(planes[p]@, columns, r) && received == seq![
                    planes.len() as usize,
                    rows as usize,
                    (#[trigger] planes[p]@[r])@.len() as usize,
                ]
        }
}

/// Regular rows of `columns` elements hold `rows.len() * columns` elements.
pub proof fn lemma_flat2_len<T>(rows: Seq<Vec<T>>, columns: nat)
    requires
        rows_have(rows, columns),
    ensures
        flat2(rows).len() == rows.len() * columns,
    decreases rows.len(),
{
    if rows.len() > 0 {
        lemma_flat2_len(rows.drop_last(), columns);
        assert((rows.len() - 1) * columns + columns == rows.len() * columns) by (nonlinear_arith);
    } else {
        assert(rows.len() * columns == 0) by (nonlinear_arith)
            requires
                rows.len() == 0,
        ;
    }
}

/// Regular planes of `rows` rows of `columns` elements hold
/// `planes.len() * rows * columns` elements.
pub proof fn lemma_flat3_len<T>(planes: Seq<Vec<Vec<T>>>, rows: nat, columns: nat)
    requires
        planes_have(planes, rows, columns),
    ensures
        flat3(planes).len() == planes.len() * (rows * columns),
    decreases planes.len(),
{
    if planes.len() > 0 {
        lemma_flat3_len(planes.drop_last(), rows, columns);
        lemma_flat2_len(planes.last()@, columns);
        assert((planes.len() - 1) * (rows * columns) + rows * columns == planes.len() * (rows
            * columns)) by (nonlinear_arith);
    } else {
        assert(planes.len() * (rows * columns) == 0) by (nonlinear_arith)
            requires
                planes.len() == 0,
        ;
    }
}

/// The product of one extent is that extent.
proof fn lemma_product_one(a: usize)
    ensures
        product(seq![a]) == a,
{
    assert(seq![a].skip(1) =~= Seq::<usize>::empty());
    assert(product(seq![a]) == a as nat * product(seq![a].skip(1)));
    assert(a as nat * 1 == a) by (nonlinear_arith);
}

/// The product of one, two and three extents.
pub proof fn lemma_product_small(a: usize, b: usize, c: usize)
    ensures
        product(seq![a]) == a,
        product(seq![a, b]) == a * b,
        product(seq![a, b, c]) == a * (b * c),
{
    lemma_product_one(a);
    lemma_product_one(b);
    lemma_product_one(c);
    assert(seq![a, b].skip(1) =~= seq![b]);
    assert(seq![b, c].skip(1) =~= seq![c]);
    assert(seq![a, b, c].skip(1) =~= seq![b, c]);
    assert(product(seq![a, b, c]) == a as nat * product(seq![a, b, c].skip(1)));
}

/// What a tensor made of data is: it holds the elements of the data in
/// row-major order under the extents of the data, and has no gradient.
pub open spec fn holds<T>(tensor: Tensor<T>, elements: Seq<T>, extents: Seq<usize>) -> bool {
    &&& tensor.wf()
    &&& tensor@ == elements
    &&& tensor.spec_storage().written() == elements
    &&& tensor.spec_shape()@ == extents
    &&& !tensor.spec_requires_grad()
    &&& tensor.spec_grad() is None
}

/// Data that can be made into a tensor.
pub trait Tensorizable<T>: Sized {
    /// The elements, in row-major order.
    spec fn elements(&self) -> Seq<T>;

    /// The extents of the data, outermost first.
    spec fn extents(&self) -> Seq<usize>;

    /// Whether all parts of one level have the same length.
    spec fn regular(&self) -> bool;

    /// Whether data that is not regular is reported with these extents:
    /// those that were expected, and those of the first part that has
    /// another length.
    spec fn fault(&self, expected: Seq<usize>, received: Seq<usize>) -> bool;

    /// The tensor of the elements, moved out of the data, under its extents.
    /// Data that is not regular is an error; so is a failure of the
    /// allocator.
    fn to_tensor(self, target: Target) -> (r: Result<Tensor<T>, TensorError>)
        requires
            self.regular() ==> buildable::<T>(
                self.elements().len(),
                SimdAlignment::spec_alignment(target, align_of::<T>()),
            ),
        ensures
            !self.regular() ==> (r matches Err(
                TensorError::InconsistentDims { expected, received },
            ) && self.fault(expected@, received@)),
            self.regular() ==> (r matches Ok(tensor) ==> holds(
                tensor,
                self.elements(),
                self.extents(),
            )),
            self.regular() ==> (r matches Err(e) ==> e is Memory),
    ;
}

/// The tensor of `elements` under the extents `dims`, whose product is the
/// number of elements.
fn assemble<T>(elements: Vec<T>, dims: Vec<usize>, target: Target) -> (r: Result<
    Tensor<T>,
    TensorError,
>)
    requires
        product(dims@) == elements@.len(),
        buildable::<T>(elements@.len(), SimdAlignment::spec_alignment(target, align_of::<T>())),
    ensures
        r matches Ok(tensor) ==> holds(tensor, elements@, dims@),
        r matches Err(e) ==> e is Memory,
{
    let shape = Shape::from(dims.as_slice());
    let numel = elements.len();
    let alloc = Rc::new(Global);
    match Storage::from_vec(numel, elements, target, &alloc) {
        Ok(storage) => Ok(Tensor::from_raw(storage, shape, false, None)),
        Err(e) => Err(e),
    }
}

impl<T> Tensorizable<T> for Vec<T> {
    open spec fn elements(&self) -> Seq<T> {
        self@
    }

    open spec fn extents(&self) -> Seq<usize> {
        seq![self@.len() as usize]
    }

    open spec fn regular(&self) -> bool {
        true
    }

    open spec fn fault(&self, expected: Seq<usize>, received: Seq<usize>) -> bool {
        false
    }

    fn to_tensor(self, target: Target) -> (r: Result<Tensor<T>, TensorError>) {
        let dims: Vec<usize> = vec![self.len()];
        proof {
            lemma_product_small(self.len(), 0, 0);
            assert(dims@ =~= seq![self@.len() as usize]);
        }
        assemble(self, dims, target)
    }
}

/// Moves the elements of the rows, row after row, into one vector.
pub fn flatten2<T>(rows: Vec<Vec<T>>) -> (elements: Vec<T>)
    ensures
        elements@ == flat2(rows@),
{
    let mut rows = rows;
    let ghost all = rows@;
    let mut elements: Vec<T> = Vec::new();
    let mut i: usize = 0;
    while i < rows.len()
        invariant
            i <= rows@.len(),
            rows@.len() == all.len(),
            forall|j: int| i <= j < all.len() ==> rows@[j] == all[j],
            elements@ == flat2(all.take(i as int)),
        decreases rows@.len() - i,
    {
        let mut row: Vec<T> = Vec::new();
        core::mem::swap(&mut rows[i], &mut row);
        elements.append(&mut row);
        proof {
            assert(all.take(i + 1).drop_last() =~= all.take(i as int));
        }
        i += 1;
    }
    assert(all.take(i as int) =~= all);
    elements
}

/// Moves the elements of the planes, plane after plane, into one vector.
pub fn flatten3<T>(planes: Vec<Vec<Vec<T>>>) -> (elements: Vec<T>)
    ensures
        elements@ == flat3(planes@),
{
    let mut planes = planes;
    let ghost all = planes@;
    let mut elements: Vec<T> = Vec::new();
    let mut p: usize = 0;
    while p < planes.len()
        invariant
            p <= planes@.len(),
            planes@.len() == all.len(),
            forall|j: int| p <= j < all.len() ==> planes@[j] == all[j],
            elements@ == flat3(all.take(p as int)),
        decreases planes@.len() - p,
    {
        let mut plane: Vec<Vec<T>> = Vec::new();
        core::mem::swap(&mut planes[p], &mut plane);
        let mut part = flatten2(plane);
        elements.append(&mut part);
        proof {
            assert(all.take(p + 1).drop_last() =~= all.take(p as int));
        }
        p += 1;
    }
    assert(all.take(p as int) =~= all);
    elements
}

/// The index of the first row that has not `columns` elements, if there is
/// one.
pub fn find_ragged_row<T>(rows: &[Vec<T>], columns: usize) -> (found: Option<usize>)
    ensures
        found is None <==> rows_have(rows@, columns as nat),
        found matches Some(i) ==> first_ragged_row(rows@, columns as nat, i as int),
{
    let mut i: usize = 0;
    while i < rows.len()
        invariant
            i <= rows@.len(),
            rows_have(rows@.take(i as int), columns as nat),
        decreases rows@.len() - i,
    {
        if rows[i].len() != columns {
            return Some(i);
        }
        i += 1;
    }
    assert(rows@.take(i as int) =~= rows@);
    None
}

impl<T> Tensorizable<T> for Vec<Vec<T>> {
    open spec fn elements(&self) -> Seq<T> {
        flat2(self@)
    }

    open spec fn extents(&self) -> Seq<usize> {
        seq![self@.len() as usize, width(self@) as usize]
    }

    open spec fn regular(&self) -> bool {
        rows_have(self@, width(self@))
    }

    open spec fn fault(&self, expected: Seq<usize>, received: Seq<usize>) -> bool {
        &&& expected == seq![self@.len() as usize, width(self@) as usize]
        &&& exists|i: int|
            first_ragged_row(self@, width(self@), i) && received == seq![
                self@.len() as usize,
                (#[trigger] self@[i])@.len() as usize,
            ]
    }

    fn to_tensor(self, target: Target) -> (r: Result<Tensor<T>, TensorError>) {
        let dim0 = self.len();
        let dim1 = if dim0 == 0 {
            0
        } else {
            self[0].len()
        };
        match find_ragged_row(self.as_slice(), dim1) {
            Some(i) => {
                let expected: Vec<usize> = vec![dim0, dim1];
                let received: Vec<usize> = vec![dim0, self[i].len()];
                Err(TensorError::inconsistent(expected.as_slice(), received.as_slice()))
            },
            None => {
                let dims: Vec<usize> = vec![dim0, dim1];
                proof {
                    lemma_flat2_len(self@, dim1 as nat);
                    lemma_product_small(dim0, dim1, 0);
                }
                let elements = flatten2(self);
                assemble(elements, dims, target)
            },
        }
    }
}

/// The extents of `data`, where every plane has the rows of the first and
/// every row the length of the first row; else the extents that were expected
/// and those of the first part that has another length.
pub fn check_vec_3d<T>(data: &[Vec<Vec<T>>]) -> (r: Result<Shape, TensorError>)
    ensures
        planes_have(data@, height(data@), depth(data@)) ==> (r matches Ok(shape) && shape@
            == seq![data@.len() as usize, height(data@) as usize, depth(data@) as usize]),
        !planes_have(data@, height(data@), depth(data@)) ==> (r matches Err(
            TensorError::InconsistentDims { expected, received },
        ) && expected@ == seq![data@.len() as usize, height(data@) as usize, depth(data@) as usize]
            && fault_3d(data@, height(data@), depth(data@), received@)),
{
    if data.len() == 0 {
        let dims: Vec<usize> = vec![0, 0, 0];
        let shape = Shape::from(dims.as_slice());
        return Ok(shape);
    }
    let planes = data.len();
    let expected_rows = data[0].len();
    let expected_columns = if expected_rows == 0 {
        0
    } else {
        data[0][0].len()
    };
    let mut p: usize = 0;
    while p < planes
        invariant
            p <= planes,
            planes == data@.len(),
            expected_rows == height(data@),
            expected_columns == depth(data@),
            planes_have(data@.take(p as int), expected_rows as nat, expected_columns as nat),
        decreases planes - p,
    {
        let plane = &data[p];
        let actual_rows = plane.len();
        if actual_rows != expected_rows {
            let expected: Vec<usize> = vec![planes, expected_rows, expected_columns];
            let received: Vec<usize> = vec![planes, actual_rows, expected_columns];
            return Err(TensorError::inconsistent(expected.as_slice(), received.as_slice()));
        }
        match find_ragged_row(plane.as_slice(), expected_columns) {
            Some(row) => {
                let actual_columns = plane[row].len();
                let expected: Vec<usize> = vec![planes, expected_rows, expected_columns];
                let received: Vec<usize> = vec![planes, actual_rows, actual_columns];
                proof {
                    assert(!plane_has(
                        data@[p as int],
                        expected_rows as nat,
                        expected_columns as nat,
                    ));
                    assert(fault_3d(
                        data@,
                        expected_rows as nat,
                        expected_columns as nat,
                        received@,
                    ));
                }
                return Err(TensorError::inconsistent(expected.as_slice(), received.as_slice()));
            },
            None => {},
        }
        p += 1;
    }
    assert(data@.take(p as int) =~= data@);
    let dims: Vec<usize> = vec![planes, expected_rows, expected_columns];
    let shape = Shape::from(dims.as_slice());
    Ok(shape)
}

impl<T> Tensorizable<T> for Vec<Vec<Vec<T>>> {
    open spec fn elements(&self) -> Seq<T> {
        flat3(self@)
    }

    open spec fn extents(&self) -> Seq<usize> {
        seq![self@.len() as usize, height(self@) as usize, depth(self@) as usize]
    }

    open spec fn regular(&self) -> bool {
        planes_have(self@, height(self@), depth(self@))
    }

    open spec fn fault(&self, expected: Seq<usize>, received: Seq<usize>) -> bool {
        &&& expected == seq![self@.len() as usize, height(self@) as usize, depth(self@) as usize]
        &&& fault_3d(self@, height(self@), depth(self@), received)
    }

    fn to_tensor(self, target: Target) -> (r: Result<Tensor<T>, TensorError>) {
        let shape = match check_vec_3d(self.as_slice()) {
            Ok(shape) => shape,
            Err(e) => {
                return Err(e);
            },
        };
        proof {
            if self@.len() > 0 {
                assert(self@[0]@.len() == self@[0].len());
            }
            lemma_flat3_len(self@, height(self@), depth(self@));
            lemma_product_small(
                self@.len() as usize,
                height(self@) as usize,
                depth(self@) as usize,
            );
        }
        let elements = flatten3(self);
        let numel = elements.len();
        let alloc = Rc::new(Global);
        match Storage::from_vec(numel, elements, target, &alloc) {
            Ok(storage) => Ok(Tensor::from_raw(storage, shape, false, None)),
            Err(e) => Err(e),
        }
    }
}

/// `Vec::from` for an array: the vector of the array's elements, moved, in
/// their order.
#[verifier::external_body]
fn array_into_vec<T, const N: usize>(array: [T; N]) -> (elements: Vec<T>)
    ensures
        elements@ == array@,
{
    Vec::from(array)
}

/// The elements of rows of a fixed length, row after row.
pub open spec fn flat2_arrays<T, const N: usize>(rows: Seq<[T; N]>) -> Seq<T>
    decreases rows.len(),
{
    if rows.len() == 0 {
        Seq::empty()
    } else {
        flat2_arrays(rows.drop_last()) + rows.last()@
    }
}

/// The elements of planes of a fixed form, plane after plane, each row
/// after row.
pub open spec fn flat3_arrays<T, const N1: usize, const N2: usize>(
    planes: Seq<[[T; N2]; N1]>,
) -> Seq<T>
    decreases planes.len(),
{
    if planes.len() == 0 {
        Seq::empty()
    } else {
        flat3_arrays(planes.drop_last()) + flat2_arrays(planes.last()@)
    }
}

/// Each of the rows holds what the array at its place holds.
pub open spec fn rows_match<T, const N: usize>(rows: Seq<Vec<T>>, arrays: Seq<[T; N]>) -> bool {
    &&& rows.len() == arrays.len()
    &&& forall|i: int| 0 <= i < rows.len() ==> (#[trigger] rows[i])@ == arrays[i]@
}

/// Each of the planes holds, row by row, what the array at its place holds.
pub open spec fn planes_match<T, const N1: usize, const N2: usize>(
    planes: Seq<Vec<Vec<T>>>,
    arrays: Seq<[[T; N2]; N1]>,
) -> bool {
    &&& planes.len() == arrays.len()
    &&& forall|p: int| 0 <= p < planes.len() ==> rows_match((#[trigger] planes[p])@, arrays[p]@)
}

/// Rows that hold what arrays hold have the same elements as these, and each
/// has the length of an array.
pub proof fn lemma_rows_match<T, const N: usize>(rows: Seq<Vec<T>>, arrays: Seq<[T; N]>)
    requires
        rows_match(rows, arrays),
    ensures
        flat2(rows) == flat2_arrays(arrays),
        rows_have(rows, N as nat),
    decreases rows.len(),
{
    if rows.len() > 0 {
        lemma_rows_match(rows.drop_last(), arrays.drop_last());
    }
}

/// Planes that hold what arrays hold have the same elements as these, and
/// each has the form of an array.
pub proof fn lemma_planes_match<T, const N1: usize, const N2: usize>(
    planes: Seq<Vec<Vec<T>>>,
    arrays: Seq<[[T; N2]; N1]>,
)
    requires
        planes_match(planes, arrays),
    ensures
        flat3(planes) == flat3_arrays(arrays),
        planes_have(planes, N1 as nat, N2 as nat),
    decreases planes.len(),
{
    if planes.len() > 0 {
        lemma_planes_match(planes.drop_last(), arrays.drop_last());
        lemma_rows_match(planes.last()@, arrays.last()@);
    }
    assert forall|p: int| 0 <= p < planes.len() implies plane_has(
        #[trigger] planes[p],
        N1 as nat,
        N2 as nat,
    ) by {
        lemma_rows_match(planes[p]@, arrays[p]@);
    }
}

/// Moves the elements of each array into a vector of its own.
fn rows_into_vecs<T, const N: usize>(arrays: Vec<[T; N]>) -> (rows: Vec<Vec<T>>)
    ensures
        rows_match(rows@, arrays@),
{
    let mut arrays = arrays;
    let ghost all = arrays@;
    let mut reversed: Vec<Vec<T>> = Vec::new();
    while arrays.len() > 0
        invariant
            arrays@.len() <= all.len(),
            arrays@ == all.take(arrays@.len() as int),
            reversed@.len() == all.len() - arrays@.len(),
            forall|j: int|
                0 <= j < reversed@.len() ==> (#[trigger] reversed@[j])@ == all[all.len() - 1 - j]@,
        decreases arrays@.len(),
    {
        match arrays.pop() {
            Some(array) => {
                reversed.push(array_into_vec(array));
            },
            None => {},
        }
    }
    let mut rows: Vec<Vec<T>> = Vec::new();
    let ghost turned = reversed@;
    while reversed.len() > 0
        invariant
            turned.len() == all.len(),
            forall|j: int|
                0 <= j < turned.len() ==> (#[trigger] turned[j])@ == all[all.len() - 1 - j]@,
            reversed@.len() <= turned.len(),
            reversed@ == turned.take(reversed@.len() as int),
            rows@.len() == turned.len() - reversed@.len(),
            forall|j: int| 0 <= j < rows@.len() ==> (#[trigger] rows@[j])@ == all[j]@,
        decreases reversed@.len(),
    {
        match reversed.pop() {
            Some(row) => {
                rows.push(row);
            },
            None => {},
        }
    }
    rows
}

/// Moves the elements of each array of arrays into a vector of vectors.
fn planes_into_vecs<T, const N1: usize, const N2: usize>(arrays: Vec<[[T; N2]; N1]>) -> (planes:
    Vec<Vec<Vec<T>>>)
    ensures
        planes_match(planes@, arrays@),
{
    let mut arrays = arrays;
    let ghost all = arrays@;
    let mut reversed: Vec<Vec<Vec<T>>> = Vec::new();
    while arrays.len() > 0
        invariant
            arrays@.len() <= all.len(),
            arrays@ == all.take(arrays@.len() as int),
            reversed@.len() == all.len() - arrays@.len(),
            forall|j: int|
                0 <= j < reversed@.len() ==> rows_match(
                    (#[trigger] reversed@[j])@,
                    all[all.len() - 1 - j]@,
                ),
        decreases arrays@.len(),
    {
        match arrays.pop() {
            Some(array) => {
                reversed.push(rows_into_vecs(array_into_vec(array)));
            },
            None => {},
        }
    }
    let mut planes: Vec<Vec<Vec<T>>> = Vec::new();
    let ghost turned = reversed@;
    while reversed.len() > 0
        invariant
            turned.len() == all.len(),
            forall|j: int|
                0 <= j < turned.len() ==> rows_match(
                    (#[trigger] turned[j])@,
                    all[all.len() - 1 - j]@,
                ),
            reversed@.len() <= turned.len(),
            reversed@ == turned.take(reversed@.len() as int),
            planes@.len() == turned.len() - reversed@.len(),
            forall|j: int| 0 <= j < planes@.len() ==> rows_match((#[trigger] planes@[j])@, all[j]@),
        decreases reversed@.len(),
    {
        match reversed.pop() {
            Some(plane) => {
                planes.push(plane);
            },
            None => {},
        }
    }
    planes
}

impl<T, const N: usize> Tensorizable<T> for [T; N] {
    open spec fn elements(&self) -> Seq<T> {
        self@
    }

    open spec fn extents(&self) -> Seq<usize> {
        seq![N]
    }

    open spec fn regular(&self) -> bool {
        true
    }

    open spec fn fault(&self, expected: Seq<usize>, received: Seq<usize>) -> bool {
        false
    }

    fn to_tensor(self, target: Target) -> (r: Result<Tensor<T>, TensorError>) {
        let dims: Vec<usize> = vec![N];
        proof {
            lemma_product_small(N, 0, 0);
            assert(dims@ =~= seq![N]);
        }
        assemble(array_into_vec(self), dims, target)
    }
}

impl<T, const N0: usize, const N1: usize> Tensorizable<T> for [[T; N1]; N0] {
    open spec fn elements(&self) -> Seq<T> {
        flat2_arrays(self@)
    }

    open spec fn extents(&self) -> Seq<usize> {
        seq![N0, N1]
    }

    open spec fn regular(&self) -> bool {
        true
    }

    open spec fn fault(&self, expected: Seq<usize>, received: Seq<usize>) -> bool {
        false
    }

    fn to_tensor(self, target: Target) -> (r: Result<Tensor<T>, TensorError>) {
        let rows = rows_into_vecs(array_into_vec(self));
        let dims: Vec<usize> = vec![N0, N1];
        proof {
            lemma_rows_match(rows@, self@);
            lemma_flat2_len(rows@, N1 as nat);
            lemma_product_small(N0, N1, 0);
        }
        assemble(flatten2(rows), dims, target)
    }
}

impl<T, const N0: usize, const N1: usize, const N2: usize> Tensorizable<T> for [[[T; N2]; N1]; N0] {
    open spec fn elements(&self) -> Seq<T> {
        flat3_arrays(self@)
    }

    open spec fn extents(&self) -> Seq<usize> {
        seq![N0, N1, N2]
    }

    open spec fn regular(&self) -> bool {
        true
    }

    open spec fn fault(&self, expected: Seq<usize>, received: Seq<usize>) -> bool {
        false
    }

    fn to_tensor(self, target: Target) -> (r: Result<Tensor<T>, TensorError>) {
        let planes = planes_into_vecs(array_into_vec(self));
        let dims: Vec<usize> = vec![N0, N1, N2];
        proof {
            lemma_planes_match(planes@, self@);
            lemma_flat3_len(planes@, N1 as nat, N2 as nat);
            lemma_product_small(N0, N1, N2);
        }
        assemble(flatten3(planes), dims, target)
    }
}

} // verus!
