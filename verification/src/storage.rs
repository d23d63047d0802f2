//! Partially initialised storage for the elements of a tensor.
//!
//! A [`Storage`] owns a [`Buffer`] and the values of its slots, and counts how
//! many slots, from slot 0 on, hold a live element. The buffer is the raw
//! side: the region, its address and its layout. The values are the typed
//! side: one cell for each slot that was written. Only the storage constructs
//! and destroys elements.
//!
//! The count starts at 0. It grows by one with each
//! [`Storage::write_unchecked`], is set by [`Storage::assume_init`] after
//! values were written raw with [`Storage::direct_write`], and falls back to 0
//! with [`Storage::clear`]. A storage is given up with [`Storage::destroy`],
//! which destroys the live elements and gives the region back.

use crate::error::TensorError;
use crate::memory::allocator::{Allocator, Global};
use crate::memory::buffer::{buildable, fresh, Buffer, BufferBuilder};
use crate::memory::policy::{AlignmentStrategy, SimdAlignment, Target, Uninitialized};
use std::rc::Rc;
use vstd::layout::align_of;
use vstd::prelude::*;

verus! {

/// `core::mem::forget`: takes the value and never runs its destructor.
pub assume_specification<T>[ core::mem::forget::<T> ](t: T)
;

/// `IndexMut` of `Vec` with the range `..n`: the mutable slice of the first
/// `n` elements. A slice cannot grow or shrink under a reference to it, so
/// when the borrow ends the vector holds what the slice then holds, followed
/// by the elements from `n` on, which the borrow did not reach.
#[verifier::external_body]
fn prefix_mut<T>(cells: &mut Vec<T>, n: usize) -> (prefix: &mut [T])
    requires
        n <= old(cells)@.len(),
    ensures
        prefix@ == old(cells)@.take(n as int),
        final(prefix)@.len() == n,
        final(cells)@ == final(prefix)@ + old(cells)@.skip(n as int),
{
    &mut cells[..n]
}

/// A buffer together with the count of its live elements.
///
/// The slots `0 .. len()` hold live elements: they can be read and changed,
/// and they are destroyed by [`Storage::clear`] and [`Storage::destroy`].
/// Slots behind them may hold a value that was written raw and is not counted
/// yet; such a value is never read as an element and never destroyed.
#[derive(Debug)]
pub struct Storage<T, A: Allocator = Global> {
    /// The raw region that backs the elements.
    buffer: Buffer<T, A>,
    /// The values that were written, slot by slot from slot 0.
    cells: Vec<T>,
    /// The number of slots, from slot 0 on, that hold a live element.
    init: usize,
}

impl<T, A: Allocator> Storage<T, A> {
    /// The buffer that backs the storage.
    pub closed spec fn buffer(&self) -> Buffer<T, A> {
        self.buffer
    }

    /// The values that the slots hold, from slot 0 on, counted as live or not.
    pub closed spec fn written(&self) -> Seq<T> {
        self.cells@
    }

    /// The number of live elements.
    pub closed spec fn spec_len(&self) -> nat {
        self.init as nat
    }

    /// The live elements.
    pub open spec fn view(&self) -> Seq<T> {
        self.written().take(self.spec_len() as int)
    }

    /// The number of elements that the storage was asked for.
    pub open spec fn spec_allocated_len(&self) -> nat {
        self.buffer().spec_numel()
    }

    /// What holds of a storage from its construction to its destruction: the
    /// live elements are among the written ones, and these fit the buffer.
    pub open spec fn wf(&self) -> bool {
        &&& self.buffer().wf()
        &&& self.spec_len() <= self.written().len() <= self.spec_allocated_len()
    }

    /// The element at `index`, if it is live.
    pub open spec fn spec_get(&self, index: int) -> Option<T> {
        if 0 <= index < self.spec_len() {
            Some(self@[index])
        } else {
            None
        }
    }

    /// An empty storage on `buffer`.
    pub fn from_buffer(buffer: Buffer<T, A>) -> (storage: Self)
        requires
            buffer.wf(),
        ensures
            storage.wf(),
            storage.buffer() == buffer,
            storage.spec_len() == 0,
            storage.written() == Seq::<T>::empty(),
    {
        Storage { buffer, cells: Vec::new(), init: 0 }
    }

    /// An empty storage for `numel` elements, on a buffer with the default
    /// policies: aligned for the vector extension of `target`, its region as
    /// `alloc` hands it out.
    pub fn new(numel: usize, target: Target, alloc: &Rc<A>) -> (r: Result<Self, TensorError>)
        requires
            buildable::<T>(numel as nat, SimdAlignment::spec_alignment(target, align_of::<T>())),
        ensures
            r matches Ok(storage) ==> storage.wf() && storage.spec_len() == 0 && storage.written()
                == Seq::<T>::empty() && fresh::<T, A, Uninitialized>(
                storage.buffer(),
                numel as nat,
                SimdAlignment::spec_alignment(target, align_of::<T>()),
                false,
                **alloc,
            ),
            r matches Err(e) ==> e is Memory,
    {
        match BufferBuilder::new(numel, target).build::<T, A>(alloc) {
            Ok(buffer) => Ok(Storage::from_buffer(buffer)),
            Err(e) => Err(e),
        }
    }

    /// A storage on `buffer` whose live elements are `elements`, in order.
    pub fn from_parts(buffer: Buffer<T, A>, elements: Vec<T>) -> (storage: Self)
        requires
            buffer.wf(),
            elements@.len() <= buffer.spec_numel(),
        ensures
            storage.wf(),
            storage.buffer() == buffer,
            storage.spec_len() == elements@.len(),
            storage.written() == elements@,
            storage@ == elements@,
    {
        let init = elements.len();
        Storage { buffer, cells: elements, init }
    }

    /// A storage for `numel` elements that holds the elements of `source`, in
    /// order, all of them live. A source of another length than `numel` is
    /// reported as an error, before any region is asked for.
    pub fn from_vec(numel: usize, source: Vec<T>, target: Target, alloc: &Rc<A>) -> (r: Result<
        Self,
        TensorError,
    >)
        requires
            source@.len() == numel ==> buildable::<T>(
                numel as nat,
                SimdAlignment::spec_alignment(target, align_of::<T>()),
            ),
        ensures
            source@.len() != numel ==> (r matches Err(
                TensorError::InconsistentDims { expected, received },
            ) && expected@ == seq![numel] && received@ == seq![source@.len() as usize]),
            source@.len() == numel ==> (r matches Ok(storage) ==> storage.wf() && storage@
                == source@ && storage.written() == source@ && fresh::<T, A, Uninitialized>(
                storage.buffer(),
                numel as nat,
                SimdAlignment::spec_alignment(target, align_of::<T>()),
                false,
                **alloc,
            )),
            source@.len() == numel ==> (r matches Err(e) ==> e is Memory),
    {
        if source.len() != numel {
            let expected: Vec<usize> = vec![numel];
            let received: Vec<usize> = vec![source.len()];
            return Err(TensorError::inconsistent(expected.as_slice(), received.as_slice()));
        }
        match BufferBuilder::new(numel, target).build::<T, A>(alloc) {
            Ok(buffer) => Ok(Storage::from_parts(buffer, source)),
            Err(e) => Err(e),
        }
    }

    /// The element at `index` if it is live, else nothing.
    pub fn get(&self, index: usize) -> (r: Option<&T>)
        requires
            self.wf(),
        ensures
            r == (match self.spec_get(index as int) {
                Some(element) => Some(&element),
                None => None,
            }),
    {
        if index >= self.init {
            return None;
        }
        Some(&self.cells[index])
    }

    /// The element at `index`, for changing it, if it is live, else nothing.
    pub fn get_mut(&mut self, index: usize) -> (r: Option<&mut T>)
        requires
            old(self).wf(),
        ensures
            final(self).wf(),
            final(self).buffer() == old(self).buffer(),
            final(self).spec_len() == old(self).spec_len(),
            index >= old(self).spec_len() ==> r is None && final(self).written() == old(
                self,
            ).written(),
            index < old(self).spec_len() ==> r is Some && *r.unwrap() == old(self)@[index as int]
                && final(self).written() == old(self).written().update(
                index as int,
                *final(r.unwrap()),
            ) && final(self)@ == old(self)@.update(index as int, *final(r.unwrap())),
    {
        if index >= self.init {
            return None;
        }
        Some(&mut self.cells[index])
    }

    /// The live element at `index`.
    pub fn direct_read(&self, index: usize) -> (element: &T)
        requires
            self.wf(),
            index < self.spec_len(),
        ensures
            *element == self@[index as int],
    {
        &self.cells[index]
    }

    /// The live element at `index`, for changing it.
    pub fn direct_mut(&mut self, index: usize) -> (element: &mut T)
        requires
            old(self).wf(),
            index < old(self).spec_len(),
        ensures
            *element == old(self)@[index as int],
            final(self).wf(),
            final(self).buffer() == old(self).buffer(),
            final(self).spec_len() == old(self).spec_len(),
            final(self).written() == old(self).written().update(index as int, *final(element)),
            final(self)@ == old(self)@.update(index as int, *final(element)),
    {
        &mut self.cells[index]
    }

    /// Writes `value` raw into slot `index`: the counter of live elements
    /// stays as it is, and a value that the slot held is given up without
    /// being destroyed. The slot is one that holds a value, or the first one
    /// that holds none.
    pub fn direct_write(&mut self, index: usize, value: T)
        requires
            old(self).wf(),
            index <= old(self).written().len(),
            index < old(self).spec_allocated_len(),
        ensures
            final(self).wf(),
            final(self).buffer() == old(self).buffer(),
            final(self).spec_len() == old(self).spec_len(),
            final(self).written() == Self::spec_put(old(self).written(), index as int, value),
    {
        if index < self.cells.len() {
            let mut value = value;
            core::mem::swap(&mut self.cells[index], &mut value);
            core::mem::forget(value);
        } else {
            self.cells.push(value);
        }
    }

    /// The slots after `value` was written into slot `index`.
    pub open spec fn spec_put(written: Seq<T>, index: int, value: T) -> Seq<T> {
        if index < written.len() {
            written.update(index, value)
        } else {
            written.push(value)
        }
    }

    /// Constructs `value` in the first slot that is not live, and counts it.
    pub fn write_unchecked(&mut self, value: T)
        requires
            old(self).wf(),
            old(self).spec_len() < old(self).spec_allocated_len(),
        ensures
            final(self).wf(),
            final(self).buffer() == old(self).buffer(),
            final(self).spec_len() == old(self).spec_len() + 1,
            final(self).written() == Self::spec_put(
                old(self).written(),
                old(self).spec_len() as int,
                value,
            ),
            final(self)@ == old(self)@.push(value),
    {
        let slot = self.init;
        self.direct_write(slot, value);
        assert(slot < self.cells.len());
        self.init = slot + 1;
    }

    /// Counts the first `len` slots as live, without constructing anything.
    /// The caller has written each of them before.
    pub fn assume_init(&mut self, len: usize)
        requires
            old(self).wf(),
            len <= old(self).written().len(),
        ensures
            final(self).wf(),
            final(self).buffer() == old(self).buffer(),
            final(self).written() == old(self).written(),
            final(self).spec_len() == len,
    {
        self.init = len;
    }

    /// Destroys the live elements, in ascending order, and counts none as
    /// live. Values that were written and not counted are given up without
    /// being destroyed. The buffer is kept.
    pub fn clear(&mut self)
        requires
            old(self).wf(),
        ensures
            final(self).wf(),
            final(self).buffer() == old(self).buffer(),
            final(self).spec_len() == 0,
            final(self).written() == Seq::<T>::empty(),
    {
        while self.cells.len() > self.init
            invariant
                self.buffer == old(self).buffer,
                self.init == old(self).init,
                self.init <= self.cells@.len() <= old(self).cells@.len(),
            decreases self.cells@.len(),
        {
            match self.cells.pop() {
                Some(uncounted) => core::mem::forget(uncounted),
                None => {},
            }
        }
        self.cells.clear();
        self.init = 0;
    }

    /// The number of slots, from slot 0 on, that hold a value, counted as
    /// live or not.
    pub fn written_len(&self) -> (len: usize)
        ensures
            len == self.written().len(),
    {
        self.cells.len()
    }

    /// The number of live elements.
    pub fn len(&self) -> (len: usize)
        ensures
            len == self.spec_len(),
    {
        self.init
    }

    /// The number of elements that the storage was asked for.
    pub fn allocated_len(&self) -> (numel: usize)
        ensures
            numel == self.spec_allocated_len(),
    {
        self.buffer.numel()
    }

    /// Whether no element is live.
    pub fn is_empty(&self) -> (empty: bool)
        ensures
            empty == (self.spec_len() == 0),
    {
        self.init == 0
    }

    /// The number of elements for which the region has room. Because the
    /// region is rounded up to its alignment, this may exceed
    /// [`Storage::allocated_len`].
    pub fn capacity(&self) -> (capacity: usize)
        requires
            self.wf(),
        ensures
            capacity == self.buffer().spec_layout().spec_size() / vstd::layout::size_of::<T>(),
            capacity >= self.spec_allocated_len(),
    {
        self.buffer.allocated_capacity()
    }

    /// The address of slot 0, for reading.
    pub fn as_ptr(&self) -> (addr: usize)
        requires
            self.wf(),
        ensures
            addr == self.buffer().spec_addr(),
            addr != 0,
            addr as nat % self.buffer().spec_layout().spec_align() == 0,
    {
        self.buffer.as_ptr()
    }

    /// The address of slot 0, for writing.
    pub fn as_mut_ptr(&mut self) -> (addr: usize)
        requires
            old(self).wf(),
        ensures
            *final(self) == *old(self),
            addr == old(self).buffer().spec_addr(),
            addr != 0,
            addr as nat % old(self).buffer().spec_layout().spec_align() == 0,
    {
        self.buffer.as_mut_ptr()
    }

    /// The live elements.
    pub fn as_slice(&self) -> (slice: &[T])
        requires
            self.wf(),
        ensures
            slice@ == self@,
    {
        let (live, _) = self.cells.as_slice().split_at(self.init);
        live
    }

    /// The live elements, for changing them.
    pub fn as_mut_slice(&mut self) -> (slice: &mut [T])
        requires
            old(self).wf(),
        ensures
            slice@ == old(self)@,
            final(slice)@.len() == old(self).spec_len(),
            final(self).wf(),
            final(self).buffer() == old(self).buffer(),
            final(self).spec_len() == old(self).spec_len(),
            final(self).written() == final(slice)@ + old(self).written().skip(
                old(self).spec_len() as int,
            ),
            final(self)@ == final(slice)@,
    {
        prefix_mut(&mut self.cells, self.init)
    }

    /// Destroys the live elements as [`Storage::clear`] does, then gives the
    /// region back to its allocator.
    pub fn destroy(self)
        requires
            self.wf(),
    {
        let mut storage = self;
        storage.clear();
        let Storage { buffer, .. } = storage;
        buffer.destroy();
    }
}

/// Clones the elements of `slice`, in order, into a vector of their own.
fn clone_all<T: Clone>(slice: &[T]) -> (copies: Vec<T>)
    ensures
        copies@.len() == slice@.len(),
        forall|i: int| 0 <= i < slice@.len() ==> cloned(slice@[i], #[trigger] copies@[i]),
{
    let mut copies: Vec<T> = Vec::new();
    let mut i: usize = 0;
    while i < slice.len()
        invariant
            i <= slice@.len(),
            copies@.len() == i,
            forall|j: int| 0 <= j < i ==> cloned(slice@[j], #[trigger] copies@[j]),
        decreases slice@.len() - i,
    {
        let copy = slice[i].clone();
        copies.push(copy);
        i += 1;
    }
    copies
}

impl<T: Clone, A: Allocator> Storage<T, A> {
    /// A storage that holds a clone of each element of `slice`, in order, all
    /// of them live. The clones are made into a vector of their own and moved
    /// into the storage when all of them exist, so a storage that holds only
    /// some of them is never seen.
    pub fn from_slice(slice: &[T], target: Target, alloc: &Rc<A>) -> (r: Result<Self, TensorError>)
        requires
            buildable::<T>(slice@.len(), SimdAlignment::spec_alignment(target, align_of::<T>())),
        ensures
            r matches Ok(storage) ==> storage.wf() && storage.spec_len() == slice@.len()
                && storage.written().len() == slice@.len() && (forall|i: int|
                0 <= i < slice@.len() ==> cloned(slice@[i], #[trigger] storage@[i])) && fresh::<
                T,
                A,
                Uninitialized,
            >(
                storage.buffer(),
                slice@.len(),
                SimdAlignment::spec_alignment(target, align_of::<T>()),
                false,
                **alloc,
            ),
            r matches Err(e) ==> e is Memory,
    {
        match BufferBuilder::new(slice.len(), target).build::<T, A>(alloc) {
            Ok(buffer) => {
                let copies = clone_all(slice);
                Ok(Storage::from_parts(buffer, copies))
            },
            Err(e) => Err(e),
        }
    }

    /// A storage of `numel` live elements, each a clone of `value`.
    pub fn filled_with(numel: usize, value: T, target: Target, alloc: &Rc<A>) -> (r: Result<
        Self,
        TensorError,
    >)
        requires
            buildable::<T>(numel as nat, SimdAlignment::spec_alignment(target, align_of::<T>())),
        ensures
            r matches Ok(storage) ==> storage.wf() && storage.spec_len() == numel
                && storage.written().len() == numel && (forall|i: int|
                0 <= i < numel ==> cloned(value, #[trigger] storage@[i])) && fresh::<
                T,
                A,
                Uninitialized,
            >(
                storage.buffer(),
                numel as nat,
                SimdAlignment::spec_alignment(target, align_of::<T>()),
                false,
                **alloc,
            ),
            r matches Err(e) ==> e is Memory,
    {
        match BufferBuilder::new(numel, target).build::<T, A>(alloc) {
            Ok(buffer) => {
                let mut copies: Vec<T> = Vec::new();
                let mut i: usize = 0;
                while i < numel
                    invariant
                        i <= numel,
                        copies@.len() == i,
                        forall|j: int| 0 <= j < i ==> cloned(value, #[trigger] copies@[j]),
                    decreases numel - i,
                {
                    let copy = value.clone();
                    copies.push(copy);
                    i += 1;
                }
                Ok(Storage::from_parts(buffer, copies))
            },
            Err(e) => Err(e),
        }
    }

    /// A second storage with a clone of each live element, in order, on a
    /// buffer of its own of the same capacity and alignment, from the same
    /// allocator.
    pub fn try_clone(&self) -> (r: Result<Self, TensorError>)
        requires
            self.wf(),
        ensures
            r matches Ok(storage) ==> storage.wf() && storage.spec_len() == self.spec_len()
                && storage.written().len() == self.spec_len() && (forall|i: int|
                0 <= i < self.spec_len() ==> cloned(self@[i], #[trigger] storage@[i])) && fresh::<
                T,
                A,
                Uninitialized,
            >(
                storage.buffer(),
                self.spec_allocated_len(),
                self.buffer().spec_layout().spec_align(),
                false,
                self.buffer().allocator(),
            ),
            r matches Err(e) ==> e is Memory,
    {
        match self.buffer.allocate_like() {
            Ok(buffer) => {
                let copies = clone_all(self.as_slice());
                Ok(Storage::from_parts(buffer, copies))
            },
            Err(e) => Err(e),
        }
    }
}

impl<T: Copy, A: Allocator> Storage<T, A> {
    /// A storage that holds the elements of `slice`, copied in order, all of
    /// them live. For a type whose values are copied bit by bit.
    pub fn copy_from_slice(slice: &[T], target: Target, alloc: &Rc<A>) -> (r: Result<
        Self,
        TensorError,
    >)
        requires
            buildable::<T>(slice@.len(), SimdAlignment::spec_alignment(target, align_of::<T>())),
        ensures
            r matches Ok(storage) ==> storage.wf() && storage@ == slice@ && storage.written()
                == slice@ && fresh::<T, A, Uninitialized>(
                storage.buffer(),
                slice@.len(),
                SimdAlignment::spec_alignment(target, align_of::<T>()),
                false,
                **alloc,
            ),
            r matches Err(e) ==> e is Memory,
    {
        match BufferBuilder::new(slice.len(), target).build::<T, A>(alloc) {
            Ok(buffer) => {
                let mut copies: Vec<T> = Vec::new();
                let mut i: usize = 0;
                while i < slice.len()
                    invariant
                        i <= slice@.len(),
                        copies@ == slice@.take(i as int),
                    decreases slice@.len() - i,
                {
                    copies.push(slice[i]);
                    i += 1;
                }
                Ok(Storage::from_parts(buffer, copies))
            },
            Err(e) => Err(e),
        }
    }
}

/// What one call of [`Storage::write_unchecked`] with `value` makes of the
/// live elements: `after` holds those of `before`, then `value`.
pub open spec fn appended<T, A: Allocator>(
    before: Storage<T, A>,
    value: T,
    after: Storage<T, A>,
) -> bool {
    &&& after.spec_len() == before.spec_len() + 1
    &&& after@ == before@.push(value)
}

/// The number of live elements is one that the machine can count.
pub proof fn lemma_len_is_bounded<T, A: Allocator>(storage: Storage<T, A>)
    ensures
        storage.spec_len() <= usize::MAX,
{
}

/// A storage without live elements has no element at any index.
pub proof fn lemma_empty_reads_absent<T, A: Allocator>(storage: Storage<T, A>, index: int)
    requires
        storage.spec_len() == 0,
    ensures
        storage@ == Seq::<T>::empty(),
        storage.spec_get(index) is None,
{
}

/// After `k` writes into a storage without live elements, `k` elements are
/// live: the element at an index below `k` is the value of the write of that
/// number, and no other index has an element.
///
/// `trace[j]` is the storage after `j` writes, and `values[j]` the value of
/// write number `j`.
pub proof fn lemma_writes_read_back<T, A: Allocator>(
    trace: Seq<Storage<T, A>>,
    values: Seq<T>,
    k: int,
    index: int,
)
    requires
        trace.len() == values.len() + 1,
        trace[0].spec_len() == 0,
        forall|j: int|
            0 <= j < values.len() ==> appended(#[trigger] trace[j], values[j], trace[j + 1]),
        0 <= k <= values.len(),
    ensures
        trace[k].spec_len() == k,
        trace[k]@ == values.take(k),
        trace[k].spec_get(index) == (if 0 <= index < k {
            Some(values[index])
        } else {
            None
        }),
    decreases k,
{
    if k == 0 {
        lemma_empty_reads_absent(trace[0], index);
    } else {
        lemma_writes_read_back(trace, values, k - 1, index);
    }
}

/// A storage that was built from a source reads back as that source: the
/// slice of its live elements is the source, element by element.
pub proof fn lemma_round_trip<T, A: Allocator>(
    source: Seq<T>,
    storage: Storage<T, A>,
    slice: Seq<T>,
    index: int,
)
    requires
        storage.wf(),
        storage@ == source,
        slice == storage@,
        0 <= index < source.len(),
    ensures
        slice == source,
        storage.spec_len() == source.len(),
        storage.spec_get(index) == Some(source[index]),
{
}

} // verus!
