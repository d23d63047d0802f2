//! Raw, aligned buffers.
//!
//! A [`Buffer`] owns one region, sized and aligned for a number of elements of
//! one type. It knows nothing of which elements hold a value: it accounts for
//! the bytes, keeps the padding behind the last element zero, and gives the
//! region back to its allocator when it is destroyed.

use crate::error::TensorError;
use crate::memory::allocator::{AllocError, Allocator, Region};
use crate::memory::layout::{
    is_power_of_two, lemma_mask_rounds_up, lemma_round_up_is_least, lemma_round_up_is_multiple,
    round_up, valid_size_align, Layout,
};
use crate::memory::policy::{
    AlignmentStrategy, CustomAlignment, InitStrategy, SimdAlignment, Target, Uninitialized, Zeroed,
};
use std::marker::PhantomData;
use std::rc::Rc;
use vstd::arithmetic::power2::is_pow2;
use vstd::layout::size_of;
use vstd::prelude::*;
use vstd::string::StringExecFns;

verus! {

/// The byte that marks memory which was allocated and not yet written.
pub const POISON: u8 = 0xAB;

/// The number of bytes that `numel` elements of `T` take.
pub open spec fn bytes_of<T>(numel: nat) -> nat {
    numel * size_of::<T>()
}

/// Whether a buffer of `numel` elements of `T` can be laid out at alignment
/// `align`: there is at least one element, the element type has a size, the
/// alignment is a power of two, and the bytes of the elements, rounded up to
/// the alignment, make a valid layout.
pub open spec fn buildable<T>(numel: nat, align: nat) -> bool {
    &&& numel > 0
    &&& size_of::<T>() > 0
    &&& valid_size_align(round_up(bytes_of::<T>(numel), align), align)
}

/// Whether a buffer of `numel` elements of `T` can be laid out at alignment
/// `align`.
pub fn is_buildable<T>(numel: usize, align: usize) -> (ok: bool)
    ensures
        ok == buildable::<T>(numel as nat, align as nat),
{
    let tsize = core::mem::size_of::<T>();
    if numel == 0 || tsize == 0 || !is_power_of_two(align) {
        return false;
    }
    proof {
        reveal(is_pow2);
        lemma_round_up_is_multiple(bytes_of::<T>(numel as nat), align as nat);
    }
    let size_in_bytes = match numel.checked_mul(tsize) {
        Some(bytes) => bytes,
        None => {
            return false;
        },
    };
    if size_in_bytes > usize::MAX - (align - 1) {
        return false;
    }
    let size = align_to::<T>(numel, align);
    Layout::from_size_align(size, align).is_ok()
}

/// The bytes of a buffer right after its construction from a region that held
/// `raw`: the padding behind the first `data_len` bytes is zero; the bytes
/// before it are poisoned if that was asked for, and are else as the region
/// came.
pub open spec fn initial_bytes(raw: Seq<u8>, data_len: nat, poison: bool) -> Seq<u8> {
    Seq::new(
        raw.len(),
        |i: int|
            if i >= data_len {
                0u8
            } else if poison {
                POISON
            } else {
                raw[i]
            },
    )
}

/// The size in bytes of `numel` elements of `T`, rounded up to the next
/// multiple of `align`.
pub fn align_to<T>(numel: usize, align: usize) -> (size: usize)
    requires
        is_pow2(align as int),
        numel * size_of::<T>() + (align - 1) <= usize::MAX,
    ensures
        size == round_up(bytes_of::<T>(numel as nat), align as nat),
{
    let tsize = core::mem::size_of::<T>();
    proof {
        reveal(is_pow2);
    }
    let size_in_bytes: usize = numel * tsize;
    let low: usize = align - 1;
    let padded: usize = size_in_bytes + low;
    proof {
        lemma_mask_rounds_up(size_in_bytes as u64, align as u64);
        assert((padded & !low) as u64 == (padded as u64) & !(low as u64)) by (bit_vector);
    }
    padded & !low
}

/// Sets to zero the bytes of `region` that lie behind the first `length`
/// elements of `T` and before `size`. Where the elements reach `size` or
/// beyond, nothing is written.
pub fn zero_trailing_bytes<T>(region: &mut Region, length: usize, size: usize)
    requires
        old(region).wf(),
        size <= old(region)@.len(),
        length * size_of::<T>() <= usize::MAX,
    ensures
        final(region).wf(),
        final(region).spec_addr() == old(region).spec_addr(),
        final(region)@.len() == old(region)@.len(),
        forall|i: int|
            0 <= i < old(region)@.len() ==> final(region)@[i] == (if length * size_of::<T>() <= i
                < size {
                0u8
            } else {
                old(region)@[i]
            }),
{
    let start_offset: usize = length * core::mem::size_of::<T>();
    if start_offset >= size {
        return ;
    }
    region.fill(start_offset, size, 0u8);
}

/// Raw, aligned heap storage for `numel` elements of type `T`.
///
/// The buffer is created once, with a fixed capacity, and never resized. It
/// neither constructs nor destroys a `T`.
#[derive(Debug)]
pub struct Buffer<T, A: Allocator> {
    /// The region obtained from the allocator.
    region: Region,
    /// The number of elements that were asked for.
    numel: usize,
    /// The layout under which the region was obtained.
    layout: Layout,
    /// The allocator that the region came from.
    allocator: Rc<A>,
    _marker: PhantomData<T>,
}

impl<T, A: Allocator> Buffer<T, A> {
    /// The number of elements that the buffer was asked for.
    pub closed spec fn spec_numel(&self) -> nat {
        self.numel as nat
    }

    /// The layout of the region.
    pub closed spec fn spec_layout(&self) -> Layout {
        self.layout
    }

    /// The address of the first byte.
    pub closed spec fn spec_addr(&self) -> nat {
        self.region.spec_addr()
    }

    /// The bytes of the region.
    pub closed spec fn bytes(&self) -> Seq<u8> {
        self.region@
    }

    /// The allocator that the region came from.
    pub closed spec fn allocator(&self) -> A {
        *self.allocator
    }

    /// The region lies within the block that backs it.
    pub closed spec fn region_wf(&self) -> bool {
        self.region.wf()
    }

    /// The number of bytes that the elements take.
    pub open spec fn data_len(&self) -> nat {
        bytes_of::<T>(self.spec_numel())
    }

    /// Every byte behind the elements is zero.
    pub open spec fn padding_zeroed(&self) -> bool {
        forall|i: int| self.data_len() <= i < self.bytes().len() ==> self.bytes()[i] == 0u8
    }

    /// What holds of a buffer from its construction to its destruction.
    pub open spec fn wf(&self) -> bool {
        &&& self.region_wf()
        &&& self.spec_numel() > 0
        &&& size_of::<T>() > 0
        &&& self.spec_layout().wf()
        &&& self.spec_layout().spec_size() == round_up(
            self.data_len(),
            self.spec_layout().spec_align(),
        )
        &&& self.spec_addr() != 0
        &&& self.spec_addr() % self.spec_layout().spec_align() == 0
        &&& self.bytes().len() == self.spec_layout().spec_size()
        &&& self.padding_zeroed()
    }

    /// The buffer made of what an allocator answered to the request for
    /// `layout`: the error is passed on as a memory error, a region becomes
    /// the buffer's own. The padding behind the elements is set to zero, after
    /// the bytes of the elements were poisoned where `poison` asks for it.
    pub fn from_allocation(
        numel: usize,
        layout: Layout,
        allocation: Result<Region, AllocError>,
        poison: bool,
        allocator: Rc<A>,
    ) -> (r: Result<Self, TensorError>)
        requires
            numel > 0,
            size_of::<T>() > 0,
            layout.wf(),
            layout.spec_size() == round_up(bytes_of::<T>(numel as nat), layout.spec_align()),
            allocation matches Ok(region) ==> region.fits(layout),
        ensures
            allocation is Err ==> r matches Err(TensorError::Memory(_)),
            allocation matches Ok(region) ==> (r matches Ok(buffer) && buffer.wf()
                && buffer.spec_numel() == numel && buffer.spec_layout() == layout
                && buffer.spec_addr() == region.spec_addr() && buffer.allocator() == *allocator
                && buffer.bytes() == initial_bytes(region@, bytes_of::<T>(numel as nat), poison)),
    {
        match allocation {
            Err(_) => Err(
                TensorError::Memory(String::from_str("the allocator could not provide the region")),
            ),
            Ok(region) => {
                let ghost raw = region@;
                let mut region = region;
                let size = layout.size();
                proof {
                    reveal(is_pow2);
                    lemma_round_up_is_multiple(bytes_of::<T>(numel as nat), layout.spec_align());
                }
                if poison {
                    region.fill(0, size, POISON);
                }
                zero_trailing_bytes::<T>(&mut region, numel, size);
                Ok(Buffer { region, numel, layout, allocator, _marker: PhantomData })
            },
        }
    }

    /// A buffer for `numel` elements at alignment `align`, obtained as `I`
    /// says from `allocator`.
    fn aligned<I: InitStrategy>(numel: usize, align: usize, poison: bool, allocator: &Rc<A>) -> (r:
        Result<Self, TensorError>)
        requires
            buildable::<T>(numel as nat, align as nat),
        ensures
            r matches Ok(buffer) ==> fresh::<T, A, I>(
                buffer,
                numel as nat,
                align as nat,
                poison,
                **allocator,
            ),
            r matches Err(e) ==> e is Memory,
    {
        proof {
            reveal(is_pow2);
            lemma_round_up_is_multiple(bytes_of::<T>(numel as nat), align as nat);
        }
        let size = align_to::<T>(numel, align);
        let layout = Layout::from_size_align(size, align).unwrap();
        let allocation = I::allocate(&**allocator, layout);
        Buffer::from_allocation(numel, layout, allocation, poison, allocator.clone())
    }

    /// A buffer for `numel` elements, aligned as `Align` says for `target` and
    /// obtained as `I` says from `allocator`.
    fn with_alignment<I: InitStrategy, Align: AlignmentStrategy>(
        numel: usize,
        target: Target,
        poison: bool,
        allocator: &Rc<A>,
    ) -> (r: Result<Self, TensorError>)
        requires
            Align::defined(),
            buildable::<T>(
                numel as nat,
                Align::spec_alignment(target, vstd::layout::align_of::<T>()),
            ),
        ensures
            r matches Ok(buffer) ==> fresh::<T, A, I>(
                buffer,
                numel as nat,
                Align::spec_alignment(target, vstd::layout::align_of::<T>()),
                poison,
                **allocator,
            ),
            r matches Err(e) ==> e is Memory,
    {
        let align = Align::alignment::<T>(target);
        Buffer::aligned::<I>(numel, align, poison, allocator)
    }

    /// A second buffer of the same capacity and alignment, with a region of
    /// its own from the same allocator. No byte is copied.
    pub fn allocate_like(&self) -> (r: Result<Self, TensorError>)
        requires
            self.wf(),
        ensures
            r matches Ok(buffer) ==> fresh::<T, A, Uninitialized>(
                buffer,
                self.spec_numel(),
                self.spec_layout().spec_align(),
                false,
                self.allocator(),
            ),
            r matches Err(e) ==> e is Memory,
    {
        Buffer::aligned::<Uninitialized>(self.numel, self.layout.align(), false, &self.allocator)
    }

    /// The address of the first element, for reading.
    pub fn as_ptr(&self) -> (addr: usize)
        requires
            self.wf(),
        ensures
            addr == self.spec_addr(),
            addr != 0,
            addr as nat % self.spec_layout().spec_align() == 0,
    {
        self.region.addr()
    }

    /// The address of the first element, for writing.
    pub fn as_mut_ptr(&mut self) -> (addr: usize)
        requires
            old(self).wf(),
        ensures
            *final(self) == *old(self),
            addr == old(self).spec_addr(),
            addr != 0,
            addr as nat % old(self).spec_layout().spec_align() == 0,
    {
        self.region.addr()
    }

    /// The layout under which the region was obtained, and under which it
    /// will be given back.
    pub fn layout(&self) -> (layout: Layout)
        ensures
            layout == self.spec_layout(),
    {
        self.layout
    }

    /// The size of the region in bytes: the bytes of the elements, rounded up
    /// to the alignment.
    pub fn allocated_size_bytes(&self) -> (size: usize)
        requires
            self.wf(),
        ensures
            size == self.spec_layout().spec_size(),
            size >= self.spec_numel() * size_of::<T>(),
            size as nat % self.spec_layout().spec_align() == 0,
    {
        proof {
            reveal(is_pow2);
            lemma_round_up_is_multiple(self.data_len(), self.spec_layout().spec_align());
        }
        self.layout().size()
    }

    /// The number of elements of `T` for which the region has room. Because of
    /// the rounding it may exceed the number that was asked for.
    pub fn allocated_capacity(&self) -> (capacity: usize)
        requires
            self.wf(),
        ensures
            capacity == self.spec_layout().spec_size() / size_of::<T>(),
            capacity >= self.spec_numel(),
    {
        let tsize = core::mem::size_of::<T>();
        proof {
            reveal(is_pow2);
            lemma_round_up_is_multiple(self.data_len(), self.spec_layout().spec_align());
            vstd::arithmetic::div_mod::lemma_div_is_ordered(
                self.data_len() as int,
                self.spec_layout().spec_size() as int,
                tsize as int,
            );
            vstd::arithmetic::div_mod::lemma_div_multiples_vanish(
                self.spec_numel() as int,
                tsize as int,
            );
            assert(self.data_len() as int == (tsize as int) * (self.spec_numel() as int))
                by (nonlinear_arith)
                requires
                    self.data_len() == self.spec_numel() * (tsize as nat),
            ;
        }
        self.layout().size() / tsize
    }

    /// The number of elements that the buffer was asked for.
    pub fn numel(&self) -> (numel: usize)
        ensures
            numel == self.spec_numel(),
    {
        self.numel
    }

    /// The bytes of the region, padding included.
    pub fn as_bytes(&self) -> (bytes: &[u8])
        requires
            self.wf(),
        ensures
            bytes@ == self.bytes(),
    {
        self.region.as_bytes()
    }

    /// Gives the region back to the allocator it came from, under the layout
    /// it was obtained with. No element is touched.
    pub fn destroy(self)
        requires
            self.wf(),
    {
        let Buffer { region, layout, allocator, .. } = self;
        allocator.deallocate(region, layout);
    }
}

/// What holds of a buffer that was just built for `numel` elements at
/// alignment `align`, obtained as `I` says from `allocator`.
pub open spec fn fresh<T, A: Allocator, I: InitStrategy>(
    buffer: Buffer<T, A>,
    numel: nat,
    align: nat,
    poison: bool,
    allocator: A,
) -> bool {
    &&& buffer.wf()
    &&& buffer.spec_numel() == numel
    &&& buffer.spec_layout().spec_align() == align
    &&& buffer.allocator() == allocator
    &&& poison ==> forall|i: int| 0 <= i < buffer.data_len() ==> buffer.bytes()[i] == POISON
    &&& !poison && I::zeroes() ==> forall|i: int|
        0 <= i < buffer.bytes().len() ==> buffer.bytes()[i] == 0u8
}

/// A buffer that was just built starts at an address that is not null and is
/// a multiple of the alignment that its policy chose.
pub proof fn lemma_fresh_is_aligned<T, A: Allocator, I: InitStrategy>(
    buffer: Buffer<T, A>,
    numel: nat,
    align: nat,
    poison: bool,
    allocator: A,
)
    requires
        fresh::<T, A, I>(buffer, numel, align, poison, allocator),
    ensures
        buffer.spec_addr() != 0,
        buffer.spec_addr() % align == 0,
{
}

/// The region of a buffer covers its elements, and its size is the least
/// multiple of the alignment that does.
pub proof fn lemma_size_covers_elements<T, A: Allocator>(buffer: Buffer<T, A>, multiple: nat)
    requires
        buffer.wf(),
        multiple >= buffer.data_len(),
        multiple % buffer.spec_layout().spec_align() == 0,
    ensures
        buffer.spec_layout().spec_size() >= buffer.spec_numel() * size_of::<T>(),
        buffer.spec_layout().spec_size() % buffer.spec_layout().spec_align() == 0,
        buffer.spec_layout().spec_size() <= multiple,
{
    reveal(is_pow2);
    lemma_round_up_is_multiple(buffer.data_len(), buffer.spec_layout().spec_align());
    lemma_round_up_is_least(buffer.data_len(), buffer.spec_layout().spec_align(), multiple);
}

/// Collects the settings of a [`Buffer`]: the number of elements, the build
/// target, and by its type parameters the policies for initialisation and
/// alignment.
#[derive(Debug)]
pub struct BufferBuilder<I: InitStrategy, A: AlignmentStrategy> {
    numel: usize,
    target: Target,
    poison: bool,
    _marker: PhantomData<(A, I)>,
}

impl BufferBuilder<Uninitialized, SimdAlignment> {
    /// A builder for `numel` elements on `target`, with the default policies:
    /// the region is left as the allocator hands it out, and aligned for the
    /// target's vector extension.
    pub fn new(numel: usize, target: Target) -> (builder: Self)
        ensures
            builder.spec_numel() == numel,
            builder.spec_target() == target,
            !builder.spec_poison(),
    {
        BufferBuilder { numel, target, poison: false, _marker: PhantomData }
    }
}

impl<I: InitStrategy, A: AlignmentStrategy> BufferBuilder<I, A> {
    /// The number of elements.
    pub closed spec fn spec_numel(&self) -> nat {
        self.numel as nat
    }

    /// The build target.
    pub closed spec fn spec_target(&self) -> Target {
        self.target
    }

    /// Whether the bytes of the elements will be poisoned.
    pub closed spec fn spec_poison(&self) -> bool {
        self.poison
    }

    /// The alignment that the buffer will have for elements of type `T`.
    pub open spec fn spec_align<T>(&self) -> nat {
        A::spec_alignment(self.spec_target(), vstd::layout::align_of::<T>())
    }

    /// The region will be asked for zero-filled.
    pub fn zeroed(self) -> (builder: BufferBuilder<Zeroed, A>)
        ensures
            builder.spec_numel() == self.spec_numel(),
            builder.spec_target() == self.spec_target(),
            builder.spec_poison() == self.spec_poison(),
    {
        BufferBuilder::<Zeroed, A> {
            numel: self.numel,
            target: self.target,
            poison: self.poison,
            _marker: PhantomData,
        }
    }

    /// The region will be aligned to `ALIGN` bytes.
    pub fn with_alignment<const ALIGN: usize>(self) -> (builder: BufferBuilder<
        I,
        CustomAlignment<ALIGN>,
    >)
        ensures
            builder.spec_numel() == self.spec_numel(),
            builder.spec_target() == self.spec_target(),
            builder.spec_poison() == self.spec_poison(),
    {
        BufferBuilder {
            numel: self.numel,
            target: self.target,
            poison: self.poison,
            _marker: PhantomData,
        }
    }

    /// Where `on` holds, the bytes of the elements will be filled with
    /// [`POISON`], so that a read of memory that was never written shows.
    pub fn poisoned(self, on: bool) -> (builder: Self)
        ensures
            builder.spec_numel() == self.spec_numel(),
            builder.spec_target() == self.spec_target(),
            builder.spec_poison() == on,
    {
        BufferBuilder { numel: self.numel, target: self.target, poison: on, _marker: PhantomData }
    }

    /// Builds the buffer, with its region from `alloc`. Where the allocator
    /// fails, the memory error is returned and nothing is held.
    pub fn build<T, Alloc: Allocator>(self, alloc: &Rc<Alloc>) -> (r: Result<
        Buffer<T, Alloc>,
        TensorError,
    >)
        requires
            A::defined(),
            buildable::<T>(self.spec_numel(), self.spec_align::<T>()),
        ensures
            r matches Ok(buffer) ==> fresh::<T, Alloc, I>(
                buffer,
                self.spec_numel(),
                self.spec_align::<T>(),
                self.spec_poison(),
                **alloc,
            ),
            r matches Err(e) ==> e is Memory,
    {
        Buffer::with_alignment::<I, A>(self.numel, self.target, self.poison, alloc)
    }
}

} // verus!
