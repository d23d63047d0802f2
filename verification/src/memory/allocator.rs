//! Allocators and the raw regions they hand out.
//!
//! A [`Region`] is a run of bytes together with the address of its first
//! byte. An [`Allocator`] hands regions out for a [`Layout`] and takes them
//! back; [`Global`] is the allocator backed by the process heap.

use crate::memory::layout::{lemma_round_up_is_multiple, round_up, Layout};
use vstd::arithmetic::power2::is_pow2;
use vstd::prelude::*;

verus! {

/// The allocator could not satisfy a request.
#[derive(Debug, Clone, Copy, PartialEq, Eq)]
pub struct AllocError;

/// A raw region: `len` bytes, the first of which lives at `addr`.
///
/// The bytes are the window `block[offset .. offset + len]` of the heap block
/// that backs the region; the block may be larger than the window so that the
/// window can start at an aligned address.
#[derive(Debug)]
pub struct Region {
    block: Vec<u8>,
    offset: usize,
    len: usize,
    addr: usize,
}

impl Region {
    /// The window lies inside the block.
    pub closed spec fn wf(&self) -> bool {
        self.offset + self.len <= self.block@.len() <= usize::MAX
    }

    /// The bytes of the region.
    pub closed spec fn view(&self) -> Seq<u8> {
        self.block@.subrange(self.offset as int, self.offset + self.len)
    }

    /// The address of the first byte.
    pub closed spec fn spec_addr(&self) -> nat {
        self.addr as nat
    }

    /// The region is what a request for `layout` may be answered with: it is
    /// non-null, starts at a multiple of the alignment and has exactly the
    /// size asked for.
    pub open spec fn fits(&self, layout: Layout) -> bool {
        &&& self.wf()
        &&& self.spec_addr() != 0
        &&& self.spec_addr() % layout.spec_align() == 0
        &&& self@.len() == layout.spec_size()
    }

    /// Every byte of the region is zero.
    pub open spec fn zeroed(&self) -> bool {
        forall|i: int| 0 <= i < self@.len() ==> self@[i] == 0u8
    }

    /// The number of bytes from `base` to the first multiple of `align` that
    /// is not below it.
    pub open spec fn padding(base: nat, align: nat) -> nat
        recommends
            align > 0,
    {
        (round_up(base, align) - base) as nat
    }

    /// Whether a block of `len` bytes that starts at `base` holds a window
    /// for `layout`: the block does not start at the null address, the first
    /// multiple of the alignment at or behind its start is an address, and
    /// from there on the block has the bytes that the layout asks for.
    pub open spec fn holds_window(len: nat, base: nat, layout: Layout) -> bool {
        &&& base != 0
        &&& round_up(base, layout.spec_align()) <= usize::MAX
        &&& Self::padding(base, layout.spec_align()) + layout.spec_size() <= len
    }

    /// The window for `layout` in `block`, which starts at the address
    /// `base`: the region of the layout's size that starts at the first
    /// multiple of the alignment at or behind `base`. It is an error where
    /// the block holds no such window.
    pub fn within(block: Vec<u8>, base: usize, layout: Layout) -> (r: Result<Region, AllocError>)
        requires
            layout.wf(),
        ensures
            r is Ok <==> Self::holds_window(block@.len(), base as nat, layout),
            r matches Ok(region) ==> region.fits(layout) && region.spec_addr() == round_up(
                base as nat,
                layout.spec_align(),
            ) && region@ == block@.subrange(
                Self::padding(base as nat, layout.spec_align()) as int,
                (Self::padding(base as nat, layout.spec_align()) + layout.spec_size()) as int,
            ),
    {
        let size = layout.size();
        let align = layout.align();
        proof {
            reveal(is_pow2);
            lemma_round_up_is_multiple(base as nat, align as nat);
        }
        if base == 0 {
            return Err(AllocError);
        }
        let rem = base % align;
        let offset: usize = if rem == 0 {
            0
        } else {
            align - rem
        };
        let addr = match base.checked_add(offset) {
            Some(addr) => addr,
            None => {
                return Err(AllocError);
            },
        };
        if block.len() < offset || block.len() - offset < size {
            return Err(AllocError);
        }
        Ok(Region { block, offset, len: size, addr })
    }

    /// A region made of `bytes`, which the caller states to start at `addr`.
    pub fn new(addr: usize, bytes: Vec<u8>) -> (region: Region)
        ensures
            region.wf(),
            region@ == bytes@,
            region.spec_addr() == addr,
    {
        let len = bytes.len();
        let region = Region { block: bytes, offset: 0, len, addr };
        region
    }

    /// The address of the first byte.
    pub fn addr(&self) -> (addr: usize)
        ensures
            addr == self.spec_addr(),
    {
        self.addr
    }

    /// The number of bytes.
    pub fn len(&self) -> (len: usize)
        requires
            self.wf(),
        ensures
            len == self@.len(),
    {
        self.len
    }

    /// The bytes of the region.
    pub fn as_bytes(&self) -> (bytes: &[u8])
        requires
            self.wf(),
        ensures
            bytes@ == self@,
    {
        let (_, tail) = self.block.as_slice().split_at(self.offset);
        let (window, _) = tail.split_at(self.len);
        window
    }

    /// The byte at `index`.
    pub fn byte(&self, index: usize) -> (byte: u8)
        requires
            self.wf(),
            index < self@.len(),
        ensures
            byte == self@[index as int],
    {
        self.block[self.offset + index]
    }

    /// Writes `byte` to every position from `start` up to, not including,
    /// `end`; the other bytes and the address stay as they are.
    pub fn fill(&mut self, start: usize, end: usize, byte: u8)
        requires
            old(self).wf(),
            start <= end <= old(self)@.len(),
        ensures
            final(self).wf(),
            final(self).spec_addr() == old(self).spec_addr(),
            final(self)@.len() == old(self)@.len(),
            forall|i: int|
                0 <= i < old(self)@.len() ==> final(self)@[i] == (if start <= i < end {
                    byte
                } else {
                    old(self)@[i]
                }),
    {
        let mut i: usize = start;
        while i < end
            invariant
                start <= i <= end,
                end <= self.len,
                self.wf(),
                self.offset == old(self).offset,
                self.len == old(self).len,
                self.addr == old(self).addr,
                self.block@.len() == old(self).block@.len(),
                forall|j: int|
                    0 <= j < self.block@.len() ==> self.block@[j] == (if self.offset + start <= j
                        < self.offset + i {
                        byte
                    } else {
                        old(self).block@[j]
                    }),
            decreases end - i,
        {
            self.block[self.offset + i] = byte;
            i += 1;
        }
    }
}

/// A source of raw regions.
///
/// An allocator answers a request for a layout with a region that fits it, or
/// with an error; it makes no second attempt. A region goes back to the
/// allocator it came from, under the layout it was asked with.
pub trait Allocator {
    /// A region for `layout`; nothing is said of its contents.
    fn allocate(&self, layout: Layout) -> (r: Result<Region, AllocError>)
        requires
            layout.wf(),
        ensures
            r matches Ok(region) ==> region.fits(layout),
    ;

    /// A region for `layout`, every byte of which is zero.
    fn allocate_zeroed(&self, layout: Layout) -> (r: Result<Region, AllocError>)
        requires
            layout.wf(),
        ensures
            r matches Ok(region) ==> region.fits(layout) && region.zeroed(),
    ;

    /// Takes `region` back.
    fn deallocate(&self, region: Region, layout: Layout)
        requires
            region.fits(layout),
    ;
}

/// `Vec::as_ptr`, with the pointer turned into its address: the address of
/// the heap block that holds the vector's elements. The standard library
/// promises that this pointer is never null.
#[verifier::external_body]
fn base_address(block: &Vec<u8>) -> (addr: usize)
    ensures
        addr != 0,
{
    block.as_ptr() as usize
}

/// The allocator backed by the process heap.
#[derive(Debug, Clone, Copy, Default)]
pub struct Global;

impl Global {
    /// A zero-filled region for `layout`, or an error where the heap has no
    /// room for it.
    ///
    /// The heap block is asked for `align - 1` bytes more than the layout's
    /// size, so that it holds a window of that size which starts at a multiple
    /// of the alignment wherever the block itself starts. Whether the heap
    /// gives the block, and where, is the heap's to say; what becomes of the
    /// block is what [`Region::within`] says.
    pub fn reserve(layout: Layout) -> (r: Result<Region, AllocError>)
        requires
            layout.wf(),
        ensures
            r matches Ok(region) ==> region.fits(layout) && region.zeroed(),
    {
        let size = layout.size();
        let align = layout.align();
        proof {
            reveal(is_pow2);
        }
        let total: usize = size + (align - 1);
        let mut block: Vec<u8> = Vec::new();
        match block.try_reserve(total) {
            Ok(_) => {},
            Err(_) => {
                return Err(AllocError);
            },
        }
        block.resize(total, 0u8);
        let base = base_address(&block);
        Region::within(block, base, layout)
    }
}

impl Allocator for Global {
    /// What [`Global::reserve`] answers: the heap's regions are zero-filled
    /// whether that was asked for or not.
    fn allocate(&self, layout: Layout) -> (r: Result<Region, AllocError>)
        ensures
            call_ensures(Global::reserve, (layout,), r),
    {
        Global::reserve(layout)
    }

    /// What [`Global::reserve`] answers.
    fn allocate_zeroed(&self, layout: Layout) -> (r: Result<Region, AllocError>)
        ensures
            call_ensures(Global::reserve, (layout,), r),
    {
        Global::reserve(layout)
    }

    fn deallocate(&self, region: Region, layout: Layout) {
        let _ = region;
    }
}

} // verus!
