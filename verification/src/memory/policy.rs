//! Policies that decide how a buffer's region is aligned and initialised.
//!
//! Both are chosen by type. An [`AlignmentStrategy`] names the alignment for
//! an element type on a build target; an [`InitStrategy`] obtains the region
//! from an allocator, with or without zero-filling it.

use crate::memory::allocator::{AllocError, Allocator, Region};
use crate::memory::layout::{lemma_single_bit_is_pow2, Layout};
use vstd::arithmetic::power2::is_pow2;
use vstd::layout::{align_of, layout_for_type_is_valid};
use vstd::prelude::*;

verus! {

/// The vector extension that the build targets. It is fixed when the program
/// is built, and handed to the library as a value.
#[derive(Debug, Clone, Copy, PartialEq, Eq, Structural)]
pub enum Target {
    /// AArch64 with NEON: 128-bit vectors.
    Neon,
    /// x86 or x86-64 with AVX2: 256-bit vectors.
    Avx2,
    /// No vector extension that the library knows of.
    Baseline,
}

/// Alignment in bytes for NEON loads and stores.
pub const NEON_ALIGN: usize = 16;

/// Alignment in bytes for AVX2 loads and stores.
pub const AVX2_ALIGN: usize = 32;

/// How a region is obtained from an allocator.
pub trait InitStrategy {
    /// Whether the regions obtained are zero-filled.
    spec fn zeroes() -> bool;

    /// Asks `allocator` for a region for `layout`. The strategy makes one
    /// request and passes a failure on.
    fn allocate<A: Allocator>(allocator: &A, layout: Layout) -> (r: Result<Region, AllocError>)
        requires
            layout.wf(),
        ensures
            r matches Ok(region) ==> region.fits(layout) && (Self::zeroes() ==> region.zeroed()),
    ;
}

/// How the alignment of a buffer is chosen.
pub trait AlignmentStrategy {
    /// Whether the strategy names an alignment at all.
    spec fn defined() -> bool;

    /// The alignment for an element type of natural alignment `natural` on
    /// `target`.
    spec fn spec_alignment(target: Target, natural: nat) -> nat;

    /// The alignment in bytes for elements of type `T` on `target`, always a
    /// power of two.
    fn alignment<T>(target: Target) -> (align: usize)
        requires
            Self::defined(),
        ensures
            align == Self::spec_alignment(target, align_of::<T>()),
            is_pow2(align as int),
    ;
}

/// The alignment that suits the target's vector extension: 16 bytes with
/// NEON, 32 bytes with AVX2, else the natural alignment of the element type.
#[derive(Debug, Clone, Copy)]
pub struct SimdAlignment;

impl AlignmentStrategy for SimdAlignment {
    open spec fn defined() -> bool {
        true
    }

    open spec fn spec_alignment(target: Target, natural: nat) -> nat {
        match target {
            Target::Neon => NEON_ALIGN as nat,
            Target::Avx2 => AVX2_ALIGN as nat,
            Target::Baseline => natural,
        }
    }

    fn alignment<T>(target: Target) -> (align: usize) {
        match target {
            Target::Neon => {
                proof {
                    lemma_single_bit_is_pow2(16);
                    assert(16u64 & (16u64 - 1) as u64 == 0) by (bit_vector);
                }
                NEON_ALIGN
            },
            Target::Avx2 => {
                proof {
                    lemma_single_bit_is_pow2(32);
                    assert(32u64 & (32u64 - 1) as u64 == 0) by (bit_vector);
                }
                AVX2_ALIGN
            },
            Target::Baseline => {
                layout_for_type_is_valid::<T>();
                core::mem::align_of::<T>()
            },
        }
    }
}

/// A fixed alignment of `ALIGN` bytes, which must be a power of two.
#[derive(Debug, Clone, Copy)]
pub struct CustomAlignment<const ALIGN: usize>;

impl<const ALIGN: usize> AlignmentStrategy for CustomAlignment<ALIGN> {
    open spec fn defined() -> bool {
        is_pow2(ALIGN as int)
    }

    open spec fn spec_alignment(target: Target, natural: nat) -> nat {
        ALIGN as nat
    }

    fn alignment<T>(target: Target) -> (align: usize) {
        ALIGN
    }
}

/// Regions are taken as the allocator hands them out: their contents are
/// undefined and must be written before they are read.
#[derive(Debug, Clone, Copy)]
pub struct Uninitialized;

impl InitStrategy for Uninitialized {
    open spec fn zeroes() -> bool {
        false
    }

    /// The answer of the allocator's `allocate` to `layout`, as it came.
    fn allocate<A: Allocator>(allocator: &A, layout: Layout) -> (r: Result<Region, AllocError>)
        ensures
            call_ensures(A::allocate, (allocator, layout), r),
    {
        allocator.allocate(layout)
    }
}

/// Regions are asked for zero-filled.
#[derive(Debug, Clone, Copy)]
pub struct Zeroed;

impl InitStrategy for Zeroed {
    open spec fn zeroes() -> bool {
        true
    }

    /// The answer of the allocator's `allocate_zeroed` to `layout`, as it
    /// came.
    fn allocate<A: Allocator>(allocator: &A, layout: Layout) -> (r: Result<Region, AllocError>)
        ensures
            call_ensures(A::allocate_zeroed, (allocator, layout), r),
    {
        allocator.allocate_zeroed(layout)
    }
}

} // verus!
