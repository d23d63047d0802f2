//! Sizes and alignments of raw regions.
//!
//! A [`Layout`] is a pair of a size in bytes and an alignment in bytes. It is
//! computed once, when a region is requested, and kept beside the region so
//! that the region is given back under the very values it was obtained with.

use vstd::arithmetic::div_mod::{
    lemma_fundamental_div_mod, lemma_fundamental_div_mod_converse, lemma_mod_multiples_basic,
};
use vstd::arithmetic::power::pow;
use vstd::arithmetic::power2::{is_pow2, is_pow2_equiv, lemma2_to64, lemma_pow2_strictly_increases};
use vstd::bits::lemma_u64_low_bits_mask_is_mod;
use vstd::prelude::*;

verus! {

/// `bytes` rounded up to the next multiple of `align`.
pub open spec fn round_up(bytes: nat, align: nat) -> nat
    recommends
        align > 0,
{
    if bytes % align == 0 {
        bytes
    } else {
        (bytes + align - bytes % align) as nat
    }
}

/// `round_up(bytes, align)` is a multiple of `align`, not below `bytes` and
/// less than `align` above it.
pub proof fn lemma_round_up_is_multiple(bytes: nat, align: nat)
    requires
        align > 0,
    ensures
        round_up(bytes, align) >= bytes,
        round_up(bytes, align) < bytes + align,
        round_up(bytes, align) % align == 0,
{
    let b = bytes as int;
    let a = align as int;
    let r = b % a;
    let q = b / a;
    lemma_fundamental_div_mod(b, a);
    if r != 0 {
        assert(round_up(bytes, align) == (q + 1) * a) by (nonlinear_arith)
            requires
                b == a * q + r,
                round_up(bytes, align) == b + a - r,
        ;
        lemma_mod_multiples_basic(q + 1, a);
    }
}

/// No multiple of `align` lies between `bytes` and `round_up(bytes, align)`.
pub proof fn lemma_round_up_is_least(bytes: nat, align: nat, m: nat)
    requires
        align > 0,
        m >= bytes,
        m % align == 0,
    ensures
        m >= round_up(bytes, align),
{
    let b = bytes as int;
    let a = align as int;
    let r = b % a;
    let q = b / a;
    let k = (m as int) / a;
    lemma_fundamental_div_mod(b, a);
    lemma_fundamental_div_mod(m as int, a);
    if r != 0 && m < round_up(bytes, align) {
        assert(false) by (nonlinear_arith)
            requires
                m == a * k,
                b == a * q + r,
                0 < r < a,
                m >= b,
                m < b + a - r,
        ;
    }
}

/// Whether `size` bytes at alignment `align` describe a region that can be
/// asked for: the alignment is a power of two, and the size, rounded up to the
/// alignment, does not exceed `isize::MAX`.
pub open spec fn valid_size_align(size: nat, align: nat) -> bool {
    &&& is_pow2(align as int)
    &&& size + align - 1 <= isize::MAX
}

/// Among the positive numbers the bit test `x & (x - 1) == 0` singles out the
/// powers of two.
pub proof fn lemma_single_bit_is_pow2(x: u64)
    requires
        x > 0,
    ensures
        (x & (x - 1) as u64) == 0 <==> is_pow2(x as int),
    decreases x,
{
    reveal(is_pow2);
    if x == 1 {
        assert((1u64 & (1u64 - 1) as u64) == 0) by (bit_vector);
    } else {
        let h = x / 2;
        lemma_single_bit_is_pow2(h);
        assert(x > 1 ==> ((x & (x - 1) as u64) == 0 <==> (x % 2 == 0 && ((x / 2) & ((x / 2) - 1) as u64)
            == 0))) by (bit_vector);
    }
}

/// Clearing the low bits of `x + (a - 1)` rounds `x` up to a multiple of the
/// power of two `a`.
pub proof fn lemma_mask_rounds_up(x: u64, a: u64)
    requires
        is_pow2(a as int),
        x + (a - 1) <= u64::MAX,
    ensures
        (((x + (a - 1)) as u64) & !((a - 1) as u64)) == round_up(x as nat, a as nat),
{
    assert(a > 0) by {
        reveal(is_pow2);
    }
    // a is 2 to the power of some n below 64
    is_pow2_equiv(a as int);
    let n = choose|i: nat| pow(2, i) == a as int;
    if n >= 64 {
        lemma2_to64();
        if n > 64 {
            lemma_pow2_strictly_increases(64, n);
        }
        assert(false);
    }
    let y: u64 = (x + (a - 1)) as u64;
    let m: u64 = (a - 1) as u64;
    // m is the mask of the low n bits, so clearing them takes y % a away
    lemma_u64_low_bits_mask_is_mod(y, n);
    assert((y & m) == y % a);
    assert((y & !m) == y - (y & m)) by (bit_vector);
    // y - y % a is the multiple of a that round_up names
    let q = (x as int) / (a as int);
    let r = (x as int) % (a as int);
    lemma_fundamental_div_mod(x as int, a as int);
    if r == 0 {
        assert(y as int == q * (a as int) + (a - 1)) by (nonlinear_arith)
            requires
                x as int == (a as int) * q,
                y as int == x + (a - 1),
        ;
        lemma_fundamental_div_mod_converse(y as int, a as int, q, a - 1);
    } else {
        assert(y as int == (q + 1) * (a as int) + (r - 1)) by (nonlinear_arith)
            requires
                x as int == (a as int) * q + r,
                y as int == x + (a - 1),
        ;
        lemma_fundamental_div_mod_converse(y as int, a as int, q + 1, r - 1);
    }
}

/// Whether `n` is a power of two.
pub fn is_power_of_two(n: usize) -> (r: bool)
    ensures
        r == is_pow2(n as int),
{
    if n == 0 {
        proof {
            reveal(is_pow2);
        }
        false
    } else {
        let low: usize = n - 1;
        proof {
            lemma_single_bit_is_pow2(n as u64);
        }
        n & low == 0
    }
}

/// The reason why a size and an alignment make no [`Layout`].
#[derive(Debug, Clone, Copy, PartialEq, Eq)]
pub struct LayoutError;

/// Size and alignment of a raw region, both in bytes.
#[derive(Debug, Clone, Copy)]
pub struct Layout {
    size: usize,
    align: usize,
}

impl Layout {
    /// The size in bytes.
    pub closed spec fn spec_size(&self) -> nat {
        self.size as nat
    }

    /// The alignment in bytes.
    pub closed spec fn spec_align(&self) -> nat {
        self.align as nat
    }

    /// Every layout that this module hands out satisfies
    /// [`valid_size_align`].
    pub open spec fn wf(&self) -> bool {
        valid_size_align(self.spec_size(), self.spec_align())
    }

    /// The layout of `size` bytes at alignment `align`, or an error where the
    /// two are not a valid pair.
    pub fn from_size_align(size: usize, align: usize) -> (r: Result<Layout, LayoutError>)
        ensures
            r is Ok <==> valid_size_align(size as nat, align as nat),
            r matches Ok(layout) ==> layout.spec_size() == size && layout.spec_align() == align
                && layout.wf(),
    {
        if !is_power_of_two(align) {
            return Err(LayoutError);
        }
        proof {
            reveal(is_pow2);
        }
        let limit: usize = isize::MAX as usize;
        if align - 1 > limit || size > limit - (align - 1) {
            return Err(LayoutError);
        }
        Ok(Layout { size, align })
    }

    /// The size in bytes.
    pub fn size(&self) -> (size: usize)
        ensures
            size == self.spec_size(),
    {
        self.size
    }

    /// The alignment in bytes.
    pub fn align(&self) -> (align: usize)
        ensures
            align == self.spec_align(),
    {
        self.align
    }
}

} // verus!
