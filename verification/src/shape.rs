//! Shapes of tensors.
//!
//! # Broadcasting
//!
//! Two lists of extents can be broadcast against each other if, read from the
//! last extent backwards, the extents at each position are equal, or one of
//! them is 1, or one of the lists has ended. The broadcast list has, at each
//! position, the extent that is not 1.
//!
//! For a matrix product the extents before the last two (the batch) are
//! broadcast, and the last two follow the rule of the matrix product:
//! `[.., M, K]` times `[.., K, N]` gives `[.., M, N]`.

use crate::error::TensorError;
use crate::text::{bracketed, push_list};
use vstd::prelude::*;
use vstd::string::StringExecFns;

verus! {

/// The product of the extents; 1 for no extent.
pub open spec fn product(dims: Seq<usize>) -> nat
    decreases dims.len(),
{
    if dims.len() == 0 {
        1
    } else {
        dims[0] as nat * product(dims.skip(1))
    }
}

/// The offset of the element at `indices` in a row-major layout of extents
/// `dims`: each index counts as many elements as the extents behind it hold.
pub open spec fn offset(dims: Seq<usize>, indices: Seq<usize>) -> nat
    recommends
        dims.len() == indices.len(),
    decreases dims.len(),
{
    if dims.len() == 0 {
        0
    } else {
        indices[0] as nat * product(dims.skip(1)) + offset(dims.skip(1), indices.skip(1))
    }
}

/// Every index lies below the extent of its dimension.
pub open spec fn in_bounds(dims: Seq<usize>, indices: Seq<usize>) -> bool {
    &&& dims.len() == indices.len()
    &&& forall|i: int| 0 <= i < dims.len() ==> indices[i] < dims[i]
}

/// A list with a zero extent holds no element.
pub proof fn lemma_product_zero(dims: Seq<usize>, k: int)
    requires
        0 <= k < dims.len(),
        dims[k] == 0,
    ensures
        product(dims) == 0,
    decreases dims.len(),
{
    if k > 0 {
        lemma_product_zero(dims.skip(1), k - 1);
        assert(dims[0] as nat * product(dims.skip(1)) == 0) by (nonlinear_arith)
            requires
                product(dims.skip(1)) == 0,
        ;
    } else {
        assert(dims[0] as nat * product(dims.skip(1)) == 0) by (nonlinear_arith)
            requires
                dims[0] == 0,
        ;
    }
}

/// Where no extent is zero, the extents from position `i` on hold at least
/// one element and at most as many as all of them.
pub proof fn lemma_product_suffix(dims: Seq<usize>, i: int)
    requires
        0 <= i <= dims.len(),
        forall|j: int| 0 <= j < dims.len() ==> dims[j] >= 1,
    ensures
        1 <= product(dims.skip(i)) <= product(dims),
    decreases dims.len(),
{
    if dims.len() == 0 {
    } else if i == 0 {
        assert(dims.skip(0) =~= dims);
        lemma_product_suffix(dims.skip(1), 0);
        assert(dims[0] as nat * product(dims.skip(1)) >= 1) by (nonlinear_arith)
            requires
                dims[0] >= 1,
                product(dims.skip(1)) >= 1,
        ;
    } else {
        lemma_product_suffix(dims.skip(1), i - 1);
        assert(dims.skip(1).skip(i - 1) =~= dims.skip(i));
        assert(dims[0] as nat * product(dims.skip(1)) >= product(dims.skip(1)))
            by (nonlinear_arith)
            requires
                dims[0] >= 1,
        ;
    }
}

/// The offset of an index within its bounds is less than the number of
/// elements.
pub proof fn lemma_offset_below_product(dims: Seq<usize>, indices: Seq<usize>)
    requires
        in_bounds(dims, indices),
    ensures
        offset(dims, indices) < product(dims),
    decreases dims.len(),
{
    if dims.len() > 0 {
        let rest = dims.skip(1);
        let tail = indices.skip(1);
        lemma_offset_below_product(rest, tail);
        assert(indices[0] as nat * product(rest) + offset(rest, tail) < dims[0] as nat * product(
            rest,
        )) by (nonlinear_arith)
            requires
                indices[0] < dims[0],
                offset(rest, tail) < product(rest),
        ;
    }
}

/// The extent at position `i` counted from the last, 1 where the list is
/// shorter.
pub open spec fn from_end(c: Seq<usize>, i: int) -> usize {
    if 0 <= i < c.len() {
        c[c.len() - 1 - i]
    } else {
        1
    }
}

/// The extent that two extents broadcast to, if they do.
pub open spec fn broadcast_dim(d1: usize, d2: usize) -> Option<usize> {
    if d1 == 1 {
        Some(d2)
    } else if d2 == 1 {
        Some(d1)
    } else if d1 == d2 {
        Some(d1)
    } else {
        None
    }
}

/// The length of the longer of two lists.
pub open spec fn longer(a: Seq<usize>, b: Seq<usize>) -> nat {
    if a.len() >= b.len() {
        a.len()
    } else {
        b.len()
    }
}

/// The two lists do not broadcast at position `i` from the end.
pub open spec fn clash(a: Seq<usize>, b: Seq<usize>, i: int) -> bool {
    broadcast_dim(from_end(a, i), from_end(b, i)) is None
}

/// Position `i` from the end is the first at which the two lists clash.
pub open spec fn first_clash(a: Seq<usize>, b: Seq<usize>, i: int) -> bool {
    &&& 0 <= i < longer(a, b)
    &&& clash(a, b, i)
    &&& forall|j: int| 0 <= j < i ==> !clash(a, b, j)
}

/// The two lists can be broadcast against each other.
pub open spec fn broadcastable(a: Seq<usize>, b: Seq<usize>) -> bool {
    forall|i: int| 0 <= i < longer(a, b) ==> !clash(a, b, i)
}

/// What two lists broadcast to.
pub open spec fn broadcast(a: Seq<usize>, b: Seq<usize>) -> Seq<usize>
    recommends
        broadcastable(a, b),
{
    Seq::new(
        longer(a, b),
        |k: int|
            broadcast_dim(
                from_end(a, longer(a, b) - 1 - k),
                from_end(b, longer(a, b) - 1 - k),
            ).unwrap(),
    )
}

/// The extents before the last two.
pub open spec fn batch(c: Seq<usize>) -> Seq<usize> {
    if c.len() >= 2 {
        c.take(c.len() - 2)
    } else {
        Seq::empty()
    }
}

/// The extent of the left operand that the product sums over: its last.
pub open spec fn inner_left(a: Seq<usize>) -> usize
    recommends
        a.len() >= 1,
{
    a.last()
}

/// The extent of the right operand that the product sums over: its last but
/// one, or its only one.
pub open spec fn inner_right(b: Seq<usize>) -> usize
    recommends
        b.len() >= 1,
{
    if b.len() == 1 {
        b[0]
    } else {
        b[b.len() - 2]
    }
}

/// The rows of the product: the last extent but one of the left operand, 1
/// where it has only one.
pub open spec fn rows(a: Seq<usize>) -> usize {
    if a.len() >= 2 {
        a[a.len() - 2]
    } else {
        1
    }
}

/// The columns of the product: the last extent of the right operand, 1 where
/// it has only one.
pub open spec fn columns(b: Seq<usize>) -> usize {
    if b.len() >= 2 {
        b.last()
    } else {
        1
    }
}

/// The extents of the matrix product of tensors of extents `a` and `b`.
pub open spec fn matmul_dims(a: Seq<usize>, b: Seq<usize>) -> Seq<usize> {
    broadcast(batch(a), batch(b)).push(rows(a)).push(columns(b))
}

/// The text of the error for operands whose inner extents differ.
pub open spec fn mismatch_text(a: Seq<usize>, b: Seq<usize>) -> Seq<char> {
    "cannot matmul\na: "@ + bracketed(a) + "\nb: "@ + bracketed(b)
}

/// `n`, or `usize::MAX` where `n` exceeds it.
pub open spec fn saturated(n: nat) -> nat {
    if n <= usize::MAX {
        n
    } else {
        usize::MAX as nat
    }
}

/// `a * b`, or `usize::MAX` where the product exceeds it.
pub fn saturating_mul(a: usize, b: usize) -> (r: usize)
    ensures
        r == saturated(a as nat * b as nat),
{
    match a.checked_mul(b) {
        Some(r) => r,
        None => usize::MAX,
    }
}

/// What the extents `a` and `b` broadcast to, or the first pair of extents,
/// from the end, that do not broadcast.
pub fn try_broadcast(a: &[usize], b: &[usize]) -> (r: Result<Vec<usize>, TensorError>)
    ensures
        broadcastable(a@, b@) ==> (r matches Ok(dims) && dims@ == broadcast(a@, b@)),
        !broadcastable(a@, b@) ==> (r matches Err(TensorError::Broadcast { d1, d2 }) && exists|
            i: int,
        |
            first_clash(a@, b@, i) && d1 == from_end(a@, i) && d2 == from_end(b@, i)),
{
    let max_len = if a.len() >= b.len() {
        a.len()
    } else {
        b.len()
    };
    let mut reversed: Vec<usize> = Vec::new();
    let mut i: usize = 0;
    while i < max_len
        invariant
            i <= max_len,
            max_len == longer(a@, b@),
            reversed@.len() == i,
            forall|j: int| 0 <= j < i ==> !clash(a@, b@, j),
            forall|j: int|
                0 <= j < i ==> #[trigger] reversed@[j] == broadcast_dim(
                    from_end(a@, j),
                    from_end(b@, j),
                ).unwrap(),
        decreases max_len - i,
    {
        let d1: usize = if i < a.len() {
            a[a.len() - 1 - i]
        } else {
            1
        };
        let d2: usize = if i < b.len() {
            b[b.len() - 1 - i]
        } else {
            1
        };
        if d1 == 1 {
            reversed.push(d2);
        } else if d2 == 1 {
            reversed.push(d1);
        } else if d1 == d2 {
            reversed.push(d1);
        } else {
            proof {
                assert(first_clash(a@, b@, i as int));
            }
            return Err(TensorError::Broadcast { d1, d2 });
        }
        i += 1;
    }
    let mut dims: Vec<usize> = Vec::new();
    let mut k: usize = 0;
    while k < max_len
        invariant
            k <= max_len,
            reversed@.len() == max_len,
            dims@.len() == k,
            forall|j: int| 0 <= j < k ==> #[trigger] dims@[j] == reversed@[max_len - 1 - j],
        decreases max_len - k,
    {
        dims.push(reversed[max_len - 1 - k]);
        k += 1;
    }
    Ok(dims)
}

/// The extents of a tensor, outermost dimension first.
#[derive(Debug, PartialEq, Eq)]
pub struct Shape(Vec<usize>);

impl Shape {
    /// The extents as a sequence.
    pub closed spec fn view(&self) -> Seq<usize> {
        self.0@
    }

    /// The number of dimensions.
    pub fn ndims(&self) -> (n: usize)
        ensures
            n == self@.len(),
    {
        self.0.len()
    }

    /// The extents.
    pub fn dims(&self) -> (dims: &[usize])
        ensures
            dims@ == self@,
    {
        self.0.as_slice()
    }

    /// The number of elements: the product of the extents.
    pub fn volume(&self) -> (volume: usize)
        requires
            product(self@) <= usize::MAX,
        ensures
            volume == product(self@),
    {
        let n = self.0.len();
        let mut z: usize = 0;
        while z < n
            invariant
                z <= n,
                n == self.0@.len(),
                forall|j: int| 0 <= j < z ==> self.0@[j] >= 1,
            decreases n - z,
        {
            if self.0[z] == 0 {
                proof {
                    lemma_product_zero(self@, z as int);
                }
                return 0;
            }
            z += 1;
        }
        let mut volume: usize = 1;
        let mut i: usize = n;
        while i > 0
            invariant
                i <= n,
                n == self.0@.len(),
                forall|j: int| 0 <= j < n ==> self.0@[j] >= 1,
                product(self@) <= usize::MAX,
                volume == product(self@.skip(i as int)),
            decreases i,
        {
            i -= 1;
            proof {
                lemma_product_suffix(self@, i as int);
                assert(self@.skip(i as int).skip(1) =~= self@.skip(i + 1));
            }
            volume = self.0[i] * volume;
        }
        proof {
            assert(self@.skip(0) =~= self@);
        }
        volume
    }

    /// The strides of a row-major layout: for each dimension the number of
    /// elements that the dimensions behind it hold, or `usize::MAX` where
    /// that number exceeds it.
    pub fn strides(&self) -> (strides: Self)
        ensures
            strides@.len() == self@.len(),
            forall|i: int|
                0 <= i < self@.len() ==> #[trigger] strides@[i] == saturated(
                    product(self@.skip(i + 1)),
                ),
    {
        let n = self.0.len();
        let mut strides: Vec<usize> = Vec::new();
        let mut f: usize = 0;
        while f < n
            invariant
                f <= n,
                strides@.len() == f,
            decreases n - f,
        {
            strides.push(0);
            f += 1;
        }
        let mut acc: usize = 1;
        let mut i: usize = n;
        while i > 0
            invariant
                i <= n,
                n == self.0@.len(),
                strides@.len() == n,
                acc == saturated(product(self@.skip(i as int))),
                forall|j: int|
                    i <= j < n ==> #[trigger] strides@[j] == saturated(product(self@.skip(j + 1))),
            decreases i,
        {
            i -= 1;
            strides[i] = acc;
            let dim = self.0[i];
            proof {
                let rest = product(self@.skip(i + 1));
                assert(self@.skip(i as int).skip(1) =~= self@.skip(i + 1));
                // saturating once at the end is saturating at every step
                assert(saturated(acc as nat * dim as nat) == saturated(dim as nat * rest))
                    by (nonlinear_arith)
                    requires
                        acc == saturated(rest),
                        acc <= usize::MAX,
                        dim <= usize::MAX,
                ;
            }
            acc = saturating_mul(acc, dim);
        }
        Shape(strides)
    }

    /// The offset of the element at `indices` in a row-major layout.
    pub fn linear_index(&self, indices: &[usize]) -> (index: usize)
        requires
            in_bounds(self@, indices@),
            offset(self@, indices@) <= usize::MAX,
        ensures
            index == offset(self@, indices@),
            index < product(self@),
    {
        let n = self.0.len();
        let mut acc: usize = 0;
        let mut i: usize = 0;
        proof {
            assert(self@.skip(0) =~= self@);
            assert(indices@.skip(0) =~= indices@);
            lemma_offset_below_product(self@, indices@);
        }
        while i < n
            invariant
                i <= n,
                n == self.0@.len(),
                in_bounds(self@, indices@),
                offset(self@, indices@) <= usize::MAX,
                offset(self@, indices@) < product(self@),
                acc * product(self@.skip(i as int)) + offset(
                    self@.skip(i as int),
                    indices@.skip(i as int),
                ) == offset(self@, indices@),
            decreases n - i,
        {
            let dim = self.0[i];
            let idx = indices[i];
            proof {
                let rest = product(self@.skip(i + 1));
                let tail = offset(self@.skip(i + 1), indices@.skip(i + 1));
                assert(self@.skip(i as int).skip(1) =~= self@.skip(i + 1));
                assert(indices@.skip(i as int).skip(1) =~= indices@.skip(i + 1));
                lemma_product_suffix(self@, i + 1);
                assert((acc * dim + idx) * rest + tail == offset(self@, indices@) && acc * dim
                    + idx <= offset(self@, indices@)) by (nonlinear_arith)
                    requires
                        acc * (dim as nat * rest) + (idx as nat * rest + tail) == offset(
                            self@,
                            indices@,
                        ),
                        rest >= 1,
                        tail >= 0,
                ;
            }
            acc = acc * dim + idx;
            i += 1;
        }
        proof {
            assert(acc * 1 == acc);
        }
        acc
    }

    /// The extents of the matrix product of a tensor of this shape with one
    /// of the shape `other`, after the batch extents were broadcast.
    pub fn can_broadcast_matmul(&self, other: &Self) -> (r: Result<Self, TensorError>)
        ensures
            self@.len() == 0 || other@.len() == 0 ==> (r matches Err(TensorError::InvalidOp(text))
                && text@ == "matmul requires at least 1D tensors"@),
            self@.len() > 0 && other@.len() > 0 && inner_left(self@) != inner_right(other@) ==> (
            r matches Err(TensorError::InvalidOp(text)) && text@ == mismatch_text(self@, other@)),
            self@.len() > 0 && other@.len() > 0 && inner_left(self@) == inner_right(other@)
                && !broadcastable(batch(self@), batch(other@)) ==> (r matches Err(
                TensorError::Broadcast { d1, d2 },
            ) && exists|i: int|
                first_clash(batch(self@), batch(other@), i) && d1 == from_end(batch(self@), i)
                    && d2 == from_end(batch(other@), i)),
            self@.len() > 0 && other@.len() > 0 && inner_left(self@) == inner_right(other@)
                && broadcastable(batch(self@), batch(other@)) ==> (r matches Ok(shape) && shape@
                == matmul_dims(self@, other@)),
    {
        let a = self.dims();
        let b = other.dims();
        if a.len() == 0 || b.len() == 0 {
            return Err(
                TensorError::InvalidOp(String::from_str("matmul requires at least 1D tensors")),
            );
        }
        let a_last = a[a.len() - 1];
        let b_snd_last = if b.len() == 1 {
            b[0]
        } else {
            b[b.len() - 2]
        };
        if a_last != b_snd_last {
            let mut text = String::from_str("cannot matmul\na: ");
            push_list(&mut text, a);
            text.append("\nb: ");
            push_list(&mut text, b);
            return Err(TensorError::InvalidOp(text));
        }
        let a_batch_len: usize = if a.len() >= 2 {
            a.len() - 2
        } else {
            0
        };
        let b_batch_len: usize = if b.len() >= 2 {
            b.len() - 2
        } else {
            0
        };
        let (a_batch, _) = a.split_at(a_batch_len);
        let (b_batch, _) = b.split_at(b_batch_len);
        let mut output = match try_broadcast(a_batch, b_batch) {
            Ok(output) => output,
            Err(e) => {
                return Err(e);
            },
        };
        let m = if a.len() >= 2 {
            a[a.len() - 2]
        } else {
            1
        };
        let n = if b.len() >= 2 {
            b[b.len() - 1]
        } else {
            1
        };
        output.push(m);
        output.push(n);
        Ok(Shape(output))
    }

    /// The text of the shape, such as `Shape([2, 3])`.
    pub open spec fn spec_text(&self) -> Seq<char> {
        "Shape("@ + bracketed(self@) + ")"@
    }

    /// The shape as text.
    pub fn to_text(&self) -> (text: String)
        ensures
            text@ == self.spec_text(),
    {
        let mut text = String::from_str("Shape(");
        push_list(&mut text, self.0.as_slice());
        text.append(")");
        text
    }
}

impl std::ops::Index<usize> for Shape {
    type Output = usize;

    fn index(&self, index: usize) -> (dim: &usize)
        ensures
            *dim == self@[index as int],
    {
        &self.0[index]
    }
}

impl vstd::std_specs::core::IndexSpecImpl<usize> for Shape {
    open spec fn index_req(&self, index: &usize) -> bool {
        *index < self@.len()
    }
}

impl Clone for Shape {
    fn clone(&self) -> (res: Self)
        ensures
            res@ == self@,
    {
        Shape::from(self.0.as_slice())
    }
}

impl From<&[usize]> for Shape {
    fn from(value: &[usize]) -> (shape: Self)
        ensures
            shape@ == value@,
    {
        let mut dims: Vec<usize> = Vec::new();
        let mut i: usize = 0;
        while i < value.len()
            invariant
                i <= value@.len(),
                dims@ == value@.take(i as int),
            decreases value@.len() - i,
        {
            dims.push(value[i]);
            i += 1;
        }
        Shape(dims)
    }
}

/// What `from` gives is stated by its `ensures`, over the view: the shape
/// cannot be written down as a value in a specification.
impl vstd::std_specs::convert::FromSpecImpl<&[usize]> for Shape {
    open spec fn obeys_from_spec() -> bool {
        false
    }

    open spec fn from_spec(value: &[usize]) -> Self {
        arbitrary()
    }
}

} // verus!
