//! The errors of the library.

use crate::shape::Shape;
use crate::text::{decimal, push_decimal};
use vstd::prelude::*;
use vstd::string::StringExecFns;

verus! {

/// What can go wrong while a tensor is built or combined with another.
#[derive(Debug)]
pub enum TensorError {
    /// The data does not have the extents that were expected of it.
    InconsistentDims { expected: Shape, received: Shape },
    /// The memory layer could not do what was asked.
    Memory(String),
    /// Two extents cannot be broadcast against each other.
    Broadcast { d1: usize, d2: usize },
    /// The operation is not defined on its operands.
    InvalidOp(String),
}

impl TensorError {
    /// The two errors are of one kind and say the same.
    pub open spec fn same_as(&self, other: Self) -> bool {
        match (*self, other) {
            (
                TensorError::InconsistentDims { expected: e1, received: r1 },
                TensorError::InconsistentDims { expected: e2, received: r2 },
            ) => e1@ == e2@ && r1@ == r2@,
            (TensorError::Memory(a), TensorError::Memory(b)) => a@ == b@,
            (
                TensorError::Broadcast { d1: a1, d2: a2 },
                TensorError::Broadcast { d1: b1, d2: b2 },
            ) => a1 == b1 && a2 == b2,
            (TensorError::InvalidOp(a), TensorError::InvalidOp(b)) => a@ == b@,
            _ => false,
        }
    }

    /// The text that describes the error.
    pub open spec fn spec_text(&self) -> Seq<char> {
        match *self {
            TensorError::InconsistentDims { expected, received } =>
                "inconsistent dimensions. expected: "@ + expected.spec_text() + ", received: "@
                    + received.spec_text(),
            TensorError::Memory(why) => "memory handling violation: "@ + why@,
            TensorError::InvalidOp(why) => "invalid operation: "@ + why@,
            TensorError::Broadcast { d1, d2 } => "cannot broadcast dimensions: "@ + decimal(
                d1 as nat,
            ) + " vs "@ + decimal(d2 as nat),
        }
    }

    /// The error as text.
    pub fn to_text(&self) -> (text: String)
        ensures
            text@ == self.spec_text(),
    {
        match self {
            TensorError::InconsistentDims { expected, received } => {
                let mut text = String::from_str("inconsistent dimensions. expected: ");
                text.append(expected.to_text().as_str());
                text.append(", received: ");
                text.append(received.to_text().as_str());
                text
            },
            TensorError::Memory(why) => {
                let mut text = String::from_str("memory handling violation: ");
                text.append(why.as_str());
                text
            },
            TensorError::InvalidOp(why) => {
                let mut text = String::from_str("invalid operation: ");
                text.append(why.as_str());
                text
            },
            TensorError::Broadcast { d1, d2 } => {
                let mut text = String::from_str("cannot broadcast dimensions: ");
                push_decimal(&mut text, *d1);
                text.append(" vs ");
                push_decimal(&mut text, *d2);
                text
            },
        }
    }

    /// The error of data that has the extents `received` where `expected`
    /// were asked for.
    pub fn inconsistent(expected: &[usize], received: &[usize]) -> (e: Self)
        ensures
            e matches TensorError::InconsistentDims { expected: x, received: y } && x@ == expected@
                && y@ == received@,
    {
        TensorError::InconsistentDims {
            expected: Shape::from(expected),
            received: Shape::from(received),
        }
    }
}

impl Clone for TensorError {
    fn clone(&self) -> (res: Self)
        ensures
            self.same_as(res),
    {
        match self {
            TensorError::InconsistentDims { expected, received } => TensorError::InconsistentDims {
                expected: expected.clone(),
                received: received.clone(),
            },
            TensorError::Memory(why) => TensorError::Memory(why.clone()),
            TensorError::Broadcast { d1, d2 } => TensorError::Broadcast { d1: *d1, d2: *d2 },
            TensorError::InvalidOp(why) => TensorError::InvalidOp(why.clone()),
        }
    }
}

} // verus!
