//! How the values of a program become values on the wire.

use crate::wire::{Value, ValueView};
use vstd::prelude::*;

verus! {

/// The unsigned number under which a signed one travels: small magnitudes
/// of either sign give small numbers.
pub open spec fn zigzag(v: int) -> nat {
    if v >= 0 {
        (2 * v) as nat
    } else {
        (-2 * v - 1) as nat
    }
}

/// The signed number that travelled as `n`.
pub open spec fn unzigzag(n: nat) -> int {
    if n % 2 == 0 {
        n as int / 2
    } else {
        -((n as int + 1) / 2)
    }
}

/// Every signed number comes back from its unsigned form, and every
/// unsigned form from its signed number.
pub proof fn lemma_zigzag_inverse(v: int, n: nat)
    ensures
        unzigzag(zigzag(v)) == v,
        zigzag(unzigzag(n)) == n,
{
}

/// The unsigned number under which `v` travels.
pub fn zigzag_encode(v: i64) -> (n: u64)
    ensures
        n == zigzag(v as int),
{
    if v >= 0 {
        (v as u64) * 2
    } else {
        ((-(v + 1)) as u64) * 2 + 1
    }
}

/// The signed number that travelled as `n`.
pub fn zigzag_decode(n: u64) -> (v: i64)
    ensures
        v == unzigzag(n as nat),
{
    if n % 2 == 0 {
        (n / 2) as i64
    } else {
        -((n / 2) as i64) - 1
    }
}

/// A type whose values can be logged. Scalars travel as variable-length
/// integers; nested and composite values travel as length-delimited bytes.
pub trait Serialize {
    /// The value on the wire that stands for `self`.
    spec fn wire(&self) -> ValueView;

    /// The value on the wire that stands for `self`.
    fn to_value(&self) -> (value: Value)
        ensures
            value@ == self.wire(),
    ;
}

impl Serialize for u8 {
    open spec fn wire(&self) -> ValueView {
        ValueView::Varint(*self as u64)
    }

    fn to_value(&self) -> (value: Value) {
        Value::Varint(*self as u64)
    }
}

impl Serialize for u16 {
    open spec fn wire(&self) -> ValueView {
        ValueView::Varint(*self as u64)
    }

    fn to_value(&self) -> (value: Value) {
        Value::Varint(*self as u64)
    }
}

impl Serialize for u32 {
    open spec fn wire(&self) -> ValueView {
        ValueView::Varint(*self as u64)
    }

    fn to_value(&self) -> (value: Value) {
        Value::Varint(*self as u64)
    }
}

impl Serialize for u64 {
    open spec fn wire(&self) -> ValueView {
        ValueView::Varint(*self)
    }

    fn to_value(&self) -> (value: Value) {
        Value::Varint(*self)
    }
}

impl Serialize for bool {
    open spec fn wire(&self) -> ValueView {
        ValueView::Varint(
            if *self {
                1u64
            } else {
                0u64
            },
        )
    }

    fn to_value(&self) -> (value: Value) {
        Value::Varint(
            if *self {
                1
            } else {
                0
            },
        )
    }
}

impl Serialize for i8 {
    open spec fn wire(&self) -> ValueView {
        ValueView::Varint(zigzag(*self as int) as u64)
    }

    fn to_value(&self) -> (value: Value) {
        Value::Varint(zigzag_encode(*self as i64))
    }
}

impl Serialize for i16 {
    open spec fn wire(&self) -> ValueView {
        ValueView::Varint(zigzag(*self as int) as u64)
    }

    fn to_value(&self) -> (value: Value) {
        Value::Varint(zigzag_encode(*self as i64))
    }
}

impl Serialize for i32 {
    open spec fn wire(&self) -> ValueView {
        ValueView::Varint(zigzag(*self as int) as u64)
    }

    fn to_value(&self) -> (value: Value) {
        Value::Varint(zigzag_encode(*self as i64))
    }
}

impl Serialize for i64 {
    open spec fn wire(&self) -> ValueView {
        ValueView::Varint(zigzag(*self as int) as u64)
    }

    fn to_value(&self) -> (value: Value) {
        Value::Varint(zigzag_encode(*self))
    }
}

impl Serialize for Value {
    open spec fn wire(&self) -> ValueView {
        self@
    }

    fn to_value(&self) -> (value: Value) {
        self.clone()
    }
}

} // verus!
