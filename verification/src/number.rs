//! The integer types that an integer line can be read into.

use vstd::prelude::*;

verus! {

/// An integer type that the integer lexer can produce.
///
/// A number arrives as a sign and a magnitude. A type takes it where the
/// signed value lies in its range; a type without negative values takes no
/// number written with a minus sign, not even `-0`.
pub trait KvnInteger: Sized {
    /// The least value of the type.
    spec fn least() -> int;

    /// The greatest value of the type.
    spec fn greatest() -> int;

    /// The value as a mathematical integer.
    spec fn value(&self) -> int;

    /// The range lies within 64 bits.
    proof fn lemma_range()
        ensures
            -0x8000_0000_0000_0000 <= Self::least() <= 0,
            0 <= Self::greatest() <= 0xffff_ffff_ffff_ffff,
    ;

    /// The value with the given sign and magnitude, if the type has it.
    fn from_decimal(negative: bool, magnitude: u128) -> (r: Option<Self>)
        ensures
            r is Some <==> takes(Self::least(), Self::greatest(), negative, magnitude as int),
            r matches Some(v) ==> v.value() == signed_value(negative, magnitude as int),
    ;
}

/// Whether a type with the given least and greatest value has the number
/// with the given sign and magnitude.
pub open spec fn takes(least: int, greatest: int, negative: bool, magnitude: int) -> bool {
    if negative {
        least < 0 && magnitude <= -least
    } else {
        magnitude <= greatest
    }
}

/// The number with the given sign and magnitude.
pub open spec fn signed_value(negative: bool, magnitude: int) -> int {
    if negative {
        -magnitude
    } else {
        magnitude
    }
}

/// The magnitude from which on no type takes a number: 2 to the power 64.
pub const MAGNITUDE_LIMIT: u128 = 0x1_0000_0000_0000_0000;

impl KvnInteger for u8 {
    open spec fn least() -> int {
        0
    }

    open spec fn greatest() -> int {
        u8::MAX as int
    }

    open spec fn value(&self) -> int {
        *self as int
    }

    proof fn lemma_range() {
    }

    fn from_decimal(negative: bool, magnitude: u128) -> (r: Option<Self>) {
        if negative || magnitude > u8::MAX as u128 {
            None
        } else {
            Some(magnitude as u8)
        }
    }
}

impl KvnInteger for u16 {
    open spec fn least() -> int {
        0
    }

    open spec fn greatest() -> int {
        u16::MAX as int
    }

    open spec fn value(&self) -> int {
        *self as int
    }

    proof fn lemma_range() {
    }

    fn from_decimal(negative: bool, magnitude: u128) -> (r: Option<Self>) {
        if negative || magnitude > u16::MAX as u128 {
            None
        } else {
            Some(magnitude as u16)
        }
    }
}

impl KvnInteger for u32 {
    open spec fn least() -> int {
        0
    }

    open spec fn greatest() -> int {
        u32::MAX as int
    }

    open spec fn value(&self) -> int {
        *self as int
    }

    proof fn lemma_range() {
    }

    fn from_decimal(negative: bool, magnitude: u128) -> (r: Option<Self>) {
        if negative || magnitude > u32::MAX as u128 {
            None
        } else {
            Some(magnitude as u32)
        }
    }
}

impl KvnInteger for u64 {
    open spec fn least() -> int {
        0
    }

    open spec fn greatest() -> int {
        u64::MAX as int
    }

    open spec fn value(&self) -> int {
        *self as int
    }

    proof fn lemma_range() {
    }

    fn from_decimal(negative: bool, magnitude: u128) -> (r: Option<Self>) {
        if negative || magnitude > u64::MAX as u128 {
            None
        } else {
            Some(magnitude as u64)
        }
    }
}

impl KvnInteger for i8 {
    open spec fn least() -> int {
        i8::MIN as int
    }

    open spec fn greatest() -> int {
        i8::MAX as int
    }

    open spec fn value(&self) -> int {
        *self as int
    }

    proof fn lemma_range() {
    }

    fn from_decimal(negative: bool, magnitude: u128) -> (r: Option<Self>) {
        if negative {
            if magnitude > i8::MAX as u128 + 1 {
                None
            } else {
                Some((0 - magnitude as i128) as i8)
            }
        } else if magnitude > i8::MAX as u128 {
            None
        } else {
            Some(magnitude as i8)
        }
    }
}

impl KvnInteger for i16 {
    open spec fn least() -> int {
        i16::MIN as int
    }

    open spec fn greatest() -> int {
        i16::MAX as int
    }

    open spec fn value(&self) -> int {
        *self as int
    }

    proof fn lemma_range() {
    }

    fn from_decimal(negative: bool, magnitude: u128) -> (r: Option<Self>) {
        if negative {
            if magnitude > i16::MAX as u128 + 1 {
                None
            } else {
                Some((0 - magnitude as i128) as i16)
            }
        } else if magnitude > i16::MAX as u128 {
            None
        } else {
            Some(magnitude as i16)
        }
    }
}

impl KvnInteger for i32 {
    open spec fn least() -> int {
        i32::MIN as int
    }

    open spec fn greatest() -> int {
        i32::MAX as int
    }

    open spec fn value(&self) -> int {
        *self as int
    }

    proof fn lemma_range() {
    }

    fn from_decimal(negative: bool, magnitude: u128) -> (r: Option<Self>) {
        if negative {
            if magnitude > i32::MAX as u128 + 1 {
                None
            } else {
                Some((0 - magnitude as i128) as i32)
            }
        } else if magnitude > i32::MAX as u128 {
            None
        } else {
            Some(magnitude as i32)
        }
    }
}

impl KvnInteger for i64 {
    open spec fn least() -> int {
        i64::MIN as int
    }

    open spec fn greatest() -> int {
        i64::MAX as int
    }

    open spec fn value(&self) -> int {
        *self as int
    }

    proof fn lemma_range() {
    }

    fn from_decimal(negative: bool, magnitude: u128) -> (r: Option<Self>) {
        if negative {
            if magnitude > i64::MAX as u128 + 1 {
                None
            } else {
                Some((0 - magnitude as i128) as i64)
            }
        } else if magnitude > i64::MAX as u128 {
            None
        } else {
            Some(magnitude as i64)
        }
    }
}

} // verus!
