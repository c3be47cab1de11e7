//! The integer types a parsed number can be narrowed to.

use vstd::prelude::*;

verus! {

/// The mathematical reading of a fixed-width integer type: the integer a
/// value stands for, and the least and greatest integers the type holds.
pub trait IntRange: Sized {
    spec fn as_int(&self) -> int;

    spec fn lowest() -> int;

    spec fn highest() -> int;
}

/// A type that a wide intermediate result can be narrowed to.
pub trait ParseTarget: IntRange {
    /// The value of the type that stands for zero.
    fn zero() -> (r: Self)
        ensures
            r.as_int() == 0,
    ;

    /// `Some` of the value that stands for `v` when the type can hold `v`,
    /// `None` when it cannot.
    fn from_wide(v: i128) -> (r: Option<Self>)
        ensures
            r is Some <==> Self::lowest() <= v <= Self::highest(),
            r matches Some(x) ==> x.as_int() == v,
    ;
}

/// Calls `num_traits::identities::zero`. For each primitive integer type the
/// additive identity it returns is the integer 0; `IntRange` is implemented
/// for those types alone.
#[verifier::external_body]
fn zero_of<T: IntRange + num_traits::Zero>() -> (r: T)
    ensures
        r.as_int() == 0,
{
    num_traits::identities::zero::<T>()
}

/// Calls `num_traits::cast::cast` from `i128`. Between primitive integer
/// types it returns `Some` exactly when the source value lies between the
/// target's `MIN` and `MAX`, and the value it carries is then numerically
/// equal to the source; `IntRange` is implemented for those types alone.
#[verifier::external_body]
fn cast_wide<T: IntRange + num_traits::NumCast>(v: i128) -> (r: Option<T>)
    ensures
        r is Some <==> T::lowest() <= v <= T::highest(),
        r matches Some(x) ==> x.as_int() == v,
{
    num_traits::cast::cast::<i128, T>(v)
}

impl IntRange for i8 {
    open spec fn as_int(&self) -> int {
        *self as int
    }

    open spec fn lowest() -> int {
        i8::MIN as int
    }

    open spec fn highest() -> int {
        i8::MAX as int
    }
}

impl ParseTarget for i8 {
    fn zero() -> (r: i8) {
        zero_of::<i8>()
    }

    fn from_wide(v: i128) -> (r: Option<i8>) {
        cast_wide::<i8>(v)
    }
}

impl IntRange for i16 {
    open spec fn as_int(&self) -> int {
        *self as int
    }

    open spec fn lowest() -> int {
        i16::MIN as int
    }

    open spec fn highest() -> int {
        i16::MAX as int
    }
}

impl ParseTarget for i16 {
    fn zero() -> (r: i16) {
        zero_of::<i16>()
    }

    fn from_wide(v: i128) -> (r: Option<i16>) {
        cast_wide::<i16>(v)
    }
}

impl IntRange for i32 {
    open spec fn as_int(&self) -> int {
        *self as int
    }

    open spec fn lowest() -> int {
        i32::MIN as int
    }

    open spec fn highest() -> int {
        i32::MAX as int
    }
}

impl ParseTarget for i32 {
    fn zero() -> (r: i32) {
        zero_of::<i32>()
    }

    fn from_wide(v: i128) -> (r: Option<i32>) {
        cast_wide::<i32>(v)
    }
}

impl IntRange for i64 {
    open spec fn as_int(&self) -> int {
        *self as int
    }

    open spec fn lowest() -> int {
        i64::MIN as int
    }

    open spec fn highest() -> int {
        i64::MAX as int
    }
}

impl ParseTarget for i64 {
    fn zero() -> (r: i64) {
        zero_of::<i64>()
    }

    fn from_wide(v: i128) -> (r: Option<i64>) {
        cast_wide::<i64>(v)
    }
}

impl IntRange for u8 {
    open spec fn as_int(&self) -> int {
        *self as int
    }

    open spec fn lowest() -> int {
        0
    }

    open spec fn highest() -> int {
        u8::MAX as int
    }
}

impl ParseTarget for u8 {
    fn zero() -> (r: u8) {
        zero_of::<u8>()
    }

    fn from_wide(v: i128) -> (r: Option<u8>) {
        cast_wide::<u8>(v)
    }
}

impl IntRange for u16 {
    open spec fn as_int(&self) -> int {
        *self as int
    }

    open spec fn lowest() -> int {
        0
    }

    open spec fn highest() -> int {
        u16::MAX as int
    }
}

impl ParseTarget for u16 {
    fn zero() -> (r: u16) {
        zero_of::<u16>()
    }

    fn from_wide(v: i128) -> (r: Option<u16>) {
        cast_wide::<u16>(v)
    }
}

impl IntRange for u32 {
    open spec fn as_int(&self) -> int {
        *self as int
    }

    open spec fn lowest() -> int {
        0
    }

    open spec fn highest() -> int {
        u32::MAX as int
    }
}

impl ParseTarget for u32 {
    fn zero() -> (r: u32) {
        zero_of::<u32>()
    }

    fn from_wide(v: i128) -> (r: Option<u32>) {
        cast_wide::<u32>(v)
    }
}

impl IntRange for u64 {
    open spec fn as_int(&self) -> int {
        *self as int
    }

    open spec fn lowest() -> int {
        0
    }

    open spec fn highest() -> int {
        u64::MAX as int
    }
}

impl ParseTarget for u64 {
    fn zero() -> (r: u64) {
        zero_of::<u64>()
    }

    fn from_wide(v: i128) -> (r: Option<u64>) {
        cast_wide::<u64>(v)
    }
}

} // verus!
