//! Checked widening of signed on-disk integers into unsigned in-memory ones.
//!
//! Both container formats store offsets, sizes and counts as signed 32-bit
//! fields that the rest of the code wants as unsigned types. The conversion
//! must reject negatives explicitly rather than reinterpret them.

use vstd::prelude::*;

verus! {

/// A checked conversion between integer types.
///
/// Each implementation names, through [`widened`](Self::widened), exactly
/// which source values convert and what they convert to; `try_from_temp`
/// succeeds precisely on those values.
pub trait TryFromTemp<T>: Sized {
    /// The value that `value` widens to, if it widens at all.
    spec fn widened(value: T) -> Option<Self>;

    /// Convert `value`, failing on values that [`widened`](Self::widened)
    /// excludes.
    fn try_from_temp(value: T) -> (r: Result<Self, TryFromIntError>)
        ensures
            match r {
                Ok(v) => Self::widened(value) == Some(v),
                Err(_) => Self::widened(value) is None,
            },
    ;
}

impl TryFromTemp<i32> for usize {
    open spec fn widened(value: i32) -> Option<usize> {
        if value >= 0 {
            Some(value as usize)
        } else {
            None
        }
    }

    fn try_from_temp(value: i32) -> (r: Result<usize, TryFromIntError>) {
        if value >= 0 {
            Ok(value as usize)
        } else {
            Err(TryFromIntError)
        }
    }
}

impl TryFromTemp<i32> for u64 {
    open spec fn widened(value: i32) -> Option<u64> {
        if value >= 0 {
            Some(value as u64)
        } else {
            None
        }
    }

    fn try_from_temp(value: i32) -> (r: Result<u64, TryFromIntError>) {
        if value >= 0 {
            Ok(value as u64)
        } else {
            Err(TryFromIntError)
        }
    }
}

/// The error type returned when a checked integral type conversion fails.
#[derive(Clone, Copy, Debug, PartialEq, Eq, Structural)]
pub struct TryFromIntError;

impl TryFromIntError {
    /// A short description of the failure, for display by the caller.
    pub fn __description(&self) -> (r: &'static str)
        ensures
            r@ == "out of range integral type conversion attempted"@,
    {
        "out of range integral type conversion attempted"
    }
}

} // verus!
