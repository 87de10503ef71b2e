//! Element types the tensor layer can hold.
//!
//! The elementwise operations of the tensor layer need exactly two things of
//! an element: a zero, and a wrapping (modular) addition. [`Numeric`] states
//! both, each paired with a specification-level function that pins the
//! result down, so that every tensor operation built on them has an exact
//! contract.

use vstd::prelude::*;

verus! {

/// A scalar that can back the scheme's buffers: it has a zero and a wrapping
/// addition, each with an exact specification.
pub trait Numeric: Copy + Sized {
    /// The zero of the type, at the specification level.
    spec fn spec_zero() -> Self;

    /// What wrapping addition returns, at the specification level.
    spec fn spec_wrapping_add(self, other: Self) -> Self;

    /// Returns the zero element.
    fn zero() -> (r: Self)
        ensures
            r == Self::spec_zero(),
    ;

    /// Adds `other` to `self`, wrapping around the type's modulus.
    fn wrapping_add(self, other: Self) -> (r: Self)
        ensures
            r == self.spec_wrapping_add(other),
    ;
}

impl Numeric for u8 {
    open spec fn spec_zero() -> u8 {
        0u8
    }

    open spec fn spec_wrapping_add(self, other: u8) -> u8 {
        vstd::wrapping::u8_specs::wrapping_add(self, other)
    }

    fn zero() -> u8 {
        0
    }

    fn wrapping_add(self, other: u8) -> u8 {
        u8::wrapping_add(self, other)
    }
}

impl Numeric for u16 {
    open spec fn spec_zero() -> u16 {
        0u16
    }

    open spec fn spec_wrapping_add(self, other: u16) -> u16 {
        vstd::wrapping::u16_specs::wrapping_add(self, other)
    }

    fn zero() -> u16 {
        0
    }

    fn wrapping_add(self, other: u16) -> u16 {
        u16::wrapping_add(self, other)
    }
}

impl Numeric for u32 {
    open spec fn spec_zero() -> u32 {
        0u32
    }

    open spec fn spec_wrapping_add(self, other: u32) -> u32 {
        vstd::wrapping::u32_specs::wrapping_add(self, other)
    }

    fn zero() -> u32 {
        0
    }

    fn wrapping_add(self, other: u32) -> u32 {
        u32::wrapping_add(self, other)
    }
}

impl Numeric for u64 {
    open spec fn spec_zero() -> u64 {
        0u64
    }

    open spec fn spec_wrapping_add(self, other: u64) -> u64 {
        vstd::wrapping::u64_specs::wrapping_add(self, other)
    }

    fn zero() -> u64 {
        0
    }

    fn wrapping_add(self, other: u64) -> u64 {
        u64::wrapping_add(self, other)
    }
}

} // verus!
