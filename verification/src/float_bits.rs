//! IEEE-754 binary floating-point values held as their bit patterns.
//!
//! A cell of a floating-point column is stored as the unsigned integer whose
//! bits are those of the value. Order and truthiness are decided on that
//! integer: the top bit is the sign, the remaining bits grow with the
//! magnitude, and a magnitude above that of infinity is a NaN.
use vstd::prelude::*;

verus! {

/// Sign bit of a binary64 pattern.
pub const F64_SIGN: u64 = 0x8000_0000_0000_0000;

/// Magnitude bits of positive infinity in binary64; larger magnitudes are NaN.
pub const F64_INFINITY: u64 = 0x7ff0_0000_0000_0000;

/// Sign bit of a binary32 pattern.
pub const F32_SIGN: u32 = 0x8000_0000;

/// Magnitude bits of positive infinity in binary32; larger magnitudes are NaN.
pub const F32_INFINITY: u32 = 0x7f80_0000;

/// A binary64 value, as its bit pattern.
#[derive(Clone, Copy, Debug, PartialEq, Eq, Structural)]
pub struct F64Bits(pub u64);

/// A binary32 value, as its bit pattern.
#[derive(Clone, Copy, Debug, PartialEq, Eq, Structural)]
pub struct F32Bits(pub u32);

impl F64Bits {
    /// Whether the sign bit is set.
    pub open spec fn negative(self) -> bool {
        self.0 >= F64_SIGN
    }

    /// The pattern without its sign bit.
    pub open spec fn magnitude(self) -> int {
        if self.negative() {
            self.0 - F64_SIGN
        } else {
            self.0 as int
        }
    }

    /// Whether the pattern encodes a NaN.
    pub open spec fn is_nan(self) -> bool {
        self.magnitude() > F64_INFINITY
    }

    /// Whether the pattern encodes positive or negative zero.
    pub open spec fn is_zero(self) -> bool {
        self.magnitude() == 0
    }

    /// Place of a non-NaN value in the numeric order: the signed magnitude.
    /// Both zeros have rank 0.
    pub open spec fn rank(self) -> int {
        if self.negative() {
            -self.magnitude()
        } else {
            self.magnitude()
        }
    }

    /// The signed magnitude, computed.
    pub fn signed_magnitude(self) -> (r: i64)
        ensures
            r == self.rank(),
    {
        if self.0 >= F64_SIGN {
            let m: u64 = self.0 - F64_SIGN;
            -(m as i64)
        } else {
            self.0 as i64
        }
    }

    /// Whether the value is a NaN.
    pub fn nan(self) -> (b: bool)
        ensures
            b == self.is_nan(),
    {
        if self.0 >= F64_SIGN {
            self.0 - F64_SIGN > F64_INFINITY
        } else {
            self.0 > F64_INFINITY
        }
    }

    /// Whether the value is not a zero: NaN counts as nonzero.
    pub fn nonzero(self) -> (b: bool)
        ensures
            b == !self.is_zero(),
    {
        self.0 != 0 && self.0 != F64_SIGN
    }

    /// IEEE `self > other`: false whenever either side is a NaN.
    pub fn gt(self, other: F64Bits) -> (b: bool)
        ensures
            b == (!self.is_nan() && !other.is_nan() && self.rank() > other.rank()),
    {
        !self.nan() && !other.nan() && self.signed_magnitude() > other.signed_magnitude()
    }

    /// IEEE `self < other`: false whenever either side is a NaN.
    pub fn lt(self, other: F64Bits) -> (b: bool)
        ensures
            b == (!self.is_nan() && !other.is_nan() && self.rank() < other.rank()),
    {
        !self.nan() && !other.nan() && self.signed_magnitude() < other.signed_magnitude()
    }
}

impl F32Bits {
    /// Whether the sign bit is set.
    pub open spec fn negative(self) -> bool {
        self.0 >= F32_SIGN
    }

    /// The pattern without its sign bit.
    pub open spec fn magnitude(self) -> int {
        if self.negative() {
            self.0 - F32_SIGN
        } else {
            self.0 as int
        }
    }

    /// Whether the pattern encodes a NaN.
    pub open spec fn is_nan(self) -> bool {
        self.magnitude() > F32_INFINITY
    }

    /// Whether the pattern encodes positive or negative zero.
    pub open spec fn is_zero(self) -> bool {
        self.magnitude() == 0
    }

    /// Place of a non-NaN value in the numeric order: the signed magnitude.
    /// Both zeros have rank 0.
    pub open spec fn rank(self) -> int {
        if self.negative() {
            -self.magnitude()
        } else {
            self.magnitude()
        }
    }

    /// The signed magnitude, computed.
    pub fn signed_magnitude(self) -> (r: i64)
        ensures
            r == self.rank(),
    {
        if self.0 >= F32_SIGN {
            let m: u32 = self.0 - F32_SIGN;
            -(m as i64)
        } else {
            self.0 as i64
        }
    }

    /// Whether the value is a NaN.
    pub fn nan(self) -> (b: bool)
        ensures
            b == self.is_nan(),
    {
        if self.0 >= F32_SIGN {
            self.0 - F32_SIGN > F32_INFINITY
        } else {
            self.0 > F32_INFINITY
        }
    }

    /// Whether the value is not a zero: NaN counts as nonzero.
    pub fn nonzero(self) -> (b: bool)
        ensures
            b == !self.is_zero(),
    {
        self.0 != 0 && self.0 != F32_SIGN
    }

    /// IEEE `self > other`: false whenever either side is a NaN.
    pub fn gt(self, other: F32Bits) -> (b: bool)
        ensures
            b == (!self.is_nan() && !other.is_nan() && self.rank() > other.rank()),
    {
        !self.nan() && !other.nan() && self.signed_magnitude() > other.signed_magnitude()
    }

    /// IEEE `self < other`: false whenever either side is a NaN.
    pub fn lt(self, other: F32Bits) -> (b: bool)
        ensures
            b == (!self.is_nan() && !other.is_nan() && self.rank() < other.rank()),
    {
        !self.nan() && !other.nan() && self.signed_magnitude() < other.signed_magnitude()
    }
}

} // verus!
