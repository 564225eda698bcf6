//! Scalar filter parameters.
//!
//! A scalar parameter is an IEEE 754 single-precision number, held as its 32
//! bits: one sign bit, eight exponent bits and 23 fraction bits. This module
//! reads such a pattern with integer arithmetic alone: it tells the kinds of
//! number apart and gives the two integers `s` and `k` of a finite number,
//! whose magnitude is exactly `s * 2^(k - 150)`.

use vstd::prelude::*;

verus! {

/// A single-precision number, held as its bit pattern.
#[derive(Clone, Copy, Debug, PartialEq, Eq, Structural)]
pub struct Scalar {
    pub bits: u32,
}

/// The kinds of number a bit pattern can stand for.
#[derive(Clone, Copy, Debug, PartialEq, Eq, Structural)]
pub enum Class {
    Nan,
    Infinite,
    Normal,
    Subnormal,
    Zero,
}

/// The eight exponent bits.
pub open spec fn exponent_field(bits: u32) -> int {
    (bits as int / 0x80_0000) % 0x100
}

/// The 23 fraction bits.
pub open spec fn fraction_field(bits: u32) -> int {
    bits as int % 0x80_0000
}

/// Whether the sign bit is set. True of negative numbers and of negative
/// zero.
pub open spec fn sign_set(bits: u32) -> bool {
    bits >= 0x8000_0000
}

/// The kind of number that a bit pattern stands for.
pub open spec fn class_of(bits: u32) -> Class {
    let e = exponent_field(bits);
    let f = fraction_field(bits);
    if e == 0xff {
        if f == 0 {
            Class::Infinite
        } else {
            Class::Nan
        }
    } else if e == 0 {
        if f == 0 {
            Class::Zero
        } else {
            Class::Subnormal
        }
    } else {
        Class::Normal
    }
}

/// Whether a pattern stands for NaN, which is no number.
pub open spec fn is_nan(bits: u32) -> bool {
    class_of(bits) == Class::Nan
}

/// Whether a pattern stands for a finite number: neither NaN nor infinite.
pub open spec fn is_finite(bits: u32) -> bool {
    class_of(bits) != Class::Nan && class_of(bits) != Class::Infinite
}

/// Whether the number is zero or below: any pattern but NaN that is a zero
/// or has its sign bit set.
pub open spec fn at_most_zero(bits: u32) -> bool {
    !is_nan(bits) && (sign_set(bits) || class_of(bits) == Class::Zero)
}

/// The integer `s` in the value `s * 2^(k - 150)` of a finite pattern.
pub open spec fn significand(bits: u32) -> int {
    if exponent_field(bits) == 0 {
        fraction_field(bits)
    } else {
        0x80_0000 + fraction_field(bits)
    }
}

/// The integer `k` in the value `s * 2^(k - 150)` of a finite pattern.
pub open spec fn scale(bits: u32) -> int {
    if exponent_field(bits) == 0 {
        1
    } else {
        exponent_field(bits)
    }
}

impl Scalar {
    /// The scalar with the given bit pattern.
    pub fn from_bits(bits: u32) -> (scalar: Scalar)
        ensures
            scalar.bits == bits,
    {
        Scalar { bits }
    }

    /// Tells which kind of number the scalar is.
    pub fn classify(self) -> (class: Class)
        ensures
            class == class_of(self.bits),
    {
        let bits: u32 = self.bits;
        let exponent: u32 = (bits / 0x80_0000) % 0x100;
        let fraction: u32 = bits % 0x80_0000;
        if exponent == 0xff {
            if fraction == 0 {
                Class::Infinite
            } else {
                Class::Nan
            }
        } else if exponent == 0 {
            if fraction == 0 {
                Class::Zero
            } else {
                Class::Subnormal
            }
        } else {
            Class::Normal
        }
    }

    /// Whether the sign bit is set.
    pub fn has_sign(self) -> (set: bool)
        ensures
            set == sign_set(self.bits),
    {
        self.bits >= 0x8000_0000
    }

    /// The integer `s` in the value `s * 2^(k - 150)` of the scalar.
    pub fn significand_of(self) -> (s: u32)
        ensures
            s == significand(self.bits),
            s < 0x100_0000,
    {
        let exponent: u32 = (self.bits / 0x80_0000) % 0x100;
        let fraction: u32 = self.bits % 0x80_0000;
        if exponent == 0 {
            fraction
        } else {
            0x80_0000 + fraction
        }
    }

    /// The integer `k` in the value `s * 2^(k - 150)` of the scalar.
    pub fn scale_of(self) -> (k: u32)
        ensures
            k == scale(self.bits),
            1 <= k <= 255,
    {
        let exponent: u32 = (self.bits / 0x80_0000) % 0x100;
        if exponent == 0 {
            1
        } else {
            exponent
        }
    }

    /// Whether the scalar is zero or a number below zero.
    pub fn is_at_most_zero(self) -> (yes: bool)
        ensures
            yes == at_most_zero(self.bits),
    {
        match self.classify() {
            Class::Nan => false,
            Class::Zero => true,
            _ => self.has_sign(),
        }
    }
}

} // verus!
