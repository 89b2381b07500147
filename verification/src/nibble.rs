//! The 4-bit unsigned value type: the atomic unit of memory and of every
//! operand. Arithmetic wraps modulo 16.

use vstd::prelude::*;

verus! {

/// A 4-bit unsigned quantity in `[0, 15]`, copied freely.
#[allow(non_camel_case_types)]
#[derive(Clone, Copy, PartialEq, Eq, Structural, Debug)]
pub struct u4(u8);

impl u4 {
    /// The numeric value of this nibble, always below 16.
    pub closed spec fn val(self) -> u8 {
        self.0
    }

    #[verifier::type_invariant]
    closed spec fn inv(self) -> bool {
        self.0 < 16
    }

    /// Keep the low 4 bits of a byte.
    pub fn from_low(val: u8) -> (r: Self)
        ensures
            r.val() == val % 16,
    {
        proof {
            assert(val & 0x0F == val % 16 && val & 0x0F < 16) by (bit_vector);
        }
        Self(val & 0x0F)
    }

    /// Keep the high 4 bits of a byte.
    pub fn from_high(val: u8) -> (r: Self)
        ensures
            r.val() == val / 16,
    {
        proof {
            assert(val >> 4 == val / 16 && val >> 4 < 16) by (bit_vector);
        }
        Self(val >> 4)
    }

    /// Keep the low 4 bits of a 32-bit value.
    pub fn from_u32(val: u32) -> (r: Self)
        ensures
            r.val() == val % 16,
    {
        Self::from_low((val % 16) as u8)
    }

    /// The value, in the low 4 bits of a byte.
    pub fn into_low(self) -> (r: u8)
        ensures
            r == self.val(),
            r < 16,
    {
        proof {
            use_type_invariant(self);
        }
        self.0
    }

    /// The value, shifted into the high 4 bits of a byte.
    pub fn into_high(self) -> (r: u8)
        ensures
            r == self.val() * 16,
            r <= 240,
    {
        proof {
            use_type_invariant(self);
            let v = self.0;
            assert(v < 16 ==> (v << 4) == v * 16) by (bit_vector);
        }
        self.0 << 4
    }

    /// The value as a 32-bit integer.
    pub fn into_u32(self) -> (r: u32)
        ensures
            r == self.val(),
            r < 16,
    {
        proof {
            use_type_invariant(self);
        }
        self.0 as u32
    }

    /// The value as a machine-sized integer.
    pub fn into_usize(self) -> (r: usize)
        ensures
            r == self.val(),
            r < 16,
    {
        proof {
            use_type_invariant(self);
        }
        self.0 as usize
    }

    /// Addition wrapping modulo 16.
    pub fn overflowing_add(self, other: u4) -> (r: u4)
        ensures
            r.val() == (self.val() + other.val()) % 16,
    {
        proof {
            use_type_invariant(self);
            use_type_invariant(other);
        }
        Self::from_low(self.0 + other.0)
    }

    /// Subtraction wrapping modulo 16.
    pub fn overflowing_sub(self, other: u4) -> (r: u4)
        ensures
            r.val() == (self.val() + 16 - other.val()) % 16,
    {
        proof {
            use_type_invariant(self);
            use_type_invariant(other);
        }
        Self::from_low(16 + self.0 - other.0)
    }

    /// Multiplication wrapping modulo 16.
    pub fn overflowing_mul(self, other: u4) -> (r: u4)
        ensures
            r.val() == (self.val() * other.val()) % 16,
    {
        proof {
            use_type_invariant(self);
            use_type_invariant(other);
            assert(self.0 * other.0 <= 225) by (nonlinear_arith)
                requires
                    self.0 < 16 && other.0 < 16,
            ;
        }
        Self::from_low(self.0 * other.0)
    }
}

} // verus!
