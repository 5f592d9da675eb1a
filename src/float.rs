use vstd::prelude::*;

verus! {

/// An IEEE-754 double held as its 64-bit pattern, so that numeric schema
/// keywords can be carried and compared without floating-point arithmetic.
#[derive(Clone, Copy, Debug, PartialEq, Eq, Structural)]
pub struct FloatBits {
    pub bits: u64,
}

pub const SIGN_BIT: u64 = 0x8000_0000_0000_0000;

pub const INFINITY_MAGNITUDE: u64 = 0x7FF0_0000_0000_0000;

impl FloatBits {
    /// Everything but the sign bit.
    pub open spec fn magnitude(self) -> nat {
        (self.bits % SIGN_BIT) as nat
    }

    pub open spec fn negative(self) -> bool {
        self.bits >= SIGN_BIT
    }

    /// Exponent all ones and a non-zero fraction.
    pub open spec fn is_nan_spec(self) -> bool {
        self.magnitude() > INFINITY_MAGNITUDE
    }

    /// A key whose integer order is the order of the (non-NaN) values;
    /// both zeros map to 0.
    pub open spec fn key(self) -> int {
        if self.negative() {
            -(self.magnitude() as int)
        } else {
            self.magnitude() as int
        }
    }

    /// `self < other` as floating-point comparison: false when either is NaN.
    pub open spec fn lt_spec(self, other: FloatBits) -> bool {
        !self.is_nan_spec() && !other.is_nan_spec() && self.key() < other.key()
    }

    /// `self <= other` as floating-point comparison.
    pub open spec fn le_spec(self, other: FloatBits) -> bool {
        !self.is_nan_spec() && !other.is_nan_spec() && self.key() <= other.key()
    }

    /// `self == other` as floating-point comparison (so NaN differs from itself).
    pub open spec fn eq_spec(self, other: FloatBits) -> bool {
        !self.is_nan_spec() && !other.is_nan_spec() && self.key() == other.key()
    }

    /// `self <= 0.0`.
    pub open spec fn non_positive(self) -> bool {
        !self.is_nan_spec() && self.key() <= 0
    }

    pub fn from_bits(bits: u64) -> (r: FloatBits)
        ensures
            r.bits == bits,
    {
        FloatBits { bits }
    }

    fn magnitude_exec(&self) -> (r: u64)
        ensures
            r as nat == self.magnitude(),
    {
        self.bits % SIGN_BIT
    }

    /// Whether this is a NaN.
    pub fn is_nan(&self) -> (r: bool)
        ensures
            r == self.is_nan_spec(),
    {
        self.magnitude_exec() > INFINITY_MAGNITUDE
    }

    fn key_exec(&self) -> (r: i128)
        ensures
            r as int == self.key(),
    {
        let m = self.magnitude_exec() as i128;
        if self.bits >= SIGN_BIT {
            -m
        } else {
            m
        }
    }

    /// `self < other` as doubles.
    pub fn lt(&self, other: &FloatBits) -> (r: bool)
        ensures
            r == self.lt_spec(*other),
    {
        !self.is_nan() && !other.is_nan() && self.key_exec() < other.key_exec()
    }

    /// `self <= other` as doubles.
    pub fn le(&self, other: &FloatBits) -> (r: bool)
        ensures
            r == self.le_spec(*other),
    {
        !self.is_nan() && !other.is_nan() && self.key_exec() <= other.key_exec()
    }

    /// `self == other` as doubles.
    pub fn float_eq(&self, other: &FloatBits) -> (r: bool)
        ensures
            r == self.eq_spec(*other),
    {
        !self.is_nan() && !other.is_nan() && self.key_exec() == other.key_exec()
    }

    /// `self <= 0.0` as doubles.
    pub fn is_non_positive(&self) -> (r: bool)
        ensures
            r == self.non_positive(),
    {
        !self.is_nan() && self.key_exec() <= 0
    }
}

} // verus!
