//! Real numbers as a PDF document stores them.
//!
//! Verus does not reason about floating point. A real number is therefore
//! carried as the `lopdf` object that holds it and spoken of by its IEEE-754
//! single-precision bit pattern, on which the comparisons that the library
//! needs are plain integer comparisons.

use crate::pdf::{
    integer_as_real, is_cast_of, number_as_real, object_value, parse_real, real_bits, real_display,
    real_parsed, real_text, Value,
};
use vstd::prelude::*;

verus! {

/// The bit pattern of 1.0.
pub const ONE_BITS: u32 = 0x3F80_0000;

/// The bit pattern of positive infinity.
pub const INFINITY_BITS: u32 = 0x7F80_0000;

/// The bit pattern of negative zero.
pub const NEGATIVE_ZERO_BITS: u32 = 0x8000_0000;

/// The bit pattern of negative infinity.
pub const NEGATIVE_INFINITY_BITS: u32 = 0xFF80_0000;

/// Whether the number with this bit pattern is less than zero. Negative zero
/// is not, nor is any NaN.
pub open spec fn is_below_zero(bits: u32) -> bool {
    NEGATIVE_ZERO_BITS < bits <= NEGATIVE_INFINITY_BITS
}

/// Whether the number with this bit pattern is zero or less.
pub open spec fn is_at_most_zero(bits: u32) -> bool {
    bits == 0 || NEGATIVE_ZERO_BITS <= bits <= NEGATIVE_INFINITY_BITS
}

/// Whether the number with this bit pattern is greater than the number with
/// the pattern `bound`, which is zero or more and no NaN.
pub open spec fn exceeds(bits: u32, bound: u32) -> bool {
    bound < bits <= INFINITY_BITS
}

/// Whether the number with this bit pattern lies in the closed interval from
/// 0 to 1. The patterns of the non-negative numbers ascend with the numbers,
/// from 0 for zero; negative zero counts as zero; no NaN lies anywhere.
pub open spec fn in_unit_interval(bits: u32) -> bool {
    bits <= ONE_BITS || bits == NEGATIVE_ZERO_BITS
}

/// Whether the number with this bit pattern is zero or more, infinity
/// included.
pub open spec fn is_non_negative(bits: u32) -> bool {
    bits <= INFINITY_BITS || bits == NEGATIVE_ZERO_BITS
}

/// A real number.
#[derive(Debug)]
pub struct Real {
    object: lopdf::Object,
}

impl Real {
    #[verifier::type_invariant]
    spec fn holds_a_real(self) -> bool {
        object_value(self.object) is Real
    }

    /// The number's bit pattern.
    pub closed spec fn bits(self) -> u32 {
        object_value(self.object)->Real_0
    }

    /// The number that a real object holds; `None` for any other object.
    pub fn from_object(object: lopdf::Object) -> (r: Option<Real>)
        ensures
            match r {
                Some(x) => object_value(object) == Value::Real(x.bits()),
                None => !(object_value(object) is Real),
            },
    {
        match real_bits(&object) {
            Some(_) => Some(Real { object }),
            None => None,
        }
    }

    /// The number that a numeric object stands for: a real as it is, an
    /// integer as the real it is read as; `None` for any other object.
    pub fn from_number(object: &lopdf::Object) -> (r: Option<Real>)
        ensures
            match object_value(*object) {
                Value::Real(bits) => r is Some && r.unwrap().bits() == bits,
                Value::Integer(i) => r is Some && r.unwrap().bits() == integer_as_real(i)
                    && is_cast_of(i, r.unwrap().bits()),
                _ => r is None,
            },
    {
        match number_as_real(object) {
            Some(converted) => Some(Real { object: converted }),
            None => None,
        }
    }

    /// The real that an integer is read as: zero for zero, one for one, a
    /// greater real for a greater integer, a real below zero for an integer
    /// below zero.
    pub fn from_integer(i: i64) -> (r: Real)
        ensures
            r.bits() == integer_as_real(i),
            is_cast_of(i, r.bits()),
    {
        let number = crate::pdf::integer_object(i);
        match number_as_real(&number) {
            Some(converted) => Real { object: converted },
            None => {
                proof {
                    assert(false);
                }
                Real { object: number }
            },
        }
    }

    /// The real that a text says, or why it says none.
    pub fn parse(text: &str) -> (r: Result<Real, String>)
        ensures
            match r {
                Ok(number) => real_parsed(text@) == Ok::<u32, Seq<char>>(number.bits()),
                Err(reason) => real_parsed(text@) == Err::<u32, Seq<char>>(reason@),
            },
    {
        match parse_real(text) {
            Ok(object) => match real_bits(&object) {
                Some(_) => Ok(Real { object }),
                // What was parsed is a real object, so this is never met.
                None => Err(String::new()),
            },
            Err(reason) => Err(reason),
        }
    }

    /// The bit pattern, for the caller to turn back into a number.
    pub fn to_bits(&self) -> (bits: u32)
        ensures
            bits == self.bits(),
    {
        proof {
            use_type_invariant(self);
        }
        match real_bits(&self.object) {
            Some(bits) => bits,
            None => 0,
        }
    }

    /// A real object that holds the number.
    pub fn to_object(&self) -> (o: lopdf::Object)
        ensures
            object_value(o) == Value::Real(self.bits()),
    {
        proof {
            use_type_invariant(self);
        }
        self.object.clone()
    }

    /// The number as text, the way it is printed.
    pub fn to_text(&self) -> (text: String)
        ensures
            text@ == real_display(self.bits()),
    {
        proof {
            use_type_invariant(self);
        }
        real_text(&self.object)
    }

    /// Whether the number lies between 0 and 1, both included.
    pub fn is_unit(&self) -> (r: bool)
        ensures
            r == in_unit_interval(self.bits()),
    {
        let bits = self.to_bits();
        bits <= ONE_BITS || bits == NEGATIVE_ZERO_BITS
    }

    /// Whether the number is less than zero.
    pub fn is_below_zero(&self) -> (r: bool)
        ensures
            r == is_below_zero(self.bits()),
    {
        let bits = self.to_bits();
        NEGATIVE_ZERO_BITS < bits && bits <= NEGATIVE_INFINITY_BITS
    }

    /// Whether the number is zero or less.
    pub fn is_at_most_zero(&self) -> (r: bool)
        ensures
            r == is_at_most_zero(self.bits()),
    {
        let bits = self.to_bits();
        bits == 0 || (NEGATIVE_ZERO_BITS <= bits && bits <= NEGATIVE_INFINITY_BITS)
    }

    /// Whether the number is greater than the number with the bit pattern
    /// `bound`.
    pub fn exceeds(&self, bound: u32) -> (r: bool)
        ensures
            r == exceeds(self.bits(), bound),
    {
        let bits = self.to_bits();
        bound < bits && bits <= INFINITY_BITS
    }

    /// Whether the number is zero or more.
    pub fn is_non_negative(&self) -> (r: bool)
        ensures
            r == is_non_negative(self.bits()),
    {
        let bits = self.to_bits();
        bits <= INFINITY_BITS || bits == NEGATIVE_ZERO_BITS
    }
}

impl Clone for Real {
    fn clone(&self) -> (r: Self)
        ensures
            r.bits() == self.bits(),
    {
        proof {
            use_type_invariant(self);
        }
        Real { object: self.object.clone() }
    }
}

} // verus!
