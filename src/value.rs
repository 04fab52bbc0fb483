use vstd::prelude::*;

use crate::error::CloxersError;

verus! {

/// The sign bit of an IEEE-754 binary64 bit pattern.
pub const SIGN_BIT: u64 = 0x8000_0000_0000_0000;

/// A runtime value.
///
/// A number is held as the bit pattern of an IEEE-754 binary64 value, so
/// that values can be stored, compared and negated exactly; the four
/// arithmetic operations are carried out by the host on those bits.
#[derive(Debug, Clone, Copy, PartialEq, Eq, Structural)]
pub enum Value {
    Number(u64),
    Bool(bool),
    Nil,
}

/// The arithmetic instructions, each combining two numbers into one.
#[derive(Debug, Clone, Copy, PartialEq, Eq, Structural)]
pub enum BinaryOp {
    Add,
    Subtract,
    Multiply,
    Divide,
}

pub open spec fn spec_is_falsey(v: Value) -> bool {
    v is Nil || v == Value::Bool(false)
}

/// IEEE-754 negation of the number with bit pattern `n`: the sign bit
/// flips, every other bit stays.
pub open spec fn spec_neg_bits(n: u64) -> u64 {
    n ^ SIGN_BIT
}

/// A failed value operation: a `TypeError`.
pub open spec fn is_type_error<T>(r: Result<T, CloxersError>) -> bool {
    r matches Err(CloxersError::TypeError(_))
}

impl Value {
    pub fn is_falsey(&self) -> (r: bool)
        ensures
            r == spec_is_falsey(*self),
    {
        match self {
            Value::Nil => true,
            Value::Bool(b) => !*b,
            Value::Number(_) => false,
        }
    }

    /// Arithmetic negation of a number; any other value is a `TypeError`.
    pub fn negate(&self) -> (r: Result<Value, CloxersError>)
        ensures
            match *self {
                Value::Number(n) => r == Ok::<Value, CloxersError>(Value::Number(spec_neg_bits(n))),
                _ => is_type_error(r),
            },
    {
        match self {
            Value::Number(n) => Ok(Value::Number(*n ^ SIGN_BIT)),
            _ => Err(CloxersError::TypeError(String::from_str("Operand must be a number"))),
        }
    }

    /// The two numbers that an arithmetic instruction combines, `self` on
    /// the left; unless both are numbers this is a `TypeError`.
    pub fn number_operands(&self, other: &Value) -> (r: Result<(u64, u64), CloxersError>)
        ensures
            match (*self, *other) {
                (Value::Number(a), Value::Number(b)) => r == Ok::<(u64, u64), CloxersError>((a, b)),
                _ => is_type_error(r),
            },
    {
        match (self, other) {
            (Value::Number(a), Value::Number(b)) => Ok((*a, *b)),
            _ => Err(CloxersError::TypeError(String::from_str("Operands must be numbers"))),
        }
    }

    pub fn is_number(&self) -> (r: bool)
        ensures
            r == (*self is Number),
    {
        match self {
            Value::Number(_) => true,
            _ => false,
        }
    }
}

} // verus!
