//! The values that expressions have, and their arithmetic.

use crate::reals::{
    real_difference, real_of_int, real_product, real_quotient, real_sum, real_truncation, Real,
    SIGN_BIT,
};
use vstd::prelude::*;

verus! {

/// The value of an expression: an integer of 32 bits, or a real.
#[derive(Clone, Copy, Debug, PartialEq)]
pub enum NumericType {
    Integer(i32),
    Real(Real),
}

/// Why an operation on numbers has no result.
#[derive(Clone, Copy, Debug, PartialEq, Eq, Structural)]
pub enum ArithmeticError {
    /// The result of an operation on two integers is no 32-bit integer.
    Overflow,
    /// The divisor of an integer division is zero.
    DivisionByZero,
}

/// Whether `v` is a 32-bit signed integer.
pub open spec fn fits(v: int) -> bool {
    i32::MIN <= v <= i32::MAX
}

/// The integer `v` as a value, if it fits in 32 bits.
pub open spec fn integer(v: int) -> Result<NumericType, ArithmeticError> {
    if fits(v) {
        Ok(NumericType::Integer(v as i32))
    } else {
        Err(ArithmeticError::Overflow)
    }
}

/// A value as a real: an integer is widened, a real is itself.
pub open spec fn real_value(a: NumericType) -> Real {
    match a {
        NumericType::Integer(i) => Real { bits: real_of_int(i) },
        NumericType::Real(r) => r,
    }
}

/// A value as an integer: an integer is itself, a real is cut off toward zero.
pub open spec fn int_value(a: NumericType) -> i32 {
    match a {
        NumericType::Integer(i) => i,
        NumericType::Real(r) => real_truncation(r.bits),
    }
}

/// The quotient of `x` by `y`, rounded toward zero; `y` is not zero.
pub open spec fn truncated_quotient(x: int, y: int) -> int {
    if x >= 0 && y > 0 {
        x / y
    } else if x < 0 && y < 0 {
        (-x) / (-y)
    } else if x < 0 {
        -((-x) / y)
    } else {
        -(x / (-y))
    }
}

/// `a + b`: an integer for two integers, else the sum of the two as reals.
pub open spec fn sum(a: NumericType, b: NumericType) -> Result<NumericType, ArithmeticError> {
    match (a, b) {
        (NumericType::Integer(x), NumericType::Integer(y)) => integer(x + y),
        _ => Ok(NumericType::Real(Real { bits: real_sum(real_value(a).bits, real_value(b).bits) })),
    }
}

/// `a - b`: an integer for two integers, else the difference of the two as reals.
pub open spec fn difference(a: NumericType, b: NumericType) -> Result<
    NumericType,
    ArithmeticError,
> {
    match (a, b) {
        (NumericType::Integer(x), NumericType::Integer(y)) => integer(x - y),
        _ => Ok(
            NumericType::Real(
                Real { bits: real_difference(real_value(a).bits, real_value(b).bits) },
            ),
        ),
    }
}

/// `a * b`: an integer for two integers, else the product of the two as reals.
pub open spec fn product(a: NumericType, b: NumericType) -> Result<NumericType, ArithmeticError> {
    match (a, b) {
        (NumericType::Integer(x), NumericType::Integer(y)) => integer(x * y),
        _ => Ok(
            NumericType::Real(Real { bits: real_product(real_value(a).bits, real_value(b).bits) }),
        ),
    }
}

/// `-a`: of the kind of `a`.
pub open spec fn negation(a: NumericType) -> Result<NumericType, ArithmeticError> {
    match a {
        NumericType::Integer(x) => integer(-x),
        NumericType::Real(r) => Ok(NumericType::Real(Real { bits: r.bits ^ SIGN_BIT })),
    }
}

/// `a div b`: both taken as integers, the quotient rounded toward zero;
/// always an integer.
pub open spec fn integer_quotient(a: NumericType, b: NumericType) -> Result<
    NumericType,
    ArithmeticError,
> {
    if int_value(b) == 0 {
        Err(ArithmeticError::DivisionByZero)
    } else {
        integer(truncated_quotient(int_value(a) as int, int_value(b) as int))
    }
}

/// `a / b`: both taken as reals; always a real.
pub open spec fn real_division(a: NumericType, b: NumericType) -> NumericType {
    NumericType::Real(Real { bits: real_quotient(real_value(a).bits, real_value(b).bits) })
}

impl NumericType {
    /// This value as a real: an integer is widened.
    pub fn as_real(&self) -> (r: Real)
        ensures
            r == real_value(*self),
    {
        match self {
            NumericType::Integer(i) => Real::from_int(*i),
            NumericType::Real(r) => *r,
        }
    }

    /// This value as an integer: a real is cut off toward zero.
    pub fn as_int(&self) -> (i: i32)
        ensures
            i == int_value(*self),
    {
        match self {
            NumericType::Integer(i) => *i,
            NumericType::Real(r) => r.to_int(),
        }
    }

    /// The sum. Two integers give an integer, or an overflow; with a real on
    /// either side the result is a real.
    pub fn add(self, rhs: NumericType) -> (r: Result<NumericType, ArithmeticError>)
        ensures
            r == sum(self, rhs),
    {
        match (self, rhs) {
            (NumericType::Integer(x), NumericType::Integer(y)) => match x.checked_add(y) {
                Some(v) => Ok(NumericType::Integer(v)),
                None => Err(ArithmeticError::Overflow),
            },
            _ => Ok(NumericType::Real(self.as_real().plus(rhs.as_real()))),
        }
    }

    /// The difference. Two integers give an integer, or an overflow; with a
    /// real on either side the result is a real.
    pub fn sub(self, rhs: NumericType) -> (r: Result<NumericType, ArithmeticError>)
        ensures
            r == difference(self, rhs),
    {
        match (self, rhs) {
            (NumericType::Integer(x), NumericType::Integer(y)) => match x.checked_sub(y) {
                Some(v) => Ok(NumericType::Integer(v)),
                None => Err(ArithmeticError::Overflow),
            },
            _ => Ok(NumericType::Real(self.as_real().minus(rhs.as_real()))),
        }
    }

    /// The product. Two integers give an integer, or an overflow; with a
    /// real on either side the result is a real.
    pub fn mul(self, rhs: NumericType) -> (r: Result<NumericType, ArithmeticError>)
        ensures
            r == product(self, rhs),
    {
        match (self, rhs) {
            (NumericType::Integer(x), NumericType::Integer(y)) => match x.checked_mul(y) {
                Some(v) => Ok(NumericType::Integer(v)),
                None => Err(ArithmeticError::Overflow),
            },
            _ => Ok(NumericType::Real(self.as_real().times(rhs.as_real()))),
        }
    }

    /// The value with its sign reversed: an integer for an integer, or an
    /// overflow; a real for a real.
    pub fn neg(self) -> (r: Result<NumericType, ArithmeticError>)
        ensures
            r == negation(self),
    {
        match self {
            NumericType::Integer(x) => {
                let zero: i32 = 0;
                match zero.checked_sub(x) {
                    Some(v) => Ok(NumericType::Integer(v)),
                    None => Err(ArithmeticError::Overflow),
                }
            },
            NumericType::Real(r) => Ok(NumericType::Real(r.negated())),
        }
    }

    /// The integer quotient, rounded toward zero, of the two values taken as
    /// integers. A divisor of zero is an error.
    pub fn integer_divide(self, rhs: NumericType) -> (r: Result<NumericType, ArithmeticError>)
        ensures
            r == integer_quotient(self, rhs),
    {
        let x = self.as_int();
        let y = rhs.as_int();
        if y == 0 {
            Err(ArithmeticError::DivisionByZero)
        } else {
            match x.checked_div(y) {
                Some(v) => Ok(NumericType::Integer(v)),
                None => Err(ArithmeticError::Overflow),
            }
        }
    }

    /// The quotient of the two values taken as reals; a divisor of zero
    /// gives an infinity or a NaN.
    pub fn real_divide(self, rhs: NumericType) -> (r: NumericType)
        ensures
            r == real_division(self, rhs),
    {
        NumericType::Real(self.as_real().divided_by(rhs.as_real()))
    }
}

/// Promotion: sum, difference and product of two integers are integers
/// where they exist, and with a real on either side they are reals.
pub proof fn promotion(a: NumericType, b: NumericType)
    ensures
        a is Integer && b is Integer ==> (sum(a, b) matches Ok(v) ==> v is Integer) && (difference(
            a,
            b,
        ) matches Ok(v) ==> v is Integer) && (product(a, b) matches Ok(v) ==> v is Integer),
        a is Real || b is Real ==> (sum(a, b) matches Ok(v) && v is Real) && (difference(
            a,
            b,
        ) matches Ok(v) && v is Real) && (product(a, b) matches Ok(v) && v is Real),
{
}

/// Integer division rounds toward zero: what is left of the dividend after
/// the quotient times the divisor is smaller in magnitude than the divisor,
/// and has the sign of the dividend where it is not zero.
pub proof fn quotient_rounds_toward_zero(x: int, y: int)
    requires
        y != 0,
    ensures
        ({
            let left = x - truncated_quotient(x, y) * y;
            &&& (if y > 0 {
                -y < left < y
            } else {
                y < left < -y
            })
            &&& (left > 0 ==> x > 0)
            &&& (left < 0 ==> x < 0)
        }),
{
    let ax = if x >= 0 {
        x
    } else {
        -x
    };
    let ay = if y > 0 {
        y
    } else {
        -y
    };
    vstd::arithmetic::div_mod::lemma_fundamental_div_mod(ax, ay);
    vstd::arithmetic::div_mod::lemma_mod_bound(ax, ay);
    let q = ax / ay;
    assert(ax == ay * q + ax % ay);
    assert(truncated_quotient(x, y) == if (x >= 0) == (y > 0) {
        q
    } else {
        -q
    });
    assert(truncated_quotient(x, y) * y == if x >= 0 {
        ay * q
    } else {
        -(ay * q)
    }) by (nonlinear_arith)
        requires
            truncated_quotient(x, y) == if (x >= 0) == (y > 0) {
                q
            } else {
                -q
            },
            ay == if y > 0 {
                y
            } else {
                -y
            },
    ;
}

/// Integer division gives an integer where it gives anything, and real
/// division gives a real, whatever the kinds of the operands.
pub proof fn division_kinds(a: NumericType, b: NumericType)
    ensures
        integer_quotient(a, b) matches Ok(v) ==> v is Integer,
        real_division(a, b) is Real,
{
}

} // verus!
