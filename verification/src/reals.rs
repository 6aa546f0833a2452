//! Real numbers of the language: IEEE 754 double-precision values, held as
//! their 64-bit patterns. The arithmetic is done in software, on the
//! patterns, by `rustc_apfloat`, with ties rounded to even.

use rustc_apfloat::ieee::Double;
use rustc_apfloat::Float;
use crate::lexing::chars::chars_of;
use vstd::prelude::*;

verus! {

/// The pattern of the sum of the doubles with patterns `a` and `b`.
pub uninterp spec fn real_sum(a: u64, b: u64) -> u64;

/// The pattern of the product of the doubles with patterns `a` and `b`.
pub uninterp spec fn real_product(a: u64, b: u64) -> u64;

/// The pattern of the quotient of the double with pattern `a` by the one with pattern `b`.
pub uninterp spec fn real_quotient(a: u64, b: u64) -> u64;

/// The pattern of the double that equals the integer `i`.
pub uninterp spec fn real_of_int(i: i32) -> u64;

/// The double with pattern `a`, rounded toward zero to a 32-bit integer.
pub uninterp spec fn real_truncation(a: u64) -> i32;

/// The pattern of the double nearest to the decimal numeral `text`, if
/// `text` is read as a numeral at all.
pub uninterp spec fn real_of_decimal(text: Seq<char>) -> Option<u64>;

/// The bit that holds the sign in the pattern of a double.
pub const SIGN_BIT: u64 = 0x8000_0000_0000_0000u64;

/// The pattern of the difference of the doubles with patterns `a` and `b`:
/// that of the sum of the first and the second with its sign reversed.
pub open spec fn real_difference(a: u64, b: u64) -> u64 {
    real_sum(a, b ^ SIGN_BIT)
}

/// Whether `c` is one of the digits `0` to `9`.
pub open spec fn is_digit(c: char) -> bool {
    '0' <= c <= '9'
}

/// Whether every character of `s` is a digit.
pub open spec fn all_digits(s: Seq<char>) -> bool {
    forall|i: int| 0 <= i < s.len() ==> is_digit(#[trigger] s[i])
}

/// Whether `text` is one or more digits, a dot, and one or more digits.
pub open spec fn is_decimal(text: Seq<char>) -> bool {
    exists|dot: int|
        0 < dot < text.len() - 1 && #[trigger] text[dot] == '.' && all_digits(text.subrange(0, dot))
            && all_digits(text.subrange(dot + 1, text.len() as int))
}

/// What `Real::from_decimal` returns for `text`.
pub open spec fn decimal_real(text: Seq<char>) -> Option<Real> {
    if is_decimal(text) {
        match real_of_decimal(text) {
            Some(bits) => Some(Real { bits }),
            None => None,
        }
    } else {
        None
    }
}

/// The length of the longest prefix of `s[from..]` made of digits, added to `from`.
pub open spec fn digits_end(s: Seq<char>, from: int) -> int
    decreases s.len() - from,
{
    if 0 <= from < s.len() && is_digit(s[from]) {
        digits_end(s, from + 1)
    } else {
        from
    }
}

proof fn lemma_digits_end(s: Seq<char>, from: int)
    requires
        0 <= from <= s.len(),
    ensures
        from <= digits_end(s, from) <= s.len(),
        all_digits(s.subrange(from, digits_end(s, from))),
        digits_end(s, from) < s.len() ==> !is_digit(s[digits_end(s, from)]),
    decreases s.len() - from,
{
    if from < s.len() && is_digit(s[from]) {
        lemma_digits_end(s, from + 1);
        let e = digits_end(s, from);
        assert forall|i: int| 0 <= i < e - from implies is_digit(
            #[trigger] s.subrange(from, e)[i],
        ) by {
            if i > 0 {
                assert(s.subrange(from + 1, e)[i - 1] == s[from + i]);
            }
        }
    }
}

/// Whether `chars` is one or more digits, a dot, and one or more digits.
fn has_decimal_form(chars: &Vec<char>) -> (b: bool)
    ensures
        b == is_decimal(chars@),
{
    let n = chars.len();
    let mut i: usize = 0;
    while i < n && '0' <= chars[i] && chars[i] <= '9'
        invariant
            i <= n == chars.len(),
            digits_end(chars@, 0) == digits_end(chars@, i as int),
        decreases n - i,
    {
        i += 1;
    }
    let dot = i;
    proof {
        lemma_digits_end(chars@, 0);
    }
    if dot == 0 || dot >= n || chars[dot] != '.' {
        proof {
            assert forall|d: int|
                0 < d < chars@.len() - 1 && #[trigger] chars@[d] == '.' && all_digits(
                    chars@.subrange(0, d),
                ) implies false by {
                if d < dot {
                    assert(chars@.subrange(0, dot as int)[d] == chars@[d]);
                } else if d > dot {
                    assert(chars@.subrange(0, d)[dot as int] == chars@[dot as int]);
                }
            }
        }
        return false;
    }
    let mut j: usize = dot + 1;
    while j < n && '0' <= chars[j] && chars[j] <= '9'
        invariant
            dot < j <= n == chars.len(),
            digits_end(chars@, dot + 1) == digits_end(chars@, j as int),
        decreases n - j,
    {
        j += 1;
    }
    proof {
        lemma_digits_end(chars@, dot + 1);
        if j == n && dot + 1 < n {
            assert(chars@[dot as int] == '.');
        } else {
            assert forall|d: int|
                0 < d < chars@.len() - 1 && #[trigger] chars@[d] == '.' && all_digits(
                    chars@.subrange(0, d),
                ) && all_digits(chars@.subrange(d + 1, chars@.len() as int)) implies false by {
                if d < dot {
                    assert(chars@.subrange(0, dot as int)[d] == chars@[d]);
                } else if d > dot {
                    assert(chars@.subrange(0, d)[dot as int] == chars@[dot as int]);
                } else if j < n {
                    assert(chars@.subrange(d + 1, chars@.len() as int)[j - d - 1]
                        == chars@[j as int]);
                }
            }
        }
    }
    j == n && dot + 1 < n
}

/// `Double + Double` of rustc_apfloat: the sum, rounded to nearest with ties
/// to even; the result depends on the two patterns alone.
#[verifier::external_body]
fn soft_add(a: u64, b: u64) -> (r: u64)
    ensures
        r == real_sum(a, b),
{
    (Double::from_bits(a as u128) + Double::from_bits(b as u128)).value.to_bits() as u64
}

/// `Double * Double` of rustc_apfloat: the product, rounded to nearest with
/// ties to even; the result depends on the two patterns alone.
#[verifier::external_body]
fn soft_mul(a: u64, b: u64) -> (r: u64)
    ensures
        r == real_product(a, b),
{
    (Double::from_bits(a as u128) * Double::from_bits(b as u128)).value.to_bits() as u64
}

/// `Double / Double` of rustc_apfloat: the quotient, rounded to nearest with
/// ties to even (an infinity or a NaN where the divisor is zero); the result
/// depends on the two patterns alone.
#[verifier::external_body]
fn soft_div(a: u64, b: u64) -> (r: u64)
    ensures
        r == real_quotient(a, b),
{
    (Double::from_bits(a as u128) / Double::from_bits(b as u128)).value.to_bits() as u64
}

/// `Double::from_i128` of rustc_apfloat: the double that equals the integer;
/// the result depends on the integer alone.
#[verifier::external_body]
fn soft_from_int(i: i32) -> (r: u64)
    ensures
        r == real_of_int(i),
{
    Double::from_i128(i as i128).value.to_bits() as u64
}

/// `Double::to_i128` of rustc_apfloat, for a width of 32 bits: the value
/// rounded toward zero, zero for a NaN, and the nearest 32-bit integer where
/// the value is out of range; the result depends on the pattern alone.
#[verifier::external_body]
fn soft_to_int(a: u64) -> (r: i32)
    ensures
        r == real_truncation(a),
{
    Double::from_bits(a as u128).to_i128(32).value as i32
}

/// `str::parse::<Double>` of rustc_apfloat, on a decimal numeral: the double
/// nearest to it, ties to even; the result depends on the text alone.
#[verifier::external_body]
fn soft_parse(text: &str) -> (r: Option<u64>)
    requires
        is_decimal(text@),
    ensures
        r == real_of_decimal(text@),
{
    match text.parse::<Double>() {
        Ok(value) => Some(value.to_bits() as u64),
        Err(_) => None,
    }
}

/// A real number: an IEEE 754 double-precision value, as its bit pattern.
/// Two reals are equal when their patterns are.
#[derive(Clone, Copy, Debug, PartialEq, Eq)]
pub struct Real {
    pub bits: u64,
}

impl Real {
    /// The real with the given pattern.
    pub fn from_bits(bits: u64) -> (r: Real)
        ensures
            r.bits == bits,
    {
        Real { bits }
    }

    /// The pattern of this real.
    pub fn to_bits(self) -> (bits: u64)
        ensures
            bits == self.bits,
    {
        self.bits
    }

    /// The real that equals the integer `i`.
    pub fn from_int(i: i32) -> (r: Real)
        ensures
            r.bits == real_of_int(i),
    {
        Real { bits: soft_from_int(i) }
    }

    /// This real rounded toward zero to an integer: zero for a NaN, the
    /// nearest integer of the type where the value is out of its range.
    pub fn to_int(self) -> (i: i32)
        ensures
            i == real_truncation(self.bits),
    {
        soft_to_int(self.bits)
    }

    /// The sum of two reals.
    pub fn plus(self, rhs: Real) -> (r: Real)
        ensures
            r.bits == real_sum(self.bits, rhs.bits),
    {
        Real { bits: soft_add(self.bits, rhs.bits) }
    }

    /// The difference of two reals: the sum of the first and the second
    /// with its sign reversed.
    pub fn minus(self, rhs: Real) -> (r: Real)
        ensures
            r.bits == real_difference(self.bits, rhs.bits),
    {
        self.plus(rhs.negated())
    }

    /// The product of two reals.
    pub fn times(self, rhs: Real) -> (r: Real)
        ensures
            r.bits == real_product(self.bits, rhs.bits),
    {
        Real { bits: soft_mul(self.bits, rhs.bits) }
    }

    /// The quotient of two reals. Division by zero is no error: it gives an
    /// infinity or a NaN.
    pub fn divided_by(self, rhs: Real) -> (r: Real)
        ensures
            r.bits == real_quotient(self.bits, rhs.bits),
    {
        Real { bits: soft_div(self.bits, rhs.bits) }
    }

    /// The real nearest to a decimal numeral of the form digits, dot, digits;
    /// `None` for any other text.
    pub fn from_decimal(text: &str) -> (r: Option<Real>)
        ensures
            r == decimal_real(text@),
    {
        let chars = chars_of(text);
        if has_decimal_form(&chars) {
            match soft_parse(text) {
                Some(bits) => Some(Real { bits }),
                None => None,
            }
        } else {
            None
        }
    }

    /// This real with its sign reversed.
    pub fn negated(self) -> (r: Real)
        ensures
            r.bits == self.bits ^ SIGN_BIT,
    {
        Real { bits: self.bits ^ SIGN_BIT }
    }
}

} // verus!
