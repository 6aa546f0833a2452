//! Two ways to write an arithmetic expression out: in reverse Polish
//! notation, and in the parenthesised prefix notation of Lisp.

use crate::parsing::ast::{Ast, SpecAst};
use vstd::prelude::*;
use vstd::string::StringExecFns;

verus! {

/// The character of the digit `d`, which is 0 to 9.
pub open spec fn digit(d: int) -> char {
    ('0' as int + d) as char
}

/// The digits of `n` in base ten, the most significant first; no leading zero.
pub open spec fn digits(n: nat) -> Seq<char>
    decreases n,
{
    if n < 10 {
        seq![digit(n as int)]
    } else {
        digits(n / 10).push(digit((n % 10) as int))
    }
}

/// The integer `i` written in base ten, with `-` before it if it is negative.
pub open spec fn decimal(i: int) -> Seq<char> {
    if i < 0 {
        seq!['-'] + digits((-i) as nat)
    } else {
        digits(i as nat)
    }
}

/// Whether a tree can be written out: integer constants under signs and
/// under the operators `+`, `-`, `*` and `div`.
pub open spec fn renders(node: SpecAst) -> bool
    decreases node,
{
    match node {
        SpecAst::Add(l, r)
        | SpecAst::Subtract(l, r)
        | SpecAst::Multiply(l, r)
        | SpecAst::IntegerDivide(l, r) => renders(*l) && renders(*r),
        SpecAst::PositiveUnary(inner) | SpecAst::NegativeUnary(inner) => renders(*inner),
        SpecAst::IntegerConstant(_) => true,
        _ => false,
    }
}

/// A tree in reverse Polish notation: the operands, then the operator. A
/// plus sign is left out, and a minus sign is a subtraction from zero.
pub open spec fn rpn_text(node: SpecAst) -> Seq<char>
    decreases node,
{
    match node {
        SpecAst::Add(l, r) => rpn_text(*l) + " "@ + rpn_text(*r) + " +"@,
        SpecAst::Subtract(l, r) => rpn_text(*l) + " "@ + rpn_text(*r) + " -"@,
        SpecAst::Multiply(l, r) => rpn_text(*l) + " "@ + rpn_text(*r) + " *"@,
        SpecAst::IntegerDivide(l, r) => rpn_text(*l) + " "@ + rpn_text(*r) + " /"@,
        SpecAst::IntegerConstant(i) => decimal(i as int),
        SpecAst::PositiveUnary(inner) => rpn_text(*inner),
        SpecAst::NegativeUnary(inner) => "0 "@ + rpn_text(*inner) + " -"@,
        _ => Seq::empty(),
    }
}

/// A tree in the notation of Lisp: the operator, then the operands, all in
/// parentheses. A plus sign is left out.
pub open spec fn lisp_text(node: SpecAst) -> Seq<char>
    decreases node,
{
    match node {
        SpecAst::Add(l, r) => "(+ "@ + lisp_text(*l) + " "@ + lisp_text(*r) + ")"@,
        SpecAst::Subtract(l, r) => "(- "@ + lisp_text(*l) + " "@ + lisp_text(*r) + ")"@,
        SpecAst::Multiply(l, r) => "(* "@ + lisp_text(*l) + " "@ + lisp_text(*r) + ")"@,
        SpecAst::IntegerDivide(l, r) => "(/ "@ + lisp_text(*l) + " "@ + lisp_text(*r) + ")"@,
        SpecAst::IntegerConstant(i) => decimal(i as int),
        SpecAst::PositiveUnary(inner) => lisp_text(*inner),
        SpecAst::NegativeUnary(inner) => "(- "@ + lisp_text(*inner) + ")"@,
        _ => Seq::empty(),
    }
}

/// Appends the digits of `n` to `text`.
fn push_digits(text: &mut String, n: u32)
    ensures
        final(text)@ == old(text)@ + digits(n as nat),
    decreases n,
{
    if n >= 10 {
        push_digits(text, n / 10);
    }
    let d: u8 = (n % 10) as u8;
    text.push((('0' as u8) + d) as char);
    assert(final(text)@ =~= old(text)@ + digits(n as nat));
}

/// The integer `i` written in base ten.
pub fn decimal_text(i: i32) -> (text: String)
    ensures
        text@ == decimal(i as int),
{
    let mut text = String::new();
    if i < 0 {
        text.push('-');
        let magnitude: u32 = (-(i as i64)) as u32;
        push_digits(&mut text, magnitude);
    } else {
        push_digits(&mut text, i as u32);
    }
    assert(text@ =~= decimal(i as int));
    text
}

/// Whether `rpn` and `lisp_notation` can write the tree out.
pub fn renderable(node: &Ast) -> (b: bool)
    ensures
        b == renders(node@),
    decreases node,
{
    match node {
        Ast::Add(l, r) | Ast::Subtract(l, r) | Ast::Multiply(l, r) | Ast::IntegerDivide(l, r) => {
            renderable(l) && renderable(r)
        },
        Ast::PositiveUnary(nested) | Ast::NegativeUnary(nested) => renderable(nested),
        Ast::IntegerConstant(_) => true,
        _ => false,
    }
}

/// The two operands and the operator, in reverse Polish notation.
fn rpn_binary(left: String, right: String, operator: &str) -> (text: String)
    ensures
        text@ == left@ + " "@ + right@ + operator@,
{
    let mut text = left;
    text.append(" ");
    text.append(right.as_str());
    text.append(operator);
    text
}

/// The tree in reverse Polish notation.
pub fn rpn(node: &Ast) -> (text: String)
    requires
        renders(node@),
    ensures
        text@ == rpn_text(node@),
    decreases node,
{
    match node {
        Ast::Add(l, r) => rpn_binary(rpn(l), rpn(r), " +"),
        Ast::Subtract(l, r) => rpn_binary(rpn(l), rpn(r), " -"),
        Ast::Multiply(l, r) => rpn_binary(rpn(l), rpn(r), " *"),
        Ast::IntegerDivide(l, r) => rpn_binary(rpn(l), rpn(r), " /"),
        Ast::IntegerConstant(i) => decimal_text(*i),
        Ast::PositiveUnary(nested) => rpn(nested),
        Ast::NegativeUnary(nested) => {
            let mut text = String::from_str("0 ");
            text.append(rpn(nested).as_str());
            text.append(" -");
            text
        },
        _ => String::new(),
    }
}

/// The two operands after the operator, in parentheses.
fn lisp_binary(operator: &str, left: String, right: String) -> (text: String)
    ensures
        text@ == operator@ + left@ + " "@ + right@ + ")"@,
{
    let mut text = String::from_str(operator);
    text.append(left.as_str());
    text.append(" ");
    text.append(right.as_str());
    text.append(")");
    text
}

/// The tree in the notation of Lisp.
pub fn lisp_notation(node: &Ast) -> (text: String)
    requires
        renders(node@),
    ensures
        text@ == lisp_text(node@),
    decreases node,
{
    match node {
        Ast::Add(l, r) => lisp_binary("(+ ", lisp_notation(l), lisp_notation(r)),
        Ast::Subtract(l, r) => lisp_binary("(- ", lisp_notation(l), lisp_notation(r)),
        Ast::Multiply(l, r) => lisp_binary("(* ", lisp_notation(l), lisp_notation(r)),
        Ast::IntegerDivide(l, r) => lisp_binary("(/ ", lisp_notation(l), lisp_notation(r)),
        Ast::IntegerConstant(i) => decimal_text(*i),
        Ast::PositiveUnary(nested) => lisp_notation(nested),
        Ast::NegativeUnary(nested) => {
            let mut text = String::from_str("(- ");
            text.append(lisp_notation(nested).as_str());
            text.append(")");
            text
        },
        _ => String::new(),
    }
}

} // verus!
