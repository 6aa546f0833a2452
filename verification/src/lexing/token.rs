//! Tokens and keywords.

use crate::lexing::chars::chars_of;
use crate::reals::Real;
use vstd::prelude::*;

verus! {

/// The reserved words. They are recognised whatever the case of their letters.
#[derive(Clone, Copy, Debug, PartialEq, Eq, Structural)]
pub enum Keyword {
    Begin,
    End,
    IntegerDiv,
    Var,
    Integer,
    Real,
    Program,
    Procedure,
}

/// One lexical unit.
#[derive(Clone, Debug, PartialEq)]
pub enum Token {
    IntegerConstant(i32),
    RealConstant(Real),
    Plus,
    Minus,
    Multiply,
    RealDivision,
    ParenthesisStart,
    ParenthesisEnd,
    Eof,
    Keyword(Keyword),
    Identifier(String),
    Semi,
    Assign,
    Dot,
    Colon,
    Comma,
}

/// The mathematical value of a `Token`: the same, with the text of an
/// identifier as a sequence of characters.
pub enum SpecToken {
    IntegerConstant(i32),
    RealConstant(Real),
    Plus,
    Minus,
    Multiply,
    RealDivision,
    ParenthesisStart,
    ParenthesisEnd,
    Eof,
    Keyword(Keyword),
    Identifier(Seq<char>),
    Semi,
    Assign,
    Dot,
    Colon,
    Comma,
}

impl View for Token {
    type V = SpecToken;

    open spec fn view(&self) -> SpecToken {
        match self {
            Token::IntegerConstant(i) => SpecToken::IntegerConstant(*i),
            Token::RealConstant(r) => SpecToken::RealConstant(*r),
            Token::Plus => SpecToken::Plus,
            Token::Minus => SpecToken::Minus,
            Token::Multiply => SpecToken::Multiply,
            Token::RealDivision => SpecToken::RealDivision,
            Token::ParenthesisStart => SpecToken::ParenthesisStart,
            Token::ParenthesisEnd => SpecToken::ParenthesisEnd,
            Token::Eof => SpecToken::Eof,
            Token::Keyword(k) => SpecToken::Keyword(*k),
            Token::Identifier(name) => SpecToken::Identifier(name@),
            Token::Semi => SpecToken::Semi,
            Token::Assign => SpecToken::Assign,
            Token::Dot => SpecToken::Dot,
            Token::Colon => SpecToken::Colon,
            Token::Comma => SpecToken::Comma,
        }
    }
}

impl Token {
    /// Whether two tokens have the same value.
    pub fn same(&self, other: &Token) -> (b: bool)
        ensures
            b == (self@ == other@),
    {
        match (self, other) {
            (Token::IntegerConstant(a), Token::IntegerConstant(b)) => *a == *b,
            (Token::RealConstant(a), Token::RealConstant(b)) => a.to_bits() == b.to_bits(),
            (Token::Plus, Token::Plus) => true,
            (Token::Minus, Token::Minus) => true,
            (Token::Multiply, Token::Multiply) => true,
            (Token::RealDivision, Token::RealDivision) => true,
            (Token::ParenthesisStart, Token::ParenthesisStart) => true,
            (Token::ParenthesisEnd, Token::ParenthesisEnd) => true,
            (Token::Eof, Token::Eof) => true,
            (Token::Keyword(a), Token::Keyword(b)) => *a == *b,
            (Token::Identifier(a), Token::Identifier(b)) => *a == *b,
            (Token::Semi, Token::Semi) => true,
            (Token::Assign, Token::Assign) => true,
            (Token::Dot, Token::Dot) => true,
            (Token::Colon, Token::Colon) => true,
            (Token::Comma, Token::Comma) => true,
            _ => false,
        }
    }

    /// A token with the same value as this one.
    pub fn duplicate(&self) -> (copy: Token)
        ensures
            copy@ == self@,
    {
        match self {
            Token::IntegerConstant(i) => Token::IntegerConstant(*i),
            Token::RealConstant(r) => Token::RealConstant(*r),
            Token::Plus => Token::Plus,
            Token::Minus => Token::Minus,
            Token::Multiply => Token::Multiply,
            Token::RealDivision => Token::RealDivision,
            Token::ParenthesisStart => Token::ParenthesisStart,
            Token::ParenthesisEnd => Token::ParenthesisEnd,
            Token::Eof => Token::Eof,
            Token::Keyword(k) => Token::Keyword(*k),
            Token::Identifier(name) => Token::Identifier(name.clone()),
            Token::Semi => Token::Semi,
            Token::Assign => Token::Assign,
            Token::Dot => Token::Dot,
            Token::Colon => Token::Colon,
            Token::Comma => Token::Comma,
        }
    }
}

/// `c` with an upper-case letter of `A` to `Z` replaced by its lower-case
/// form; any other character unchanged.
pub open spec fn lower(c: char) -> char {
    if 'A' <= c <= 'Z' {
        ((c as u8) + 32) as char
    } else {
        c
    }
}

/// `name` with each character replaced by `lower` of it.
pub open spec fn lowered(name: Seq<char>) -> Seq<char> {
    Seq::new(name.len(), |i: int| lower(name[i]))
}

/// How a keyword is spelled, in lower case.
pub open spec fn spelling(keyword: Keyword) -> Seq<char> {
    match keyword {
        Keyword::Begin => seq!['b', 'e', 'g', 'i', 'n'],
        Keyword::End => seq!['e', 'n', 'd'],
        Keyword::IntegerDiv => seq!['d', 'i', 'v'],
        Keyword::Var => seq!['v', 'a', 'r'],
        Keyword::Integer => seq!['i', 'n', 't', 'e', 'g', 'e', 'r'],
        Keyword::Real => seq!['r', 'e', 'a', 'l'],
        Keyword::Program => seq!['p', 'r', 'o', 'g', 'r', 'a', 'm'],
        Keyword::Procedure => seq!['p', 'r', 'o', 'c', 'e', 'd', 'u', 'r', 'e'],
    }
}

/// The keyword that `name` spells, if it spells one: the comparison ignores
/// the case of the letters `A` to `Z`.
pub open spec fn keyword_of(name: Seq<char>) -> Option<Keyword> {
    if lowered(name) == spelling(Keyword::Begin) {
        Some(Keyword::Begin)
    } else if lowered(name) == spelling(Keyword::End) {
        Some(Keyword::End)
    } else if lowered(name) == spelling(Keyword::IntegerDiv) {
        Some(Keyword::IntegerDiv)
    } else if lowered(name) == spelling(Keyword::Var) {
        Some(Keyword::Var)
    } else if lowered(name) == spelling(Keyword::Integer) {
        Some(Keyword::Integer)
    } else if lowered(name) == spelling(Keyword::Real) {
        Some(Keyword::Real)
    } else if lowered(name) == spelling(Keyword::Program) {
        Some(Keyword::Program)
    } else if lowered(name) == spelling(Keyword::Procedure) {
        Some(Keyword::Procedure)
    } else {
        None
    }
}

fn to_lower(c: char) -> (r: char)
    ensures
        r == lower(c),
{
    if 'A' <= c && c <= 'Z' {
        ((c as u8) + 32) as char
    } else {
        c
    }
}

fn spelled(keyword: Keyword) -> (word: Vec<char>)
    ensures
        word@ == spelling(keyword),
{
    match keyword {
        Keyword::Begin => vec!['b', 'e', 'g', 'i', 'n'],
        Keyword::End => vec!['e', 'n', 'd'],
        Keyword::IntegerDiv => vec!['d', 'i', 'v'],
        Keyword::Var => vec!['v', 'a', 'r'],
        Keyword::Integer => vec!['i', 'n', 't', 'e', 'g', 'e', 'r'],
        Keyword::Real => vec!['r', 'e', 'a', 'l'],
        Keyword::Program => vec!['p', 'r', 'o', 'g', 'r', 'a', 'm'],
        Keyword::Procedure => vec!['p', 'r', 'o', 'c', 'e', 'd', 'u', 'r', 'e'],
    }
}

/// Whether `name`, in lower case, is `word`.
fn spells(name: &Vec<char>, keyword: Keyword) -> (b: bool)
    ensures
        b == (lowered(name@) == spelling(keyword)),
{
    let word = spelled(keyword);
    if name.len() != word.len() {
        return false;
    }
    let mut i: usize = 0;
    while i < name.len()
        invariant
            i <= name.len() == word.len(),
            word@ == spelling(keyword),
            forall|j: int| 0 <= j < i ==> lower(name@[j]) == word@[j],
        decreases name.len() - i,
    {
        if to_lower(name[i]) != word[i] {
            assert(lowered(name@)[i as int] != spelling(keyword)[i as int]);
            return false;
        }
        i += 1;
    }
    assert(lowered(name@) =~= spelling(keyword));
    true
}

impl Keyword {
    /// The keyword that `name` spells, whatever the case of its letters;
    /// `None` if it spells none.
    pub fn from_str(name: &str) -> (keyword: Option<Keyword>)
        ensures
            keyword == keyword_of(name@),
    {
        let chars = chars_of(name);
        if spells(&chars, Keyword::Begin) {
            Some(Keyword::Begin)
        } else if spells(&chars, Keyword::End) {
            Some(Keyword::End)
        } else if spells(&chars, Keyword::IntegerDiv) {
            Some(Keyword::IntegerDiv)
        } else if spells(&chars, Keyword::Var) {
            Some(Keyword::Var)
        } else if spells(&chars, Keyword::Integer) {
            Some(Keyword::Integer)
        } else if spells(&chars, Keyword::Real) {
            Some(Keyword::Real)
        } else if spells(&chars, Keyword::Program) {
            Some(Keyword::Program)
        } else if spells(&chars, Keyword::Procedure) {
            Some(Keyword::Procedure)
        } else {
            None
        }
    }
}

/// Names that differ only in the case of the letters `A` to `Z` spell the
/// same keyword, or none.
pub proof fn keyword_ignores_case(a: Seq<char>, b: Seq<char>)
    requires
        lowered(a) == lowered(b),
    ensures
        keyword_of(a) == keyword_of(b),
{
}

/// Any mix of upper and lower case in the letters of a keyword's spelling
/// spells that keyword.
pub proof fn keyword_of_spelling(name: Seq<char>, keyword: Keyword)
    requires
        lowered(name) == spelling(keyword),
    ensures
        keyword_of(name) == Some(keyword),
{
    assert(spelling(Keyword::Begin).len() == 5);
    assert(spelling(Keyword::End)[0] == 'e');
    assert(spelling(Keyword::IntegerDiv)[0] == 'd');
    assert(spelling(Keyword::Var)[0] == 'v');
    assert(spelling(Keyword::Integer)[0] == 'i');
    assert(spelling(Keyword::Real)[0] == 'r');
    assert(spelling(Keyword::Program)[3] == 'g');
    assert(spelling(Keyword::Procedure)[3] == 'c');
}

} // verus!
