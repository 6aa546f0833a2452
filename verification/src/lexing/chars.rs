//! Character classes and text helpers used by the lexer.

use vstd::prelude::*;

verus! {

/// Whether `char::is_whitespace` holds of `c` (the Unicode `White_Space` property).
pub uninterp spec fn whitespace(c: char) -> bool;

/// Whether `char::is_alphabetic` holds of `c` (the Unicode `Alphabetic` property).
pub uninterp spec fn alphabetic(c: char) -> bool;

/// Whether `char::is_numeric` holds of `c` (the Unicode general categories `Nd`, `Nl`, `No`).
pub uninterp spec fn numeric(c: char) -> bool;

/// `char::is_whitespace` looks `c` up in a table of the Unicode standard; the
/// result depends on `c` alone and is named `whitespace(c)`.
pub assume_specification[ char::is_whitespace ](c: char) -> (b: bool)
    ensures
        b == whitespace(c),
;

/// `char::is_alphabetic` looks `c` up in a table of the Unicode standard; the
/// result depends on `c` alone and is named `alphabetic(c)`.
pub assume_specification[ char::is_alphabetic ](c: char) -> (b: bool)
    ensures
        b == alphabetic(c),
;

/// `char::is_numeric` looks `c` up in a table of the Unicode standard; the
/// result depends on `c` alone and is named `numeric(c)`.
pub assume_specification[ char::is_numeric ](c: char) -> (b: bool)
    ensures
        b == numeric(c),
;

/// The classes of a character that the lexer tells apart.
#[derive(Clone, Copy, Debug, PartialEq, Eq, Structural)]
pub struct CharClass {
    /// White space.
    pub whitespace: bool,
    /// A letter.
    pub alphabetic: bool,
    /// A digit, or another character that stands for a number.
    pub numeric: bool,
}

/// The classes of `c`.
pub open spec fn class_of(c: char) -> CharClass {
    CharClass { whitespace: whitespace(c), alphabetic: alphabetic(c), numeric: numeric(c) }
}

/// The classes of `c`, as `char::is_whitespace`, `char::is_alphabetic` and
/// `char::is_numeric` give them.
pub fn classify(c: char) -> (class: CharClass)
    ensures
        class == class_of(c),
{
    CharClass {
        whitespace: c.is_whitespace(),
        alphabetic: c.is_alphabetic(),
        numeric: c.is_numeric(),
    }
}

/// `String::push` appends one character to the end of the string.
pub assume_specification[ String::push ](s: &mut String, c: char)
    ensures
        final(s)@ == old(s)@.push(c),
;

/// The characters of `text`, in order.
pub fn chars_of(text: &str) -> (chars: Vec<char>)
    ensures
        chars@ == text@,
{
    let mut chars: Vec<char> = Vec::new();
    for c in it: text.chars()
        invariant
            chars@ == it.seq().take(it.index() as int),
    {
        chars.push(c);
    }
    chars
}

/// The text made of `chars[start..end]`.
pub fn text_of(chars: &Vec<char>, start: usize, end: usize) -> (text: String)
    requires
        start <= end <= chars.len(),
    ensures
        text@ == chars@.subrange(start as int, end as int),
{
    let mut text = String::new();
    let mut i: usize = start;
    while i < end
        invariant
            start <= i <= end <= chars.len(),
            text@ == chars@.subrange(start as int, i as int),
        decreases end - i,
    {
        text.push(chars[i]);
        i += 1;
    }
    text
}

} // verus!
