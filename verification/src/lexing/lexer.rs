//! The lexer: it reads the source text and hands out one token per call.

use crate::lexing::chars::{chars_of, class_of, classify, text_of, CharClass};
use crate::lexing::token::{keyword_of, Keyword, SpecToken, Token};
use crate::reals::{all_digits, decimal_real, is_digit, Real};
use vstd::prelude::*;
use vstd::string::StringExecFns;

verus! {

/// Why the text at the lexer's position is no token.
#[derive(Clone, Copy, Debug, PartialEq, Eq, Structural)]
pub enum LexError {
    /// A character that starts no token.
    UnexpectedCharacter(char),
    /// A `{` without a `}` after it.
    UnterminatedComment,
    /// A numeral that is not made of the digits `0` to `9`, or an integer
    /// numeral above the largest 32-bit integer.
    InvalidNumber,
}

/// The text that a lexer reads: its characters, and for each of them the
/// classes that it belongs to.
pub struct Text {
    pub chars: Seq<char>,
    pub classes: Seq<CharClass>,
}

/// The text of the characters `chars`, each with the classes that it has.
pub open spec fn classified(chars: Seq<char>) -> Text {
    Text { chars, classes: Seq::new(chars.len(), |i: int| class_of(chars[i])) }
}

/// Whether a character of the class `class` may stand in a name: a letter,
/// a numeric character or `_`.
pub open spec fn name_char(c: char, class: CharClass) -> bool {
    class.alphabetic || class.numeric || c == '_'
}

/// The index of the first `}` of `text` at or after `from`, or the length of
/// `text` if there is none.
pub open spec fn comment_end(text: Text, from: int) -> int
    decreases text.chars.len() - from,
{
    if 0 <= from < text.chars.len() && text.chars[from] != '}' {
        comment_end(text, from + 1)
    } else {
        from
    }
}

/// The end of the longest run of numeric characters of `text` that starts at `from`.
pub open spec fn numeric_end(text: Text, from: int) -> int
    decreases text.chars.len() - from,
{
    if 0 <= from < text.chars.len() && text.classes[from].numeric {
        numeric_end(text, from + 1)
    } else {
        from
    }
}

/// The end of the longest run of name characters of `text` that starts at `from`.
pub open spec fn name_end(text: Text, from: int) -> int
    decreases text.chars.len() - from,
{
    if 0 <= from < text.chars.len() && name_char(text.chars[from], text.classes[from]) {
        name_end(text, from + 1)
    } else {
        from
    }
}

/// Where the next token starts: `from`, moved past white space and past
/// comments in braces. A comment that is not closed is an error.
pub open spec fn token_start(text: Text, from: int) -> Result<int, LexError>
    decreases text.chars.len() - from,
{
    if from < 0 || from >= text.chars.len() {
        Ok(from)
    } else if text.classes[from].whitespace {
        token_start(text, from + 1)
    } else if text.chars[from] == '{' {
        let close = comment_end(text, from + 1);
        if from < close < text.chars.len() {
            token_start(text, close + 1)
        } else {
            Err(LexError::UnterminatedComment)
        }
    } else {
        Ok(from)
    }
}

/// The number that the digits `digits` write in base ten.
pub open spec fn decimal_value(digits: Seq<char>) -> int
    decreases digits.len(),
{
    if digits.len() == 0 {
        0
    } else {
        decimal_value(digits.drop_last()) * 10 + (digits.last() as int - '0' as int)
    }
}

/// The token of an integer numeral: its value, if it is made of digits and
/// fits in 32 bits.
pub open spec fn integer_token(digits: Seq<char>) -> Result<SpecToken, LexError> {
    if all_digits(digits) && decimal_value(digits) <= i32::MAX {
        Ok(SpecToken::IntegerConstant(decimal_value(digits) as i32))
    } else {
        Err(LexError::InvalidNumber)
    }
}

/// The numeral that starts at `start`: a run of numeric characters, and if a
/// dot and another numeric character follow it, the dot and the run after it
/// too. With a fraction it is a real constant, without one an integer
/// constant; a dot that no numeric character follows is left in the text.
pub open spec fn scan_number(text: Text, start: int) -> Result<(SpecToken, int), LexError> {
    let whole_end = numeric_end(text, start);
    if whole_end + 1 < text.chars.len() && text.chars[whole_end] == '.' && text.classes[whole_end
        + 1].numeric {
        let end = numeric_end(text, whole_end + 1);
        match decimal_real(text.chars.subrange(start, end)) {
            Some(r) => Ok((SpecToken::RealConstant(r), end)),
            None => Err(LexError::InvalidNumber),
        }
    } else {
        match integer_token(text.chars.subrange(start, whole_end)) {
            Ok(token) => Ok((token, whole_end)),
            Err(e) => Err(e),
        }
    }
}

/// The word that starts at `start`: the longest run of name characters. It
/// is a keyword if it spells one, else an identifier with the text as written.
pub open spec fn scan_word(text: Text, start: int) -> (SpecToken, int) {
    let end = name_end(text, start);
    let name = text.chars.subrange(start, end);
    match keyword_of(name) {
        Some(keyword) => (SpecToken::Keyword(keyword), end),
        None => (SpecToken::Identifier(name), end),
    }
}

/// The token that starts at `start`, where `start` is inside `text` and is
/// neither white space nor the start of a comment, and the position after it.
pub open spec fn scan_at(text: Text, start: int) -> Result<(SpecToken, int), LexError> {
    let c = text.chars[start];
    if text.classes[start].numeric {
        scan_number(text, start)
    } else if c == '+' {
        Ok((SpecToken::Plus, start + 1))
    } else if c == '-' {
        Ok((SpecToken::Minus, start + 1))
    } else if c == '*' {
        Ok((SpecToken::Multiply, start + 1))
    } else if c == '/' {
        Ok((SpecToken::RealDivision, start + 1))
    } else if c == '(' {
        Ok((SpecToken::ParenthesisStart, start + 1))
    } else if c == ')' {
        Ok((SpecToken::ParenthesisEnd, start + 1))
    } else if text.classes[start].alphabetic || c == '_' {
        Ok(scan_word(text, start))
    } else if c == ':' {
        if start + 1 < text.chars.len() && text.chars[start + 1] == '=' {
            Ok((SpecToken::Assign, start + 2))
        } else {
            Ok((SpecToken::Colon, start + 1))
        }
    } else if c == ';' {
        Ok((SpecToken::Semi, start + 1))
    } else if c == '.' {
        Ok((SpecToken::Dot, start + 1))
    } else if c == ',' {
        Ok((SpecToken::Comma, start + 1))
    } else {
        Err(LexError::UnexpectedCharacter(c))
    }
}

/// The next token of `text` from position `from` on, and the position after
/// it: the end-of-stream token once only white space and comments are left.
pub open spec fn scan(text: Text, from: int) -> Result<(SpecToken, int), LexError> {
    match token_start(text, from) {
        Err(e) => Err(e),
        Ok(start) => if start >= text.chars.len() {
            Ok((SpecToken::Eof, start))
        } else {
            scan_at(text, start)
        },
    }
}

/// Facts about `comment_end`.
pub proof fn lemma_comment_end(text: Text, from: int)
    requires
        0 <= from <= text.chars.len(),
    ensures
        from <= comment_end(text, from) <= text.chars.len(),
        comment_end(text, from) < text.chars.len() ==> text.chars[comment_end(text, from)] == '}',
    decreases text.chars.len() - from,
{
    if from < text.chars.len() && text.chars[from] != '}' {
        lemma_comment_end(text, from + 1);
    }
}

/// Facts about `numeric_end`.
pub proof fn lemma_numeric_end(text: Text, from: int)
    requires
        0 <= from <= text.chars.len(),
    ensures
        from <= numeric_end(text, from) <= text.chars.len(),
        from < text.chars.len() && text.classes[from].numeric ==> from < numeric_end(text, from),
    decreases text.chars.len() - from,
{
    if from < text.chars.len() && text.classes[from].numeric {
        lemma_numeric_end(text, from + 1);
    }
}

/// Facts about `name_end`.
pub proof fn lemma_name_end(text: Text, from: int)
    requires
        0 <= from <= text.chars.len(),
    ensures
        from <= name_end(text, from) <= text.chars.len(),
        from < text.chars.len() && name_char(text.chars[from], text.classes[from]) ==> from
            < name_end(text, from),
    decreases text.chars.len() - from,
{
    if from < text.chars.len() && name_char(text.chars[from], text.classes[from]) {
        lemma_name_end(text, from + 1);
    }
}

/// The next token starts inside the text or at its end.
pub proof fn lemma_token_start(text: Text, from: int)
    requires
        0 <= from <= text.chars.len(),
    ensures
        token_start(text, from) matches Ok(start) ==> from <= start <= text.chars.len() && (start
            < text.chars.len() ==> !text.classes[start].whitespace && text.chars[start] != '{')
            && token_start(text, start) == Ok::<int, LexError>(start),
    decreases text.chars.len() - from,
{
    if from >= text.chars.len() {
    } else if text.classes[from].whitespace {
        lemma_token_start(text, from + 1);
    } else if text.chars[from] == '{' {
        let close = comment_end(text, from + 1);
        lemma_comment_end(text, from + 1);
        if close < text.chars.len() {
            lemma_token_start(text, close + 1);
        }
    }
}

/// A token other than the end-of-stream token takes at least one character,
/// and no token ends beyond the text. The end-of-stream token is handed out
/// at the end of the text only, and again on every later call.
pub proof fn lemma_scan_advances(text: Text, from: int)
    requires
        0 <= from <= text.chars.len(),
    ensures
        scan(text, from) matches Ok((token, next)) ==> from <= next <= text.chars.len() && (token
            != SpecToken::Eof ==> from < next) && (token == SpecToken::Eof ==> next
            == text.chars.len() && scan(text, next) == scan(text, from)),
{
    lemma_token_start(text, from);
    if let Ok(start) = token_start(text, from) {
        if start < text.chars.len() {
            lemma_numeric_end(text, start);
            lemma_name_end(text, start);
            let whole_end = numeric_end(text, start);
            if whole_end + 1 < text.chars.len() {
                lemma_numeric_end(text, whole_end + 1);
            }
        }
    }
}

/// The lexer: the source text as characters, the classes of each of them,
/// and the position of the next character to read.
pub struct Lexer {
    text: Vec<char>,
    classes: Vec<CharClass>,
    pos: usize,
}

impl Lexer {
    /// The source text, with the classes of its characters.
    pub closed spec fn text(&self) -> Text {
        Text { chars: self.text@, classes: self.classes@ }
    }

    /// The position in the text of the next character to read.
    pub closed spec fn position(&self) -> int {
        self.pos as int
    }

    /// The position is inside the text or at its end, and every character
    /// has its classes.
    pub closed spec fn wf(&self) -> bool {
        self.pos <= self.text.len() && self.classes.len() == self.text.len()
    }

    /// A lexer at the start of `text`, whose characters it classifies as
    /// `char::is_whitespace`, `char::is_alphabetic` and `char::is_numeric` do.
    pub fn new(text: &str) -> (lexer: Lexer)
        ensures
            lexer.wf(),
            lexer.text() == classified(text@),
            lexer.position() == 0,
    {
        let text = chars_of(text);
        let mut classes: Vec<CharClass> = Vec::new();
        let mut i: usize = 0;
        while i < text.len()
            invariant
                i <= text.len(),
                classes.len() == i,
                forall|k: int| 0 <= k < i ==> classes[k] == class_of(text[k]),
            decreases text.len() - i,
        {
            classes.push(classify(text[i]));
            i += 1;
        }
        assert(classes@ =~= classified(text@).classes);
        Lexer { text, classes, pos: 0 }
    }

    /// A lexer at the start of the text `chars`, with the classes of its
    /// characters as given, one for each character; `None` if the two differ
    /// in length.
    pub fn with_classes(chars: Vec<char>, classes: Vec<CharClass>) -> (lexer: Option<Lexer>)
        ensures
            lexer is Some <==> chars.len() == classes.len(),
            lexer matches Some(l) ==> l.wf() && l.position() == 0 && l.text() == (Text {
                chars: chars@,
                classes: classes@,
            }),
    {
        if chars.len() == classes.len() {
            Some(Lexer { text: chars, classes, pos: 0 })
        } else {
            None
        }
    }

    /// The position of a well-formed lexer never lies beyond the text.
    pub proof fn position_in_text(&self)
        requires
            self.wf(),
        ensures
            0 <= self.position() <= self.text().chars.len(),
            self.text().classes.len() == self.text().chars.len(),
    {
    }

    /// The character at the position, if the text has not ended.
    fn current_char(&self) -> (c: Option<char>)
        ensures
            c == if self.pos < self.text.len() {
                Some(self.text[self.pos as int])
            } else {
                None
            },
    {
        if self.pos < self.text.len() {
            Some(self.text[self.pos])
        } else {
            None
        }
    }

    /// The character after the one at the position, if there is one.
    fn peek(&self) -> (c: Option<char>)
        ensures
            c == if self.pos + 1 < self.text.len() {
                Some(self.text[self.pos + 1])
            } else {
                None
            },
    {
        if self.pos < self.text.len() && self.pos + 1 < self.text.len() {
            Some(self.text[self.pos + 1])
        } else {
            None
        }
    }

    /// Moves to the next character, if the text has not ended.
    fn advance(&mut self)
        requires
            old(self).wf(),
        ensures
            final(self).wf(),
            final(self).text() == old(self).text(),
            final(self).pos == if old(self).pos < old(self).text.len() {
                old(self).pos + 1
            } else {
                old(self).pos as int
            },
    {
        if self.pos < self.text.len() {
            self.pos += 1;
        }
    }

    /// Moves past the `}` that closes the comment in which the position
    /// lies; fails, at the end of the text, if there is none.
    fn skip_until_comment_ends(&mut self) -> (r: Result<(), LexError>)
        requires
            old(self).wf(),
        ensures
            final(self).wf(),
            final(self).text() == old(self).text(),
            comment_end(old(self).text(), old(self).pos as int) < old(self).text.len() ==> r is Ok
                && final(self).pos == comment_end(old(self).text(), old(self).pos as int) + 1,
            comment_end(old(self).text(), old(self).pos as int) >= old(self).text.len() ==> r
                == Err::<(), LexError>(LexError::UnterminatedComment),
    {
        loop
            invariant
                self.wf(),
                self.text() == old(self).text(),
                comment_end(self.text(), self.pos as int) == comment_end(
                    old(self).text(),
                    old(self).pos as int,
                ),
            decreases self.text.len() - self.pos,
        {
            match self.current_char() {
                None => {
                    return Err(LexError::UnterminatedComment);
                },
                Some(c) => {
                    self.advance();
                    if c == '}' {
                        return Ok(());
                    }
                },
            }
        }
    }

    /// Takes the character at the position and the run of numeric characters
    /// after it, and returns them as text.
    fn integer(&mut self) -> (digits: String)
        requires
            old(self).wf(),
            old(self).pos < old(self).text.len(),
        ensures
            final(self).wf(),
            final(self).text() == old(self).text(),
            final(self).pos == numeric_end(old(self).text(), old(self).pos + 1),
            digits@ == old(self).text().chars.subrange(
                old(self).pos as int,
                final(self).pos as int,
            ),
    {
        let start = self.pos;
        self.advance();
        while self.pos < self.text.len() && self.classes[self.pos].numeric
            invariant
                self.wf(),
                self.text() == old(self).text(),
                start == old(self).pos,
                start < self.pos <= self.text.len(),
                numeric_end(self.text(), self.pos as int) == numeric_end(
                    old(self).text(),
                    old(self).pos + 1,
                ),
            decreases self.text.len() - self.pos,
        {
            self.advance();
        }
        text_of(&self.text, start, self.pos)
    }

    /// Reads the numeral that starts at the position, where a numeric
    /// character stands.
    fn constant_number(&mut self) -> (r: Result<Token, LexError>)
        requires
            old(self).wf(),
            old(self).pos < old(self).text.len(),
            old(self).text().classes[old(self).pos as int].numeric,
        ensures
            final(self).wf(),
            final(self).text() == old(self).text(),
            match scan_number(old(self).text(), old(self).pos as int) {
                Ok((token, next)) => r matches Ok(t) && t@ == token && final(self).pos == next,
                Err(e) => r == Err::<Token, LexError>(e),
            },
    {
        let ghost text = self.text();
        let ghost start = self.pos as int;
        let start_pos = self.pos;
        let mut numeral = self.integer();
        let whole_end = self.pos;
        proof {
            lemma_numeric_end(text, start);
            lemma_numeric_end(text, start + 1);
        }
        let fraction_follows = match (self.current_char(), self.peek()) {
            (Some(dot), Some(_)) => dot == '.' && self.classes[self.pos + 1].numeric,
            _ => false,
        };
        if fraction_follows {
            let fraction = self.integer();
            numeral.append(fraction.as_str());
            proof {
                lemma_numeric_end(text, whole_end + 1);
                assert(numeral@ =~= text.chars.subrange(start, self.pos as int));
            }
            match Real::from_decimal(numeral.as_str()) {
                Some(r) => Ok(Token::RealConstant(r)),
                None => Err(LexError::InvalidNumber),
            }
        } else {
            match digits_value(&self.text, start_pos, whole_end) {
                Some(value) => Ok(Token::IntegerConstant(value)),
                None => Err(LexError::InvalidNumber),
            }
        }
    }

    /// Reads the name that starts at the position: the run of name characters.
    fn id(&mut self) -> (name: String)
        requires
            old(self).wf(),
        ensures
            final(self).wf(),
            final(self).text() == old(self).text(),
            final(self).pos == name_end(old(self).text(), old(self).pos as int),
            name@ == old(self).text().chars.subrange(old(self).pos as int, final(self).pos as int),
    {
        let start = self.pos;
        while self.pos < self.text.len() && is_name_char(
            self.text[self.pos],
            self.classes[self.pos],
        )
            invariant
                self.wf(),
                self.text() == old(self).text(),
                start == old(self).pos,
                start <= self.pos <= self.text.len(),
                name_end(self.text(), self.pos as int) == name_end(
                    old(self).text(),
                    old(self).pos as int,
                ),
            decreases self.text.len() - self.pos,
        {
            self.advance();
        }
        text_of(&self.text, start, self.pos)
    }

    /// Moves past white space and comments to the start of the next token.
    fn skip_blanks(&mut self) -> (r: Result<(), LexError>)
        requires
            old(self).wf(),
        ensures
            final(self).wf(),
            final(self).text() == old(self).text(),
            match token_start(old(self).text(), old(self).pos as int) {
                Ok(start) => r is Ok && final(self).pos == start,
                Err(e) => r == Err::<(), LexError>(e),
            },
    {
        while self.pos < self.text.len() && (self.classes[self.pos].whitespace
            || self.text[self.pos] == '{')
            invariant
                self.wf(),
                self.text() == old(self).text(),
                token_start(self.text(), self.pos as int) == token_start(
                    old(self).text(),
                    old(self).pos as int,
                ),
            decreases self.text.len() - self.pos,
        {
            let comment = !self.classes[self.pos].whitespace;
            self.advance();
            if comment {
                proof {
                    lemma_comment_end(self.text(), self.pos as int);
                }
                match self.skip_until_comment_ends() {
                    Ok(()) => {},
                    Err(e) => {
                        return Err(e);
                    },
                }
            }
        }
        Ok(())
    }

    /// Reads the token that starts at the position, where the character `c`
    /// of the class `class` stands, which is neither white space nor the
    /// start of a comment.
    fn token_here(&mut self, c: char, class: CharClass) -> (r: Result<Token, LexError>)
        requires
            old(self).wf(),
            old(self).pos < old(self).text.len(),
            c == old(self).text().chars[old(self).pos as int],
            class == old(self).text().classes[old(self).pos as int],
        ensures
            final(self).wf(),
            final(self).text() == old(self).text(),
            match scan_at(old(self).text(), old(self).pos as int) {
                Ok((token, next)) => r matches Ok(t) && t@ == token && final(self).pos == next,
                Err(e) => r == Err::<Token, LexError>(e),
            },
    {
        if class.numeric {
            self.constant_number()
        } else if c == '+' {
            self.advance();
            Ok(Token::Plus)
        } else if c == '-' {
            self.advance();
            Ok(Token::Minus)
        } else if c == '*' {
            self.advance();
            Ok(Token::Multiply)
        } else if c == '/' {
            self.advance();
            Ok(Token::RealDivision)
        } else if c == '(' {
            self.advance();
            Ok(Token::ParenthesisStart)
        } else if c == ')' {
            self.advance();
            Ok(Token::ParenthesisEnd)
        } else if class.alphabetic || c == '_' {
            let name = self.id();
            match Keyword::from_str(name.as_str()) {
                Some(keyword) => Ok(Token::Keyword(keyword)),
                None => Ok(Token::Identifier(name)),
            }
        } else if c == ':' {
            let assign = match self.peek() {
                Some(next) => next == '=',
                None => false,
            };
            self.advance();
            if assign {
                self.advance();
                Ok(Token::Assign)
            } else {
                Ok(Token::Colon)
            }
        } else if c == ';' {
            self.advance();
            Ok(Token::Semi)
        } else if c == '.' {
            self.advance();
            Ok(Token::Dot)
        } else if c == ',' {
            self.advance();
            Ok(Token::Comma)
        } else {
            Err(LexError::UnexpectedCharacter(c))
        }
    }

    /// Reads the next token and moves past it. At the end of the text the
    /// token is `Eof`, on this call and on every later one. On an error the
    /// lexer stays where it was, so that every later call fails alike.
    pub fn get_next_token(&mut self) -> (r: Result<Token, LexError>)
        requires
            old(self).wf(),
        ensures
            final(self).wf(),
            final(self).text() == old(self).text(),
            match scan(old(self).text(), old(self).position()) {
                Ok((token, next)) => r matches Ok(t) && t@ == token && final(self).position()
                    == next,
                Err(e) => r == Err::<Token, LexError>(e) && final(self).position() == old(
                    self,
                ).position(),
            },
    {
        proof {
            lemma_token_start(self.text(), self.pos as int);
        }
        let origin = self.pos;
        let r = match self.skip_blanks() {
            Err(e) => Err(e),
            Ok(()) => match self.current_char() {
                None => Ok(Token::Eof),
                Some(c) => {
                    let class = self.classes[self.pos];
                    self.token_here(c, class)
                },
            },
        };
        if r.is_err() {
            self.pos = origin;
        }
        r
    }
}

/// Whether `c`, of the class `class`, may stand in a name.
fn is_name_char(c: char, class: CharClass) -> (b: bool)
    ensures
        b == name_char(c, class),
{
    class.alphabetic || class.numeric || c == '_'
}

/// The value of the numeral `text[start..end]`, if it is made of digits and
/// fits in 32 bits.
fn digits_value(text: &Vec<char>, start: usize, end: usize) -> (value: Option<i32>)
    requires
        start <= end <= text.len(),
    ensures
        match integer_token(text@.subrange(start as int, end as int)) {
            Ok(token) => value matches Some(v) && token == SpecToken::IntegerConstant(v),
            Err(_) => value is None,
        },
{
    let ghost digits = text@.subrange(start as int, end as int);
    let mut value: i64 = 0;
    let mut i: usize = start;
    while i < end
        invariant
            start <= i <= end <= text.len(),
            digits == text@.subrange(start as int, end as int),
            all_digits(text@.subrange(start as int, i as int)),
            value == decimal_value(text@.subrange(start as int, i as int)),
            0 <= value <= i32::MAX,
        decreases end - i,
    {
        let c = text[i];
        let ghost before = text@.subrange(start as int, i as int);
        let ghost after = text@.subrange(start as int, i + 1);
        proof {
            assert(after.drop_last() =~= before);
            assert(after.last() == c);
        }
        if !('0' <= c && c <= '9') {
            proof {
                assert(digits[i - start] == c);
            }
            return None;
        }
        let digit: i64 = (c as u8 - '0' as u8) as i64;
        let next: i64 = value * 10 + digit;
        if next > i32::MAX as i64 {
            proof {
                if all_digits(digits) {
                    lemma_decimal_value_grows(after, digits);
                }
            }
            return None;
        }
        proof {
            assert forall|j: int| 0 <= j < after.len() implies is_digit(#[trigger] after[j]) by {
                if j < before.len() {
                    assert(before[j] == after[j]);
                }
            }
        }
        value = next;
        i += 1;
    }
    proof {
        assert(text@.subrange(start as int, i as int) =~= digits);
    }
    Some(value as i32)
}

/// A numeral made of digits is worth at least as much as any of its prefixes.
proof fn lemma_decimal_value_grows(prefix: Seq<char>, digits: Seq<char>)
    requires
        prefix.len() <= digits.len(),
        prefix =~= digits.subrange(0, prefix.len() as int),
        all_digits(digits),
    ensures
        0 <= decimal_value(prefix) <= decimal_value(digits),
    decreases digits.len(),
{
    if digits.len() == 0 {
        assert(prefix =~= digits);
    } else if prefix.len() == digits.len() {
        assert(prefix =~= digits);
        lemma_decimal_value_grows(prefix.drop_last(), digits.drop_last());
        assert(is_digit(digits[digits.len() - 1]));
    } else {
        assert(prefix =~= digits.drop_last().subrange(0, prefix.len() as int));
        assert forall|j: int| 0 <= j < digits.drop_last().len() implies is_digit(
            #[trigger] digits.drop_last()[j],
        ) by {
            assert(digits.drop_last()[j] == digits[j]);
        }
        lemma_decimal_value_grows(prefix, digits.drop_last());
        assert(is_digit(digits[digits.len() - 1]));
    }
}

} // verus!
