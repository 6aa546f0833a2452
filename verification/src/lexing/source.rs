//! Where the parser takes its tokens from: anything that hands out one
//! token per call.

use crate::lexing::lexer::{lemma_scan_advances, scan, LexError, Lexer, Text};
use crate::lexing::token::{SpecToken, Token};
use vstd::prelude::*;

verus! {

/// A source of tokens, read one at a time. What is still to come is a finite
/// sequence of tokens, `pending`; once they are all read the source either
/// hands out `Eof` on every call, or fails with `failure` on every call.
pub trait TokenSource {
    /// The source is in a state in which it can be read.
    spec fn wf(&self) -> bool;

    /// The tokens that the next calls hand out, in order.
    spec fn pending(&self) -> Seq<SpecToken>;

    /// The error that every call gives once `pending` is empty, if any.
    spec fn failure(&self) -> Option<LexError>;

    /// Hands out the next token.
    fn next_token(&mut self) -> (r: Result<Token, LexError>)
        requires
            old(self).wf(),
        ensures
            final(self).wf(),
            final(self).failure() == old(self).failure(),
            old(self).pending().len() > 0 ==> (r matches Ok(t) && t@ == old(self).pending()[0])
                && final(self).pending() == old(self).pending().drop_first(),
            old(self).pending().len() == 0 ==> final(self).pending().len() == 0 && read_view(r)
                == token_at(old(self).pending(), old(self).failure(), 0),
    ;
}

/// The mathematical value of what a call of a source returns.
pub open spec fn read_view(r: Result<Token, LexError>) -> Result<SpecToken, LexError> {
    match r {
        Ok(token) => Ok(token@),
        Err(e) => Err(e),
    }
}

/// What is read at index `i` from a source with the pending tokens `tokens`:
/// the token at that index, and past the last of them `Eof`, or the error
/// `failure` where the source has one.
pub open spec fn token_at(tokens: Seq<SpecToken>, failure: Option<LexError>, i: int) -> Result<
    SpecToken,
    LexError,
> {
    if 0 <= i < tokens.len() {
        Ok(tokens[i])
    } else {
        match failure {
            Some(e) => Err(e),
            None => Ok(SpecToken::Eof),
        }
    }
}

/// The tokens of `text` from position `from` on, up to its end or to the
/// first place that is no token.
pub open spec fn tokens_from(text: Text, from: int) -> Seq<SpecToken>
    decreases text.chars.len() - from,
{
    match scan(text, from) {
        Ok((token, next)) => if token != SpecToken::Eof && from < next <= text.chars.len() {
            seq![token] + tokens_from(text, next)
        } else {
            Seq::empty()
        },
        Err(_) => Seq::empty(),
    }
}

/// The lexical error in `text` that ends the tokens from position `from` on, if any.
pub open spec fn failure_from(text: Text, from: int) -> Option<LexError>
    decreases text.chars.len() - from,
{
    match scan(text, from) {
        Ok((token, next)) => if token != SpecToken::Eof && from < next <= text.chars.len() {
            failure_from(text, next)
        } else {
            None
        },
        Err(e) => Some(e),
    }
}

impl TokenSource for Lexer {
    open spec fn wf(&self) -> bool {
        Lexer::wf(self)
    }

    open spec fn pending(&self) -> Seq<SpecToken> {
        tokens_from(self.text(), self.position())
    }

    open spec fn failure(&self) -> Option<LexError> {
        failure_from(self.text(), self.position())
    }

    fn next_token(&mut self) -> (r: Result<Token, LexError>) {
        proof {
            self.position_in_text();
            lemma_scan_advances(self.text(), self.position());
        }
        let r = self.get_next_token();
        proof {
            let tokens = tokens_from(old(self).text(), old(self).position());
            if tokens.len() > 0 {
                assert(tokens.drop_first() =~= self.pending());
            }
        }
        r
    }
}

/// A source that hands out the tokens of a list, and `Eof` after the last.
pub struct TokenList {
    tokens: Vec<Token>,
    next: usize,
}

impl TokenList {
    /// A source that hands out `tokens` from the first on.
    pub fn new(tokens: Vec<Token>) -> (list: TokenList)
        ensures
            list.wf(),
            list.failure() is None,
            list.pending() == tokens@.map_values(|t: Token| t@),
    {
        let list = TokenList { tokens, next: 0 };
        assert(list.pending() =~= tokens@.map_values(|t: Token| t@));
        list
    }
}

impl TokenSource for TokenList {
    closed spec fn wf(&self) -> bool {
        self.next <= self.tokens.len()
    }

    closed spec fn pending(&self) -> Seq<SpecToken> {
        Seq::new((self.tokens.len() - self.next) as nat, |i: int| self.tokens@[self.next + i]@)
    }

    closed spec fn failure(&self) -> Option<LexError> {
        None
    }

    fn next_token(&mut self) -> (r: Result<Token, LexError>) {
        if self.next < self.tokens.len() {
            let token = self.tokens[self.next].duplicate();
            self.next += 1;
            assert(self.pending() =~= old(self).pending().drop_first());
            Ok(token)
        } else {
            Ok(Token::Eof)
        }
    }
}

} // verus!
