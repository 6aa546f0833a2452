//! The grammar, as functions from a stream of tokens to the tree that the
//! parser builds from it.
//!
//! ```text
//! program      : PROGRAM variable SEMI block DOT
//! block        : declarations compound_statement
//! declarations : (VAR (var_decl SEMI)+)* (PROCEDURE ID SEMI block SEMI)*
//! var_decl     : ID (COMMA ID)* COLON type_spec
//! type_spec    : INTEGER | REAL
//! compound     : BEGIN statement_list END
//! statement_list : statement (SEMI statement)*
//! statement    : compound | assignment | empty
//! assignment   : variable ASSIGN expr
//! expr         : term ((PLUS | MINUS) term)*
//! term         : factor ((MUL | DIV | REAL_DIV) factor)*
//! factor       : (PLUS | MINUS) factor | INTEGER_CONST | REAL_CONST
//!              | LPAREN expr RPAREN | variable
//! ```
//!
//! Each function reads the stream from an index on, the index of the token
//! under the parser's eye. It gives what it built and how many tokens it
//! used, or the first error. To move to the next token is to read it from
//! the source: where the source fails there, the parse fails with that error.

use crate::lexing::lexer::LexError;
use crate::lexing::source::token_at;
use crate::lexing::token::{Keyword, SpecToken};
use crate::parsing::ast::{SpecAst, TypeSpec};
use vstd::prelude::*;

verus! {

/// What a source of tokens hands out: its tokens in order, and the error
/// with which it fails after them, if any.
pub struct Stream {
    pub tokens: Seq<SpecToken>,
    pub failure: Option<LexError>,
}

/// What the parser wanted to see where it found something else.
#[derive(Clone, Copy, Debug, PartialEq, Eq, Structural)]
pub enum Expected {
    /// An integer or real constant, a sign, an opening parenthesis or a variable.
    Factor,
    /// A name.
    Variable,
    /// `INTEGER` or `REAL`.
    TypeSpec,
    /// `)`
    ParenthesisEnd,
    /// `:=`
    Assign,
    /// `:`
    Colon,
    /// `;`
    Semi,
    /// `.`
    Dot,
    /// `BEGIN`
    Begin,
    /// `END`
    End,
    /// `PROGRAM`
    Program,
    /// The end of the tokens.
    Eof,
}

/// The mathematical value of a parse error.
pub enum SpecParseError {
    /// The grammar asked for `expected` where `found` stands.
    Unexpected { expected: Expected, found: SpecToken },
    /// The source of tokens failed.
    Lexical(LexError),
}

/// A tree or a list, with the number of tokens used for it; or an error.
pub type Parsed<T> = Result<(T, nat), SpecParseError>;

/// A list under construction, with the index of the token after it; or an error.
pub type Gathered<T> = Result<(T, int), SpecParseError>;

/// The token at index `i` of the stream, `Eof` past its end.
pub open spec fn current(st: Stream, i: int) -> SpecToken {
    match token_at(st.tokens, st.failure, i) {
        Ok(token) => token,
        Err(_) => SpecToken::Eof,
    }
}

/// How many tokens of the stream stand at index `i` and after it.
pub open spec fn remaining(st: Stream, i: int) -> nat {
    if i < st.tokens.len() {
        (st.tokens.len() - i) as nat
    } else {
        0
    }
}

/// Moving from index `i` to the next token: an error where the source fails there.
pub open spec fn advance(st: Stream, i: int) -> Result<(), SpecParseError> {
    match token_at(st.tokens, st.failure, i + 1) {
        Ok(_) => Ok(()),
        Err(e) => Err(SpecParseError::Lexical(e)),
    }
}

/// Moving past the token at index `i` if it is `token`; an error if it is another.
pub open spec fn eat(st: Stream, i: int, token: SpecToken, expected: Expected) -> Result<
    (),
    SpecParseError,
> {
    if current(st, i) == token {
        advance(st, i)
    } else {
        Err(SpecParseError::Unexpected { expected, found: current(st, i) })
    }
}

/// `variable : ID`
pub open spec fn variable(st: Stream, i: int) -> Parsed<Seq<char>> {
    match current(st, i) {
        SpecToken::Identifier(name) => match advance(st, i) {
            Err(e) => Err(e),
            Ok(()) => Ok((name, 1)),
        },
        other => Err(SpecParseError::Unexpected { expected: Expected::Variable, found: other }),
    }
}

/// `factor : (PLUS | MINUS) factor | INTEGER_CONST | REAL_CONST | LPAREN expr RPAREN
/// | variable`
pub open spec fn factor(st: Stream, i: int) -> Parsed<SpecAst>
    decreases remaining(st, i), 0int,
{
    match current(st, i) {
        SpecToken::Plus => match advance(st, i) {
            Err(e) => Err(e),
            Ok(()) => match factor(st, i + 1) {
                Err(e) => Err(e),
                Ok((inner, n)) => Ok((SpecAst::PositiveUnary(Box::new(inner)), n + 1)),
            },
        },
        SpecToken::Minus => match advance(st, i) {
            Err(e) => Err(e),
            Ok(()) => match factor(st, i + 1) {
                Err(e) => Err(e),
                Ok((inner, n)) => Ok((SpecAst::NegativeUnary(Box::new(inner)), n + 1)),
            },
        },
        SpecToken::IntegerConstant(value) => match advance(st, i) {
            Err(e) => Err(e),
            Ok(()) => Ok((SpecAst::IntegerConstant(value), 1)),
        },
        SpecToken::RealConstant(value) => match advance(st, i) {
            Err(e) => Err(e),
            Ok(()) => Ok((SpecAst::RealConstant(value), 1)),
        },
        SpecToken::ParenthesisStart => match advance(st, i) {
            Err(e) => Err(e),
            Ok(()) => match expr(st, i + 1) {
                Err(e) => Err(e),
                Ok((inner, n)) => match eat(
                    st,
                    i + 1 + n,
                    SpecToken::ParenthesisEnd,
                    Expected::ParenthesisEnd,
                ) {
                    Err(e) => Err(e),
                    Ok(()) => Ok((inner, n + 2)),
                },
            },
        },
        SpecToken::Identifier(_) => match variable(st, i) {
            Err(e) => Err(e),
            Ok((name, n)) => Ok((SpecAst::Variable(name), n)),
        },
        other => Err(SpecParseError::Unexpected { expected: Expected::Factor, found: other }),
    }
}

/// The rest of a term: `((MUL | DIV | REAL_DIV) factor)*`, with the tree
/// `left` built so far on the left of each operator.
pub open spec fn term_rest(st: Stream, i: int, left: SpecAst) -> Gathered<SpecAst>
    decreases remaining(st, i), 1int,
{
    match current(st, i) {
        SpecToken::Multiply => match advance(st, i) {
            Err(e) => Err(e),
            Ok(()) => match factor(st, i + 1) {
                Err(e) => Err(e),
                Ok((right, n)) => term_rest(
                    st,
                    i + 1 + n,
                    SpecAst::Multiply(Box::new(left), Box::new(right)),
                ),
            },
        },
        SpecToken::Keyword(Keyword::IntegerDiv) => match advance(st, i) {
            Err(e) => Err(e),
            Ok(()) => match factor(st, i + 1) {
                Err(e) => Err(e),
                Ok((right, n)) => term_rest(
                    st,
                    i + 1 + n,
                    SpecAst::IntegerDivide(Box::new(left), Box::new(right)),
                ),
            },
        },
        SpecToken::RealDivision => match advance(st, i) {
            Err(e) => Err(e),
            Ok(()) => match factor(st, i + 1) {
                Err(e) => Err(e),
                Ok((right, n)) => term_rest(
                    st,
                    i + 1 + n,
                    SpecAst::RealDivide(Box::new(left), Box::new(right)),
                ),
            },
        },
        _ => Ok((left, i)),
    }
}

/// `term : factor ((MUL | DIV | REAL_DIV) factor)*`, the operators taken from left to right.
pub open spec fn term(st: Stream, i: int) -> Parsed<SpecAst>
    decreases remaining(st, i), 2int,
{
    match factor(st, i) {
        Err(e) => Err(e),
        Ok((first, n)) => match term_rest(st, i + n, first) {
            Err(e) => Err(e),
            Ok((tree, next)) => Ok((tree, (next - i) as nat)),
        },
    }
}

/// The rest of an expression: `((PLUS | MINUS) term)*`, with the tree
/// `left` built so far on the left of each operator.
pub open spec fn expr_rest(st: Stream, i: int, left: SpecAst) -> Gathered<SpecAst>
    decreases remaining(st, i), 3int,
{
    match current(st, i) {
        SpecToken::Plus => match advance(st, i) {
            Err(e) => Err(e),
            Ok(()) => match term(st, i + 1) {
                Err(e) => Err(e),
                Ok((right, n)) => expr_rest(
                    st,
                    i + 1 + n,
                    SpecAst::Add(Box::new(left), Box::new(right)),
                ),
            },
        },
        SpecToken::Minus => match advance(st, i) {
            Err(e) => Err(e),
            Ok(()) => match term(st, i + 1) {
                Err(e) => Err(e),
                Ok((right, n)) => expr_rest(
                    st,
                    i + 1 + n,
                    SpecAst::Subtract(Box::new(left), Box::new(right)),
                ),
            },
        },
        _ => Ok((left, i)),
    }
}

/// `expr : term ((PLUS | MINUS) term)*`, the operators taken from left to right.
pub open spec fn expr(st: Stream, i: int) -> Parsed<SpecAst>
    decreases remaining(st, i), 4int,
{
    match term(st, i) {
        Err(e) => Err(e),
        Ok((first, n)) => match expr_rest(st, i + n, first) {
            Err(e) => Err(e),
            Ok((tree, next)) => Ok((tree, (next - i) as nat)),
        },
    }
}

/// `assignment : variable ASSIGN expr`
pub open spec fn assignment(st: Stream, i: int) -> Parsed<SpecAst> {
    match variable(st, i) {
        Err(e) => Err(e),
        Ok((name, n)) => match eat(st, i + n, SpecToken::Assign, Expected::Assign) {
            Err(e) => Err(e),
            Ok(()) => match expr(st, i + n + 1) {
                Err(e) => Err(e),
                Ok((value, m)) => Ok((SpecAst::Assign(name, Box::new(value)), n + 1 + m)),
            },
        },
    }
}

/// `compound : BEGIN statement_list END`
pub open spec fn compound(st: Stream, i: int) -> Parsed<SpecAst>
    decreases remaining(st, i), 1int,
{
    match eat(st, i, SpecToken::Keyword(Keyword::Begin), Expected::Begin) {
        Err(e) => Err(e),
        Ok(()) => match statement_list(st, i + 1) {
            Err(e) => Err(e),
            Ok((statements, n)) => match eat(
                st,
                i + 1 + n,
                SpecToken::Keyword(Keyword::End),
                Expected::End,
            ) {
                Err(e) => Err(e),
                Ok(()) => Ok((SpecAst::Compound { statements }, n + 2)),
            },
        },
    }
}

/// `statement : compound | assignment | empty`
pub open spec fn statement(st: Stream, i: int) -> Parsed<SpecAst>
    decreases remaining(st, i), 2int,
{
    match current(st, i) {
        SpecToken::Keyword(Keyword::Begin) => compound(st, i),
        SpecToken::Identifier(_) => assignment(st, i),
        _ => Ok((SpecAst::NoOp, 0)),
    }
}

/// The rest of a list of statements: `(SEMI statement)*`, after the
/// statements `done`.
pub open spec fn statement_list_rest(st: Stream, i: int, done: Seq<SpecAst>) -> Gathered<
    Seq<SpecAst>,
>
    decreases remaining(st, i), 0int,
{
    if current(st, i) == SpecToken::Semi {
        match advance(st, i) {
            Err(e) => Err(e),
            Ok(()) => match statement(st, i + 1) {
                Err(e) => Err(e),
                Ok((next, n)) => statement_list_rest(st, i + 1 + n, done.push(next)),
            },
        }
    } else {
        Ok((done, i))
    }
}

/// `statement_list : statement (SEMI statement)*`
pub open spec fn statement_list(st: Stream, i: int) -> Parsed<Seq<SpecAst>>
    decreases remaining(st, i), 3int,
{
    match statement(st, i) {
        Err(e) => Err(e),
        Ok((first, n)) => match statement_list_rest(st, i + n, seq![first]) {
            Err(e) => Err(e),
            Ok((statements, next)) => Ok((statements, (next - i) as nat)),
        },
    }
}

/// `type_spec : INTEGER | REAL`
pub open spec fn type_spec(st: Stream, i: int) -> Parsed<TypeSpec> {
    match current(st, i) {
        SpecToken::Keyword(Keyword::Integer) => match advance(st, i) {
            Err(e) => Err(e),
            Ok(()) => Ok((TypeSpec::Integer, 1)),
        },
        SpecToken::Keyword(Keyword::Real) => match advance(st, i) {
            Err(e) => Err(e),
            Ok(()) => Ok((TypeSpec::Real, 1)),
        },
        other => Err(SpecParseError::Unexpected { expected: Expected::TypeSpec, found: other }),
    }
}

/// The rest of the names of a declaration: `(COMMA ID)*`, after the names `done`.
pub open spec fn names_rest(st: Stream, i: int, done: Seq<Seq<char>>) -> Gathered<Seq<Seq<char>>>
    decreases remaining(st, i),
{
    if current(st, i) == SpecToken::Comma {
        match advance(st, i) {
            Err(e) => Err(e),
            Ok(()) => match variable(st, i + 1) {
                Err(e) => Err(e),
                Ok((name, n)) => names_rest(st, i + 1 + n, done.push(name)),
            },
        }
    } else {
        Ok((done, i))
    }
}

/// The declaration of the variable `name` with the type `type_spec`.
pub open spec fn declaration_of(name: Seq<char>, type_spec: TypeSpec) -> SpecAst {
    SpecAst::VariableDeclaration {
        variable: Box::new(SpecAst::Variable(name)),
        type_spec: Box::new(SpecAst::Type(type_spec)),
    }
}

/// `var_decl : ID (COMMA ID)* COLON type_spec`: one declaration for each
/// name, in the order of the names.
pub open spec fn variable_declaration(st: Stream, i: int) -> Parsed<Seq<SpecAst>> {
    match variable(st, i) {
        Err(e) => Err(e),
        Ok((first, n)) => match names_rest(st, i + n, seq![first]) {
            Err(e) => Err(e),
            Ok((names, colon)) => match eat(st, colon, SpecToken::Colon, Expected::Colon) {
                Err(e) => Err(e),
                Ok(()) => match type_spec(st, colon + 1) {
                    Err(e) => Err(e),
                    Ok((declared, m)) => Ok(
                        (
                            Seq::new(names.len(), |k: int| declaration_of(names[k], declared)),
                            (colon + 1 + m - i) as nat,
                        ),
                    ),
                },
            },
        },
    }
}

/// One line of a `VAR` section, `var_decl SEMI`, added to the declarations `done`.
pub open spec fn var_line(st: Stream, i: int, done: Seq<SpecAst>) -> Parsed<Seq<SpecAst>> {
    match variable_declaration(st, i) {
        Err(e) => Err(e),
        Ok((declared, n)) => match eat(st, i + n, SpecToken::Semi, Expected::Semi) {
            Err(e) => Err(e),
            Ok(()) => Ok((done + declared, n + 1)),
        },
    }
}

/// The `VAR` sections from index `i` on, after the declarations `done`:
/// `VAR` starts a section, whose first line has to follow it; inside a
/// section (`inside`), a name starts a further line.
pub open spec fn var_sections(st: Stream, i: int, done: Seq<SpecAst>, inside: bool) -> Gathered<
    Seq<SpecAst>,
>
    decreases remaining(st, i),
{
    match current(st, i) {
        SpecToken::Keyword(Keyword::Var) => match advance(st, i) {
            Err(e) => Err(e),
            Ok(()) => match var_line(st, i + 1, done) {
                Err(e) => Err(e),
                Ok((more, n)) => var_sections(st, i + 1 + n, more, true),
            },
        },
        SpecToken::Identifier(_) => if inside {
            match var_line(st, i, done) {
                Err(e) => Err(e),
                Ok((more, n)) => var_sections(st, i + n, more, true),
            }
        } else {
            Ok((done, i))
        },
        _ => Ok((done, i)),
    }
}

/// `(VAR (var_decl SEMI)+)*`
pub open spec fn variables(st: Stream, i: int) -> Parsed<Seq<SpecAst>> {
    match var_sections(st, i, Seq::empty(), false) {
        Err(e) => Err(e),
        Ok((declared, next)) => Ok((declared, (next - i) as nat)),
    }
}

/// The procedures: `(PROCEDURE ID SEMI block SEMI)*`, after the declarations `done`.
pub open spec fn procedures(st: Stream, i: int, done: Seq<SpecAst>) -> Gathered<Seq<SpecAst>>
    decreases remaining(st, i), 0int,
{
    if current(st, i) == SpecToken::Keyword(Keyword::Procedure) {
        match advance(st, i) {
            Err(e) => Err(e),
            Ok(()) => match variable(st, i + 1) {
                Err(e) => Err(e),
                Ok((name, n)) => match eat(st, i + 1 + n, SpecToken::Semi, Expected::Semi) {
                    Err(e) => Err(e),
                    Ok(()) => match block(st, i + 2 + n) {
                        Err(e) => Err(e),
                        Ok((body, m)) => match eat(
                            st,
                            i + 2 + n + m,
                            SpecToken::Semi,
                            Expected::Semi,
                        ) {
                            Err(e) => Err(e),
                            Ok(()) => procedures(
                                st,
                                i + 3 + n + m,
                                done.push(
                                    SpecAst::ProcedureDeclaration { name, block: Box::new(body) },
                                ),
                            ),
                        },
                    },
                },
            },
        }
    } else {
        Ok((done, i))
    }
}

/// `declarations : (VAR (var_decl SEMI)+)* (PROCEDURE ID SEMI block SEMI)*`
pub open spec fn declarations(st: Stream, i: int) -> Parsed<Seq<SpecAst>>
    decreases remaining(st, i), 1int,
{
    match variables(st, i) {
        Err(e) => Err(e),
        Ok((declared, n)) => match procedures(st, i + n, declared) {
            Err(e) => Err(e),
            Ok((all, end)) => Ok((all, (end - i) as nat)),
        },
    }
}

/// `block : declarations compound_statement`
pub open spec fn block(st: Stream, i: int) -> Parsed<SpecAst>
    decreases remaining(st, i), 2int,
{
    match declarations(st, i) {
        Err(e) => Err(e),
        Ok((declarations, n)) => match compound(st, i + n) {
            Err(e) => Err(e),
            Ok((body, m)) => Ok(
                (
                    SpecAst::Block { declarations, compound_statements: Box::new(body) },
                    n + m,
                ),
            ),
        },
    }
}

/// `program : PROGRAM variable SEMI block DOT`
pub open spec fn program(st: Stream, i: int) -> Parsed<SpecAst> {
    match eat(st, i, SpecToken::Keyword(Keyword::Program), Expected::Program) {
        Err(e) => Err(e),
        Ok(()) => match variable(st, i + 1) {
            Err(e) => Err(e),
            Ok((name, n)) => match eat(st, i + 1 + n, SpecToken::Semi, Expected::Semi) {
                Err(e) => Err(e),
                Ok(()) => match block(st, i + 2 + n) {
                    Err(e) => Err(e),
                    Ok((body, m)) => match eat(st, i + 2 + n + m, SpecToken::Dot, Expected::Dot) {
                        Err(e) => Err(e),
                        Ok(()) => Ok(
                            (SpecAst::Program { name, block: Box::new(body) }, n + m + 3),
                        ),
                    },
                },
            },
        },
    }
}

/// What `parse_expression` gives for a parser whose eye is on the token at
/// index `i` (index -1: no token read yet): the expression that starts at
/// the next token.
pub open spec fn parse_expression_from(st: Stream, i: int) -> Result<SpecAst, SpecParseError> {
    match advance(st, i) {
        Err(e) => Err(e),
        Ok(()) => match expr(st, i + 1) {
            Err(e) => Err(e),
            Ok((tree, _)) => Ok(tree),
        },
    }
}

/// The index of the token under the parser's eye after `parse_expression`,
/// where it succeeds: that of the first token after the expression.
pub open spec fn expression_end(st: Stream, i: int) -> int {
    match expr(st, i + 1) {
        Ok((_, n)) => i + 1 + n,
        Err(_) => i,
    }
}

/// The index of the token under the parser's eye after `parse`, where it
/// succeeds: the one after the end of the tokens.
pub open spec fn program_end(st: Stream, i: int) -> int {
    match program(st, i + 1) {
        Ok((_, n)) => i + 2 + n,
        Err(_) => i,
    }
}

/// What `parse` gives for a parser whose eye is on the token at index `i`
/// (index -1: no token read yet): the program that starts at the next token,
/// which has to end where the tokens end.
pub open spec fn parse_from(st: Stream, i: int) -> Result<SpecAst, SpecParseError> {
    match advance(st, i) {
        Err(e) => Err(e),
        Ok(()) => match program(st, i + 1) {
            Err(e) => Err(e),
            Ok((tree, n)) => match eat(st, i + 1 + n, SpecToken::Eof, Expected::Eof) {
                Err(e) => Err(e),
                Ok(()) => Ok(tree),
            },
        },
    }
}

} // verus!

verus! {

/// A stream that holds `tokens` and ends without an error.
pub open spec fn stream_of(tokens: Seq<SpecToken>) -> Stream {
    Stream { tokens, failure: None }
}

/// The tree of the integer constant `value`.
pub open spec fn constant(value: i32) -> Box<SpecAst> {
    Box::new(SpecAst::IntegerConstant(value))
}

/// Multiplication binds tighter than addition: `a + b * c` is the sum of `a`
/// and the product of `b` and `c`.
pub proof fn multiplication_binds_tighter(a: i32, b: i32, c: i32)
    ensures
        parse_expression_from(
            stream_of(
                seq![
                    SpecToken::IntegerConstant(a),
                    SpecToken::Plus,
                    SpecToken::IntegerConstant(b),
                    SpecToken::Multiply,
                    SpecToken::IntegerConstant(c),
                ],
            ),
            -1,
        ) == Ok::<SpecAst, SpecParseError>(
            SpecAst::Add(constant(a), Box::new(SpecAst::Multiply(constant(b), constant(c)))),
        ),
{
    reveal_with_fuel(factor, 3);
    reveal_with_fuel(term_rest, 3);
    reveal_with_fuel(term, 3);
    reveal_with_fuel(expr_rest, 3);
    reveal_with_fuel(expr, 3);
}

/// Parentheses override precedence: `(a + b) * c` is the product of the sum
/// and `c`.
pub proof fn parentheses_override_precedence(a: i32, b: i32, c: i32)
    ensures
        parse_expression_from(
            stream_of(
                seq![
                    SpecToken::ParenthesisStart,
                    SpecToken::IntegerConstant(a),
                    SpecToken::Plus,
                    SpecToken::IntegerConstant(b),
                    SpecToken::ParenthesisEnd,
                    SpecToken::Multiply,
                    SpecToken::IntegerConstant(c),
                ],
            ),
            -1,
        ) == Ok::<SpecAst, SpecParseError>(
            SpecAst::Multiply(Box::new(SpecAst::Add(constant(a), constant(b))), constant(c)),
        ),
{
    let st = stream_of(
        seq![
            SpecToken::ParenthesisStart,
            SpecToken::IntegerConstant(a),
            SpecToken::Plus,
            SpecToken::IntegerConstant(b),
            SpecToken::ParenthesisEnd,
            SpecToken::Multiply,
            SpecToken::IntegerConstant(c),
        ],
    );
    reveal_with_fuel(factor, 2);
    reveal_with_fuel(term_rest, 2);
    reveal_with_fuel(term, 2);
    reveal_with_fuel(expr_rest, 3);
    reveal_with_fuel(expr, 2);
    assert(factor(st, 1) == Ok::<(SpecAst, nat), SpecParseError>((*constant(a), 1)));
    assert(term(st, 1) == Ok::<(SpecAst, nat), SpecParseError>((*constant(a), 1)));
    assert(factor(st, 3) == Ok::<(SpecAst, nat), SpecParseError>((*constant(b), 1)));
    assert(term(st, 3) == Ok::<(SpecAst, nat), SpecParseError>((*constant(b), 1)));
    assert(expr(st, 1) == Ok::<(SpecAst, nat), SpecParseError>(
        (SpecAst::Add(constant(a), constant(b)), 3),
    ));
    assert(factor(st, 0) == Ok::<(SpecAst, nat), SpecParseError>(
        (SpecAst::Add(constant(a), constant(b)), 5),
    ));
    assert(factor(st, 6) == Ok::<(SpecAst, nat), SpecParseError>((*constant(c), 1)));
    assert(term(st, 0) == Ok::<(SpecAst, nat), SpecParseError>(
        (SpecAst::Multiply(Box::new(SpecAst::Add(constant(a), constant(b))), constant(c)), 7),
    ));
}

/// Operators of one rank are taken from left to right: `a - b - c` is
/// `(a - b) - c`, and `a div b div c` is `(a div b) div c`.
pub proof fn operators_associate_to_the_left(a: i32, b: i32, c: i32)
    ensures
        parse_expression_from(
            stream_of(
                seq![
                    SpecToken::IntegerConstant(a),
                    SpecToken::Minus,
                    SpecToken::IntegerConstant(b),
                    SpecToken::Minus,
                    SpecToken::IntegerConstant(c),
                ],
            ),
            -1,
        ) == Ok::<SpecAst, SpecParseError>(
            SpecAst::Subtract(Box::new(SpecAst::Subtract(constant(a), constant(b))), constant(c)),
        ),
        parse_expression_from(
            stream_of(
                seq![
                    SpecToken::IntegerConstant(a),
                    SpecToken::Keyword(Keyword::IntegerDiv),
                    SpecToken::IntegerConstant(b),
                    SpecToken::Keyword(Keyword::IntegerDiv),
                    SpecToken::IntegerConstant(c),
                ],
            ),
            -1,
        ) == Ok::<SpecAst, SpecParseError>(
            SpecAst::IntegerDivide(
                Box::new(SpecAst::IntegerDivide(constant(a), constant(b))),
                constant(c),
            ),
        ),
{
    reveal_with_fuel(factor, 3);
    reveal_with_fuel(term_rest, 4);
    reveal_with_fuel(term, 3);
    reveal_with_fuel(expr_rest, 4);
    reveal_with_fuel(expr, 3);
}

} // verus!
