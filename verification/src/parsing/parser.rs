//! The recursive-descent parser, with one token of lookahead.

use crate::lexing::lexer::LexError;
use crate::lexing::source::{token_at, TokenSource};
use crate::lexing::token::{Keyword, SpecToken, Token};
use crate::parsing::ast::{
    ast_view, ast_views, lemma_ast_views, lemma_ast_views_push, Ast, SpecAst, TypeSpec, Variable,
};
use crate::parsing::grammar;
use crate::parsing::grammar::{Expected, Gathered, Parsed, SpecParseError, Stream};
use vstd::prelude::*;

verus! {

/// Why a stream of tokens is no sentence of the grammar.
#[derive(Clone, Debug, PartialEq)]
pub enum ParseError {
    /// The grammar asked for `expected` where the token `found` stands.
    Unexpected { expected: Expected, found: Token },
    /// The source of tokens failed.
    Lexical(LexError),
}

impl View for ParseError {
    type V = SpecParseError;

    open spec fn view(&self) -> SpecParseError {
        match self {
            ParseError::Unexpected { expected, found } => SpecParseError::Unexpected {
                expected: *expected,
                found: found@,
            },
            ParseError::Lexical(e) => SpecParseError::Lexical(*e),
        }
    }
}

/// The mathematical value of what the parser returns.
pub open spec fn parse_view(r: Result<Ast, ParseError>) -> Result<SpecAst, SpecParseError> {
    match r {
        Ok(tree) => Ok(tree@),
        Err(e) => Err(e@),
    }
}

/// The tokens of `tokens` after index `i`.
pub open spec fn rest_after(tokens: Seq<SpecToken>, i: int) -> Seq<SpecToken> {
    if -1 <= i < tokens.len() {
        tokens.skip(i + 1)
    } else {
        Seq::empty()
    }
}

/// Whether a step of the parser did what the grammar says: `result`, taken
/// by `value`, and the move from index `from` to index `to` are what
/// `expected` gives.
pub open spec fn follows<T, V>(
    expected: Parsed<V>,
    result: Result<T, ParseError>,
    value: spec_fn(T) -> V,
    from: int,
    to: int,
) -> bool {
    match expected {
        Ok((v, n)) => result matches Ok(t) && value(t) == v && to == from + n,
        Err(e) => result matches Err(x) && x@ == e,
    }
}

/// A `Gathered` result counted from index `from`.
pub open spec fn counted<V>(gathered: Gathered<V>, from: int) -> Parsed<V> {
    match gathered {
        Ok((v, next)) => Ok((v, (next - from) as nat)),
        Err(e) => Err(e),
    }
}

/// The parser: the token under its eye, and the source of those after it.
pub struct Parser<S: TokenSource> {
    current_token: Token,
    tokens: S,
    stream: Ghost<Stream>,
    index: Ghost<int>,
}

impl<S: TokenSource> Parser<S> {
    /// What the source held when the parser was made.
    pub closed spec fn stream(&self) -> Stream {
        self.stream@
    }

    /// The index in the stream of the token under the parser's eye; -1 as
    /// long as none was read.
    pub closed spec fn index(&self) -> int {
        self.index@
    }

    /// The source is where the index says, and the token under the eye is
    /// the one at the index.
    pub closed spec fn wf(&self) -> bool {
        &&& self.tokens.wf()
        &&& self.tokens.failure() == self.stream@.failure
        &&& self.index@ >= -1
        &&& self.tokens.pending() == rest_after(self.stream@.tokens, self.index@)
        &&& if self.index@ == -1 {
            self.current_token@ == SpecToken::Eof
        } else {
            token_at(self.stream@.tokens, self.stream@.failure, self.index@) == Ok::<
                SpecToken,
                LexError,
            >(self.current_token@)
        }
    }

    /// A parser that has read nothing yet from `tokens`.
    pub fn new(tokens: S) -> (parser: Parser<S>)
        requires
            tokens.wf(),
        ensures
            parser.wf(),
            parser.stream() == (Stream { tokens: tokens.pending(), failure: tokens.failure() }),
            parser.index() == -1,
    {
        let ghost stream = Stream { tokens: tokens.pending(), failure: tokens.failure() };
        assert(stream.tokens.skip(0) =~= stream.tokens);
        Parser { current_token: Token::Eof, tokens, stream: Ghost(stream), index: Ghost(-1) }
    }

    /// Reads the next token from the source.
    fn advance(&mut self) -> (r: Result<(), ParseError>)
        requires
            old(self).wf(),
        ensures
            final(self).wf(),
            final(self).stream@ == old(self).stream@,
            final(self).index@ >= old(self).index@,
            match grammar::advance(old(self).stream@, old(self).index@) {
                Ok(()) => r is Ok && final(self).index@ == old(self).index@ + 1,
                Err(e) => r matches Err(x) && x@ == e,
            },
    {
        let ghost pending = self.tokens.pending();
        match self.tokens.next_token() {
            Ok(token) => {
                self.current_token = token;
                self.index = Ghost(self.index@ + 1);
                proof {
                    let tokens = self.stream@.tokens;
                    if pending.len() > 0 {
                        assert(pending.drop_first() =~= rest_after(tokens, self.index@));
                    } else {
                        assert(self.tokens.pending() =~= rest_after(tokens, self.index@));
                    }
                }
                Ok(())
            },
            Err(e) => {
                proof {
                    assert(self.tokens.pending() =~= pending);
                }
                Err(ParseError::Lexical(e))
            },
        }
    }

    /// Moves past the token under the eye if it is `token`; fails if it is another.
    fn eat(&mut self, token: Token, expected: Expected) -> (r: Result<(), ParseError>)
        requires
            old(self).wf(),
        ensures
            final(self).wf(),
            final(self).stream@ == old(self).stream@,
            final(self).index@ >= old(self).index@,
            match grammar::eat(old(self).stream@, old(self).index@, token@, expected) {
                Ok(()) => r is Ok && final(self).index@ == old(self).index@ + 1,
                Err(e) => r matches Err(x) && x@ == e,
            },
    {
        if self.current_token.same(&token) {
            self.advance()
        } else {
            Err(ParseError::Unexpected { expected, found: self.current_token.duplicate() })
        }
    }

    /// `factor : (PLUS | MINUS) factor | INTEGER_CONST | REAL_CONST | LPAREN expr RPAREN
    /// | variable`
    fn factor(&mut self) -> (r: Result<Ast, ParseError>)
        requires
            old(self).wf(),
        ensures
            final(self).wf(),
            final(self).stream@ == old(self).stream@,
            final(self).index@ >= old(self).index@,
            follows(
                grammar::factor(old(self).stream@, old(self).index@),
                r,
                |t: Ast| t@,
                old(self).index@,
                final(self).index@,
            ),
        decreases grammar::remaining(old(self).stream@, old(self).index@), 0int,
    {
        match self.current_token {
            Token::Plus => {
                self.advance()?;
                let inner = self.factor()?;
                Ok(Ast::PositiveUnary(Box::new(inner)))
            },
            Token::Minus => {
                self.advance()?;
                let inner = self.factor()?;
                Ok(Ast::NegativeUnary(Box::new(inner)))
            },
            Token::IntegerConstant(value) => {
                self.advance()?;
                Ok(Ast::IntegerConstant(value))
            },
            Token::RealConstant(value) => {
                self.advance()?;
                Ok(Ast::RealConstant(value))
            },
            Token::ParenthesisStart => {
                self.advance()?;
                let nested = self.expr()?;
                self.eat(Token::ParenthesisEnd, Expected::ParenthesisEnd)?;
                Ok(nested)
            },
            Token::Identifier(_) => self.variable(),
            _ => Err(
                ParseError::Unexpected {
                    expected: Expected::Factor,
                    found: self.current_token.duplicate(),
                },
            ),
        }
    }

    /// `term : factor ((MUL | DIV | REAL_DIV) factor)*`
    fn term(&mut self) -> (r: Result<Ast, ParseError>)
        requires
            old(self).wf(),
        ensures
            final(self).wf(),
            final(self).stream@ == old(self).stream@,
            final(self).index@ >= old(self).index@,
            follows(
                grammar::term(old(self).stream@, old(self).index@),
                r,
                |t: Ast| t@,
                old(self).index@,
                final(self).index@,
            ),
        decreases grammar::remaining(old(self).stream@, old(self).index@), 2int,
    {
        let ghost st = self.stream@;
        let ghost start = self.index@;
        let mut result = self.factor()?;
        loop
            invariant
                self.wf(),
                self.stream@ == st,
                st == old(self).stream@,
                start == old(self).index@,
                self.index@ >= start,
                grammar::term(st, start) == counted(
                    grammar::term_rest(st, self.index@, result@),
                    start,
                ),
            ensures
                self.wf(),
                self.stream@ == st,
                self.index@ >= start,
                grammar::term(st, start) == Ok::<(SpecAst, nat), SpecParseError>(
                    (result@, (self.index@ - start) as nat),
                ),
            decreases grammar::remaining(st, self.index@),
        {
            match self.current_token {
                Token::Multiply => {
                    self.advance()?;
                    let right = self.factor()?;
                    result = Ast::Multiply(Box::new(result), Box::new(right));
                },
                Token::Keyword(Keyword::IntegerDiv) => {
                    self.advance()?;
                    let right = self.factor()?;
                    result = Ast::IntegerDivide(Box::new(result), Box::new(right));
                },
                Token::RealDivision => {
                    self.advance()?;
                    let right = self.factor()?;
                    result = Ast::RealDivide(Box::new(result), Box::new(right));
                },
                _ => {
                    break ;
                },
            }
        }
        Ok(result)
    }

    /// `expr : term ((PLUS | MINUS) term)*`
    fn expr(&mut self) -> (r: Result<Ast, ParseError>)
        requires
            old(self).wf(),
        ensures
            final(self).wf(),
            final(self).stream@ == old(self).stream@,
            final(self).index@ >= old(self).index@,
            follows(
                grammar::expr(old(self).stream@, old(self).index@),
                r,
                |t: Ast| t@,
                old(self).index@,
                final(self).index@,
            ),
        decreases grammar::remaining(old(self).stream@, old(self).index@), 4int,
    {
        let ghost st = self.stream@;
        let ghost start = self.index@;
        let mut result = self.term()?;
        loop
            invariant
                self.wf(),
                self.stream@ == st,
                st == old(self).stream@,
                start == old(self).index@,
                self.index@ >= start,
                grammar::expr(st, start) == counted(
                    grammar::expr_rest(st, self.index@, result@),
                    start,
                ),
            ensures
                self.wf(),
                self.stream@ == st,
                self.index@ >= start,
                grammar::expr(st, start) == Ok::<(SpecAst, nat), SpecParseError>(
                    (result@, (self.index@ - start) as nat),
                ),
            decreases grammar::remaining(st, self.index@),
        {
            match self.current_token {
                Token::Plus => {
                    self.advance()?;
                    let right = self.term()?;
                    result = Ast::Add(Box::new(result), Box::new(right));
                },
                Token::Minus => {
                    self.advance()?;
                    let right = self.term()?;
                    result = Ast::Subtract(Box::new(result), Box::new(right));
                },
                _ => {
                    break ;
                },
            }
        }
        Ok(result)
    }

    /// The empty statement.
    fn empty(&mut self) -> (r: Result<Ast, ParseError>)
        ensures
            *final(self) == *old(self),
            r matches Ok(t) && t@ == SpecAst::NoOp,
    {
        Ok(Ast::NoOp)
    }

    /// The name under the eye, which the parser moves past.
    fn name(&mut self) -> (r: Result<String, ParseError>)
        requires
            old(self).wf(),
        ensures
            final(self).wf(),
            final(self).stream@ == old(self).stream@,
            final(self).index@ >= old(self).index@,
            follows(
                grammar::variable(old(self).stream@, old(self).index@),
                r,
                |t: String| t@,
                old(self).index@,
                final(self).index@,
            ),
    {
        match &self.current_token {
            Token::Identifier(variable_name) => {
                let name = variable_name.clone();
                self.advance()?;
                Ok(name)
            },
            _ => Err(
                ParseError::Unexpected {
                    expected: Expected::Variable,
                    found: self.current_token.duplicate(),
                },
            ),
        }
    }

    /// `variable : ID`
    fn variable(&mut self) -> (r: Result<Ast, ParseError>)
        requires
            old(self).wf(),
        ensures
            final(self).wf(),
            final(self).stream@ == old(self).stream@,
            final(self).index@ >= old(self).index@,
            match grammar::variable(old(self).stream@, old(self).index@) {
                Ok((name, n)) => r matches Ok(t) && t@ == SpecAst::Variable(name)
                    && final(self).index@ == old(self).index@ + n,
                Err(e) => r matches Err(x) && x@ == e,
            },
    {
        let name = self.name()?;
        Ok(Ast::Variable(Variable { name }))
    }

    /// `assignment : variable ASSIGN expr`
    fn assignment_statement(&mut self) -> (r: Result<Ast, ParseError>)
        requires
            old(self).wf(),
        ensures
            final(self).wf(),
            final(self).stream@ == old(self).stream@,
            final(self).index@ >= old(self).index@,
            follows(
                grammar::assignment(old(self).stream@, old(self).index@),
                r,
                |t: Ast| t@,
                old(self).index@,
                final(self).index@,
            ),
    {
        let name = self.name()?;
        self.eat(Token::Assign, Expected::Assign)?;
        let value = self.expr()?;
        Ok(Ast::Assign(Variable { name }, Box::new(value)))
    }

    /// `statement : compound | assignment | empty`
    fn statement(&mut self) -> (r: Result<Ast, ParseError>)
        requires
            old(self).wf(),
        ensures
            final(self).wf(),
            final(self).stream@ == old(self).stream@,
            final(self).index@ >= old(self).index@,
            follows(
                grammar::statement(old(self).stream@, old(self).index@),
                r,
                |t: Ast| t@,
                old(self).index@,
                final(self).index@,
            ),
        decreases grammar::remaining(old(self).stream@, old(self).index@), 2int,
    {
        match &self.current_token {
            Token::Keyword(Keyword::Begin) => self.compound_statement(),
            Token::Identifier(_) => self.assignment_statement(),
            _ => self.empty(),
        }
    }

    /// `statement_list : statement (SEMI statement)*`
    fn statement_list(&mut self) -> (r: Result<Vec<Ast>, ParseError>)
        requires
            old(self).wf(),
        ensures
            final(self).wf(),
            final(self).stream@ == old(self).stream@,
            final(self).index@ >= old(self).index@,
            follows(
                grammar::statement_list(old(self).stream@, old(self).index@),
                r,
                |t: Vec<Ast>| ast_views(t@),
                old(self).index@,
                final(self).index@,
            ),
        decreases grammar::remaining(old(self).stream@, old(self).index@), 3int,
    {
        let ghost st = self.stream@;
        let ghost start = self.index@;
        let first = self.statement()?;
        let mut statements: Vec<Ast> = Vec::new();
        proof {
            lemma_ast_views_push(statements@, first);
            assert(ast_views(statements@) =~= Seq::<SpecAst>::empty());
        }
        statements.push(first);
        while self.current_token.same(&Token::Semi)
            invariant
                self.wf(),
                self.stream@ == st,
                st == old(self).stream@,
                start == old(self).index@,
                self.index@ >= start,
                grammar::statement_list(st, start) == counted(
                    grammar::statement_list_rest(st, self.index@, ast_views(statements@)),
                    start,
                ),
            decreases grammar::remaining(st, self.index@),
        {
            self.advance()?;
            let next = self.statement()?;
            proof {
                lemma_ast_views_push(statements@, next);
            }
            statements.push(next);
        }
        Ok(statements)
    }

    /// `compound : BEGIN statement_list END`
    fn compound_statement(&mut self) -> (r: Result<Ast, ParseError>)
        requires
            old(self).wf(),
        ensures
            final(self).wf(),
            final(self).stream@ == old(self).stream@,
            final(self).index@ >= old(self).index@,
            follows(
                grammar::compound(old(self).stream@, old(self).index@),
                r,
                |t: Ast| t@,
                old(self).index@,
                final(self).index@,
            ),
        decreases grammar::remaining(old(self).stream@, old(self).index@), 1int,
    {
        self.eat(Token::Keyword(Keyword::Begin), Expected::Begin)?;
        let statements = self.statement_list()?;
        self.eat(Token::Keyword(Keyword::End), Expected::End)?;
        Ok(Ast::Compound { statements })
    }

    /// `type_spec : INTEGER | REAL`
    fn type_spec(&mut self) -> (r: Result<TypeSpec, ParseError>)
        requires
            old(self).wf(),
        ensures
            final(self).wf(),
            final(self).stream@ == old(self).stream@,
            final(self).index@ >= old(self).index@,
            follows(
                grammar::type_spec(old(self).stream@, old(self).index@),
                r,
                |t: TypeSpec| t,
                old(self).index@,
                final(self).index@,
            ),
    {
        let output = match &self.current_token {
            Token::Keyword(Keyword::Integer) => TypeSpec::Integer,
            Token::Keyword(Keyword::Real) => TypeSpec::Real,
            _ => {
                return Err(
                    ParseError::Unexpected {
                        expected: Expected::TypeSpec,
                        found: self.current_token.duplicate(),
                    },
                );
            },
        };
        self.advance()?;
        Ok(output)
    }

    /// `var_decl : ID (COMMA ID)* COLON type_spec`
    fn variable_declaration(&mut self) -> (r: Result<Vec<Ast>, ParseError>)
        requires
            old(self).wf(),
        ensures
            final(self).wf(),
            final(self).stream@ == old(self).stream@,
            final(self).index@ >= old(self).index@,
            follows(
                grammar::variable_declaration(old(self).stream@, old(self).index@),
                r,
                |t: Vec<Ast>| ast_views(t@),
                old(self).index@,
                final(self).index@,
            ),
    {
        let ghost st = self.stream@;
        let ghost start = self.index@;
        let first = self.name()?;
        let ghost first_name = first@;
        let mut variable_names: Vec<String> = Vec::new();
        variable_names.push(first);
        assert(variable_names@.map_values(|s: String| s@) =~= seq![first_name]);
        while self.current_token.same(&Token::Comma)
            invariant
                self.wf(),
                self.stream@ == st,
                st == old(self).stream@,
                start == old(self).index@,
                self.index@ >= start + 1,
                grammar::variable(st, start) == Ok::<(Seq<char>, nat), SpecParseError>(
                    (first_name, 1),
                ),
                grammar::names_rest(st, start + 1, seq![first_name]) == grammar::names_rest(
                    st,
                    self.index@,
                    variable_names@.map_values(|s: String| s@),
                ),
            decreases grammar::remaining(st, self.index@),
        {
            self.advance()?;
            let ghost before = variable_names@.map_values(|s: String| s@);
            let name = self.name()?;
            variable_names.push(name);
            assert(variable_names@.map_values(|s: String| s@) =~= before.push(name@));
        }
        self.eat(Token::Colon, Expected::Colon)?;
        let type_spec = self.type_spec()?;
        let ghost names = variable_names@.map_values(|s: String| s@);
        let mut output: Vec<Ast> = Vec::new();
        let mut i: usize = 0;
        while i < variable_names.len()
            invariant
                i <= variable_names.len(),
                names == variable_names@.map_values(|s: String| s@),
                ast_views(output@) =~= Seq::new(
                    i as nat,
                    |k: int| grammar::declaration_of(names[k], type_spec),
                ),
            decreases variable_names.len() - i,
        {
            let node = Ast::VariableDeclaration {
                variable: Box::new(Ast::Variable(Variable { name: variable_names[i].clone() })),
                type_spec: Box::new(Ast::Type(type_spec)),
            };
            proof {
                reveal_with_fuel(ast_view, 3);
                lemma_ast_views_push(output@, node);
                assert(node@ == grammar::declaration_of(names[i as int], type_spec));
            }
            output.push(node);
            i += 1;
        }
        Ok(output)
    }

    /// One line of a `VAR` section, `var_decl SEMI`, added to `declarations`.
    fn var_line(&mut self, declarations: &mut Vec<Ast>) -> (r: Result<(), ParseError>)
        requires
            old(self).wf(),
        ensures
            final(self).wf(),
            final(self).stream@ == old(self).stream@,
            final(self).index@ >= old(self).index@,
            match grammar::var_line(
                old(self).stream@,
                old(self).index@,
                ast_views(old(declarations)@),
            ) {
                Ok((all, n)) => r is Ok && ast_views(final(declarations)@) == all
                    && final(self).index@ == old(self).index@ + n,
                Err(e) => r matches Err(x) && x@ == e,
            },
    {
        let mut line = self.variable_declaration()?;
        proof {
            lemma_ast_views_add(declarations@, line@);
        }
        declarations.append(&mut line);
        self.eat(Token::Semi, Expected::Semi)
    }

    /// `declarations : (VAR (var_decl SEMI)+)* (PROCEDURE ID SEMI block SEMI)*`
    fn declarations(&mut self) -> (r: Result<Vec<Ast>, ParseError>)
        requires
            old(self).wf(),
        ensures
            final(self).wf(),
            final(self).stream@ == old(self).stream@,
            final(self).index@ >= old(self).index@,
            follows(
                grammar::declarations(old(self).stream@, old(self).index@),
                r,
                |t: Vec<Ast>| ast_views(t@),
                old(self).index@,
                final(self).index@,
            ),
        decreases grammar::remaining(old(self).stream@, old(self).index@), 1int,
    {
        let ghost st = self.stream@;
        let ghost start = self.index@;
        let mut declarations: Vec<Ast> = Vec::new();
        assert(ast_views(declarations@) =~= Seq::<SpecAst>::empty());
        while self.current_token.same(&Token::Keyword(Keyword::Var))
            invariant
                self.wf(),
                self.stream@ == st,
                st == old(self).stream@,
                start == old(self).index@,
                self.index@ >= start,
                grammar::var_sections(st, start, Seq::empty(), false) == grammar::var_sections(
                    st,
                    self.index@,
                    ast_views(declarations@),
                    false,
                ) || (grammar::var_sections(st, start, Seq::empty(), false)
                    == grammar::var_sections(st, self.index@, ast_views(declarations@), true)
                    && !(grammar::current(st, self.index@) is Identifier)),
            decreases grammar::remaining(st, self.index@),
        {
            let ghost section = self.index@;
            self.advance()?;
            self.var_line(&mut declarations)?;
            while self.at_identifier()
                invariant
                    self.wf(),
                    self.index@ > section,
                    grammar::remaining(st, section) > 0,
                    self.stream@ == st,
                st == old(self).stream@,
                    start == old(self).index@,
                    self.index@ >= start,
                    grammar::var_sections(st, start, Seq::empty(), false) == grammar::var_sections(
                        st,
                        self.index@,
                        ast_views(declarations@),
                        true,
                    ),
                decreases grammar::remaining(st, self.index@),
            {
                self.var_line(&mut declarations)?;
            }
        }
        let ghost middle = self.index@;
        let ghost declared = ast_views(declarations@);
        while self.current_token.same(&Token::Keyword(Keyword::Procedure))
            invariant
                self.wf(),
                self.stream@ == st,
                st == old(self).stream@,
                start == old(self).index@,
                self.index@ >= middle >= start,
                grammar::variables(st, start) == Ok::<(Seq<SpecAst>, nat), SpecParseError>(
                    (declared, (middle - start) as nat),
                ),
                grammar::procedures(st, middle, declared) == grammar::procedures(
                    st,
                    self.index@,
                    ast_views(declarations@),
                ),
            decreases grammar::remaining(st, self.index@),
        {
            self.advance()?;
            let procedure_name = self.name()?;
            self.eat(Token::Semi, Expected::Semi)?;
            let block_node = self.block()?;
            let node = Ast::ProcedureDeclaration {
                name: procedure_name,
                block: Box::new(block_node),
            };
            proof {
                lemma_ast_views_push(declarations@, node);
            }
            declarations.push(node);
            self.eat(Token::Semi, Expected::Semi)?;
        }
        Ok(declarations)
    }

    /// Whether the token under the eye is a name.
    fn at_identifier(&self) -> (b: bool)
        ensures
            b == (self.current_token@ is Identifier),
    {
        match &self.current_token {
            Token::Identifier(_) => true,
            _ => false,
        }
    }

    /// `block : declarations compound_statement`
    fn block(&mut self) -> (r: Result<Ast, ParseError>)
        requires
            old(self).wf(),
        ensures
            final(self).wf(),
            final(self).stream@ == old(self).stream@,
            final(self).index@ >= old(self).index@,
            follows(
                grammar::block(old(self).stream@, old(self).index@),
                r,
                |t: Ast| t@,
                old(self).index@,
                final(self).index@,
            ),
        decreases grammar::remaining(old(self).stream@, old(self).index@), 2int,
    {
        let declarations = self.declarations()?;
        let compound_statements = self.compound_statement()?;
        Ok(Ast::Block { declarations, compound_statements: Box::new(compound_statements) })
    }

    /// `program : PROGRAM variable SEMI block DOT`
    fn program(&mut self) -> (r: Result<Ast, ParseError>)
        requires
            old(self).wf(),
        ensures
            final(self).wf(),
            final(self).stream@ == old(self).stream@,
            final(self).index@ >= old(self).index@,
            follows(
                grammar::program(old(self).stream@, old(self).index@),
                r,
                |t: Ast| t@,
                old(self).index@,
                final(self).index@,
            ),
    {
        self.eat(Token::Keyword(Keyword::Program), Expected::Program)?;
        let program_name = self.name()?;
        self.eat(Token::Semi, Expected::Semi)?;
        let block = self.block()?;
        self.eat(Token::Dot, Expected::Dot)?;
        Ok(Ast::Program { name: program_name, block: Box::new(block) })
    }

    /// Reads the next token and parses the expression that starts with it.
    /// Tokens after the expression stay unread, but for the one under the
    /// parser's eye.
    pub fn parse_expression(&mut self) -> (r: Result<Ast, ParseError>)
        requires
            old(self).wf(),
        ensures
            final(self).wf(),
            final(self).stream() == old(self).stream(),
            parse_view(r) == grammar::parse_expression_from(old(self).stream(), old(self).index()),
            r is Ok ==> final(self).index() == grammar::expression_end(
                old(self).stream(),
                old(self).index(),
            ),
    {
        self.advance()?;
        self.expr()
    }

    /// Reads the next token and parses the program that starts with it. The
    /// program has to be all there is: after it the tokens must have ended.
    pub fn parse(&mut self) -> (r: Result<Ast, ParseError>)
        requires
            old(self).wf(),
        ensures
            final(self).wf(),
            final(self).stream() == old(self).stream(),
            parse_view(r) == grammar::parse_from(old(self).stream(), old(self).index()),
            r is Ok ==> final(self).index() == grammar::program_end(
                old(self).stream(),
                old(self).index(),
            ),
    {
        self.advance()?;
        let output = self.program()?;
        self.eat(Token::Eof, Expected::Eof)?;
        Ok(output)
    }
}

/// The values of two lists of trees, one after the other.
pub proof fn lemma_ast_views_add(a: Seq<Ast>, b: Seq<Ast>)
    ensures
        ast_views(a + b) == ast_views(a) + ast_views(b),
{
    lemma_ast_views(a);
    lemma_ast_views(b);
    lemma_ast_views(a + b);
    assert(ast_views(a + b) =~= ast_views(a) + ast_views(b));
}

} // verus!
