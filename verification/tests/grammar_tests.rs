use spi::lexing::lexer::{LexError, Lexer};
use spi::lexing::source::TokenList;
use spi::lexing::token::{Keyword, Token};
use spi::parsing::ast::{Ast, AstError, NodeKind, TypeSpec, Variable};
use spi::parsing::grammar::Expected;
use spi::parsing::parser::{ParseError, Parser};
use spi::reals::Real;

fn float(value: f64) -> Real {
    Real::from_bits(value.to_bits())
}

fn integer(value: i32) -> Box<Ast> {
    Box::new(Ast::IntegerConstant(value))
}

fn var(name: &str) -> Ast {
    Ast::Variable(Variable {
        name: name.to_string(),
    })
}

fn expression(text: &str) -> Result<Ast, ParseError> {
    Parser::new(Lexer::new(text)).parse_expression()
}

fn program(text: &str) -> Result<Ast, ParseError> {
    Parser::new(Lexer::new(text)).parse()
}

fn unexpected(expected: Expected, found: Token) -> ParseError {
    ParseError::Unexpected { expected, found }
}

#[test]
fn multiplication_binds_tighter_than_addition() {
    assert_eq!(
        expression("1 + 3 * 5"),
        Ok(Ast::Add(
            integer(1),
            Box::new(Ast::Multiply(integer(3), integer(5)))
        ))
    );
    assert_eq!(
        expression("(1 + 3) * 5"),
        Ok(Ast::Multiply(
            Box::new(Ast::Add(integer(1), integer(3))),
            integer(5)
        ))
    );
}

#[test]
fn binary_operators_associate_to_the_left() {
    assert_eq!(
        expression("8 - 3 - 2"),
        Ok(Ast::Subtract(
            Box::new(Ast::Subtract(integer(8), integer(3))),
            integer(2)
        ))
    );
    assert_eq!(
        expression("8 / 4 div 2 * 3"),
        Ok(Ast::Multiply(
            Box::new(Ast::IntegerDivide(
                Box::new(Ast::RealDivide(integer(8), integer(4))),
                integer(2)
            )),
            integer(3)
        ))
    );
}

#[test]
fn unary_signs_chain() {
    assert_eq!(
        expression("- - + 5"),
        Ok(Ast::NegativeUnary(Box::new(Ast::NegativeUnary(Box::new(
            Ast::PositiveUnary(integer(5))
        )))))
    );
    assert_eq!(
        expression("2 - -x"),
        Ok(Ast::Subtract(
            integer(2),
            Box::new(Ast::NegativeUnary(Box::new(var("x"))))
        ))
    );
}

#[test]
fn real_constants_and_variables_are_factors() {
    assert_eq!(
        expression("2.5 * rate"),
        Ok(Ast::Multiply(
            Box::new(Ast::RealConstant(float(2.5))),
            Box::new(var("rate"))
        ))
    );
}

#[test]
fn parse_expression_stops_where_the_expression_ends() {
    assert_eq!(expression("1 + 2 ; 3"), Ok(Ast::Add(integer(1), integer(2))));
    assert_eq!(expression("4 )"), Ok(Ast::IntegerConstant(4)));
}

#[test]
fn a_missing_factor_is_an_error() {
    assert_eq!(
        expression("1 +"),
        Err(unexpected(Expected::Factor, Token::Eof))
    );
    assert_eq!(
        expression("* 2"),
        Err(unexpected(Expected::Factor, Token::Multiply))
    );
    assert_eq!(expression(""), Err(unexpected(Expected::Factor, Token::Eof)));
}

#[test]
fn a_missing_parenthesis_is_an_error() {
    assert_eq!(
        expression("(1 + 2"),
        Err(unexpected(Expected::ParenthesisEnd, Token::Eof))
    );
    assert_eq!(
        expression("(1 + 2 ;"),
        Err(unexpected(Expected::ParenthesisEnd, Token::Semi))
    );
}

#[test]
fn a_lexical_error_stops_the_parse() {
    assert_eq!(
        expression("1 + $"),
        Err(ParseError::Lexical(LexError::UnexpectedCharacter('$')))
    );
    assert_eq!(
        expression("{ open"),
        Err(ParseError::Lexical(LexError::UnterminatedComment))
    );
    assert_eq!(
        expression("1 + 99999999999"),
        Err(ParseError::Lexical(LexError::InvalidNumber))
    );
    assert_eq!(
        expression("4 $"),
        Err(ParseError::Lexical(LexError::UnexpectedCharacter('$')))
    );
}

#[test]
fn smallest_program() {
    assert_eq!(
        program("PROGRAM p; BEGIN END."),
        Ok(Ast::Program {
            name: "p".to_string(),
            block: Box::new(Ast::Block {
                declarations: vec![],
                compound_statements: Box::new(Ast::Compound {
                    statements: vec![Ast::NoOp]
                }),
            }),
        })
    );
}

#[test]
fn declarations_give_one_node_for_each_name() {
    let parsed = program("program p; var a, B : integer; c : real; var d : REAL; begin end.");
    let declaration = |name: &str, type_spec: TypeSpec| Ast::VariableDeclaration {
        variable: Box::new(var(name)),
        type_spec: Box::new(Ast::Type(type_spec)),
    };
    assert_eq!(
        parsed,
        Ok(Ast::Program {
            name: "p".to_string(),
            block: Box::new(Ast::Block {
                declarations: vec![
                    declaration("a", TypeSpec::Integer),
                    declaration("B", TypeSpec::Integer),
                    declaration("c", TypeSpec::Real),
                    declaration("d", TypeSpec::Real),
                ],
                compound_statements: Box::new(Ast::Compound {
                    statements: vec![Ast::NoOp]
                }),
            }),
        })
    );
}

#[test]
fn procedures_are_parsed_with_their_blocks() {
    let parsed = program(
        "program p; var a : integer; procedure q; var b : real; begin b := 1 end; begin a := 2 end.",
    );
    assert_eq!(
        parsed,
        Ok(Ast::Program {
            name: "p".to_string(),
            block: Box::new(Ast::Block {
                declarations: vec![
                    Ast::VariableDeclaration {
                        variable: Box::new(var("a")),
                        type_spec: Box::new(Ast::Type(TypeSpec::Integer)),
                    },
                    Ast::ProcedureDeclaration {
                        name: "q".to_string(),
                        block: Box::new(Ast::Block {
                            declarations: vec![Ast::VariableDeclaration {
                                variable: Box::new(var("b")),
                                type_spec: Box::new(Ast::Type(TypeSpec::Real)),
                            }],
                            compound_statements: Box::new(Ast::Compound {
                                statements: vec![Ast::Assign(
                                    Variable {
                                        name: "b".to_string()
                                    },
                                    integer(1)
                                )]
                            }),
                        }),
                    },
                ],
                compound_statements: Box::new(Ast::Compound {
                    statements: vec![Ast::Assign(
                        Variable {
                            name: "a".to_string()
                        },
                        integer(2)
                    )]
                }),
            }),
        })
    );
}

#[test]
fn a_var_section_needs_a_declaration() {
    assert_eq!(
        program("program p; var begin end."),
        Err(unexpected(
            Expected::Variable,
            Token::Keyword(Keyword::Begin)
        ))
    );
}

#[test]
fn tokens_after_the_program_are_an_error() {
    assert_eq!(
        program("program p; begin end. x"),
        Err(unexpected(
            Expected::Eof,
            Token::Identifier("x".to_string())
        ))
    );
}

#[test]
fn each_production_names_what_it_expected() {
    assert_eq!(
        program("begin end."),
        Err(unexpected(
            Expected::Program,
            Token::Keyword(Keyword::Begin)
        ))
    );
    assert_eq!(
        program("program 1"),
        Err(unexpected(Expected::Variable, Token::IntegerConstant(1)))
    );
    assert_eq!(
        program("program p begin end."),
        Err(unexpected(
            Expected::Semi,
            Token::Keyword(Keyword::Begin)
        ))
    );
    assert_eq!(
        program("program p; end."),
        Err(unexpected(Expected::Begin, Token::Keyword(Keyword::End)))
    );
    assert_eq!(
        program("program p; begin x := 1"),
        Err(unexpected(Expected::End, Token::Eof))
    );
    assert_eq!(
        program("program p; begin end"),
        Err(unexpected(Expected::Dot, Token::Eof))
    );
    assert_eq!(
        program("program p; begin x 1 end."),
        Err(unexpected(Expected::Assign, Token::IntegerConstant(1)))
    );
    assert_eq!(
        program("program p; var x integer; begin end."),
        Err(unexpected(
            Expected::Colon,
            Token::Keyword(Keyword::Integer)
        ))
    );
    assert_eq!(
        program("program p; var x : number; begin end."),
        Err(unexpected(
            Expected::TypeSpec,
            Token::Identifier("number".to_string())
        ))
    );
    assert_eq!(
        program("program p; var x, : integer; begin end."),
        Err(unexpected(Expected::Variable, Token::Colon))
    );
}

#[test]
fn a_list_of_tokens_ends_in_end_of_stream() {
    let mut parser = Parser::new(TokenList::new(vec![
        Token::IntegerConstant(1),
        Token::Plus,
    ]));
    assert_eq!(
        parser.parse_expression(),
        Err(unexpected(Expected::Factor, Token::Eof))
    );
}

#[test]
fn a_parser_goes_on_from_the_token_under_its_eye() {
    let mut parser = Parser::new(Lexer::new("1 + 2 ; 3 * 4"));
    assert_eq!(parser.parse_expression(), Ok(Ast::Add(integer(1), integer(2))));
    assert_eq!(parser.parse_expression(), Ok(Ast::Multiply(integer(3), integer(4))));
}

#[test]
fn node_accessors() {
    let x = var("x");
    assert_eq!(
        x.variable(),
        Ok(&Variable {
            name: "x".to_string()
        })
    );
    assert_eq!(x.type_spec(), Err(AstError::ExpectedTypeSpec));
    let t = TypeSpec::Real.to_ast_clone();
    assert_eq!(t, Ast::Type(TypeSpec::Real));
    assert_eq!(t.type_spec(), Ok(&TypeSpec::Real));
    assert_eq!(t.variable(), Err(AstError::ExpectedVariable));
    assert_eq!(TypeSpec::Integer.name(), "Integer");
    assert_eq!(TypeSpec::Real.name(), "Real");
    assert_eq!(x.kind(), NodeKind::Variable);
    assert_eq!(Ast::NoOp.kind(), NodeKind::NoOp);
    assert_eq!(Ast::Add(integer(1), integer(2)).kind(), NodeKind::Add);
}
