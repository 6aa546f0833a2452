use spi::lexing::lexer::Lexer;
use spi::lexing::source::TokenList;
use spi::lexing::token::Token;
use spi::parsing::ast::{Ast, TypeSpec, Variable};
use spi::parsing::parser::Parser;
use spi::reals::Real;

fn float(value: f64) -> Real {
    Real::from_bits(value.to_bits())
}

#[test]
fn tests_test_simple() {
    assert_eq!(
        Parser::new(TokenList::new(vec![Token::IntegerConstant(4), Token::Eof]))
            .parse_expression().unwrap(),
        Ast::IntegerConstant(4),
    );
}

#[test]
fn tests_test_one_operation() {
    assert_eq!(
        Parser::new(TokenList::new(vec![
                Token::IntegerConstant(4),
                Token::Plus,
                Token::IntegerConstant(6),
                Token::Eof,
            ]))
        .parse_expression().unwrap(),
        Ast::Add(
            Box::from(Ast::IntegerConstant(4)),
            Box::from(Ast::IntegerConstant(6)),
        ),
    );
}

#[test]
fn tests_test_multiple_operations() {
    assert_eq!(
        Parser::new(TokenList::new(vec![
                Token::IntegerConstant(1),
                Token::Plus,
                Token::IntegerConstant(2),
                Token::Plus,
                Token::IntegerConstant(3),
                Token::Plus,
                Token::IntegerConstant(4),
                Token::Eof,
            ]))
        .parse_expression().unwrap(),
        Ast::Add(
            Box::from(Ast::Add(
                Box::from(Ast::Add(
                    Box::from(Ast::IntegerConstant(1)),
                    Box::from(Ast::IntegerConstant(2)),
                )),
                Box::from(Ast::IntegerConstant(3)),
            )),
            Box::from(Ast::IntegerConstant(4)),
        ),
    );
}

#[test]
fn tests_test_overriding_precedence() {
    assert_eq!(
        Parser::new(TokenList::new(vec![
                Token::IntegerConstant(1),
                Token::Multiply,
                Token::ParenthesisStart,
                Token::IntegerConstant(2),
                Token::Plus,
                Token::IntegerConstant(3),
                Token::Multiply,
                Token::IntegerConstant(4),
                Token::ParenthesisEnd,
                Token::Eof,
            ]))
        .parse_expression().unwrap(),
        Ast::Multiply(
            Box::from(Ast::IntegerConstant(1)),
            Box::from(Ast::Add(
                Box::from(Ast::IntegerConstant(2)),
                Box::from(Ast::Multiply(
                    Box::from(Ast::IntegerConstant(3)),
                    Box::from(Ast::IntegerConstant(4)),
                )),
            )),
        ),
    );
}

#[test]
fn tests_test_program() {
    let code = r#"PROGRAM test; BEGIN
            BEGIN
                number := 2;
                a := number;
                b := 10 * a + 10 * number div 4;
                c := a - - b
            END;
            x := 11;
        END."#;
    let result = Parser::new(Lexer::new(code)).parse().unwrap();

    assert_eq!(
        result,
        Ast::Program {
            name: "test".to_string(),
            block: Box::from(Ast::Block {
                declarations: vec![],
                compound_statements: Box::from(Ast::Compound {
                    statements: vec![
                        Ast::Compound {
                            statements: vec![
                                Ast::Assign(
                                    Variable {
                                        name: "number".to_string()
                                    },
                                    Box::from(Ast::IntegerConstant(2)),
                                ),
                                Ast::Assign(
                                    Variable {
                                        name: "a".to_string()
                                    },
                                    Box::from(Ast::Variable(Variable {
                                        name: "number".to_string()
                                    })),
                                ),
                                Ast::Assign(
                                    Variable {
                                        name: "b".to_string()
                                    },
                                    Box::from(Ast::Add(
                                        Box::from(Ast::Multiply(
                                            Box::from(Ast::IntegerConstant(10)),
                                            Box::from(Ast::Variable(Variable {
                                                name: "a".to_string()
                                            })),
                                        )),
                                        Box::from(Ast::IntegerDivide(
                                            Box::from(Ast::Multiply(
                                                Box::from(Ast::IntegerConstant(10)),
                                                Box::from(Ast::Variable(Variable {
                                                    name: "number".to_string()
                                                })),
                                            )),
                                            Box::from(Ast::IntegerConstant(4)),
                                        )),
                                    )),
                                ),
                                Ast::Assign(
                                    Variable {
                                        name: "c".to_string()
                                    },
                                    Box::from(Ast::Subtract(
                                        Box::from(Ast::Variable(Variable {
                                            name: "a".to_string()
                                        })),
                                        Box::from(Ast::NegativeUnary(Box::from(Ast::Variable(
                                            Variable {
                                                name: "b".to_string()
                                            }
                                        )))),
                                    )),
                                ),
                            ]
                        },
                        Ast::Assign(
                            Variable {
                                name: "x".to_string()
                            },
                            Box::from(Ast::IntegerConstant(11)),
                        ),
                        Ast::NoOp,
                    ]
                }),
            }),
        },
    );
}

#[test]
fn tests_test_program2() {
    let code = r#"
            PROGRAM Part10AST;
        VAR
           a, b : INTEGER;
           y    : REAL;

        BEGIN {Part10AST}
           a := 2;
           b := 10 * a + 10 * a DIV 4;
           y := 20 / 7 + 3.14;
        END.  {Part10AST}
    "#;
    let result = Parser::new(Lexer::new(code)).parse().unwrap();
    assert_eq!(
        Ast::Program {
            name: "Part10AST".to_string(),
            block: Box::from(Ast::Block {
                declarations: vec![
                    Ast::VariableDeclaration {
                        variable: Box::from(Ast::Variable(Variable {
                            name: "a".to_string()
                        })),
                        type_spec: Box::from(Ast::Type(TypeSpec::Integer))
                    },
                    Ast::VariableDeclaration {
                        variable: Box::from(Ast::Variable(Variable {
                            name: "b".to_string()
                        })),
                        type_spec: Box::from(Ast::Type(TypeSpec::Integer))
                    },
                    Ast::VariableDeclaration {
                        variable: Box::from(Ast::Variable(Variable {
                            name: "y".to_string()
                        })),
                        type_spec: Box::from(Ast::Type(TypeSpec::Real))
                    },
                ],
                compound_statements: Box::from(Ast::Compound {
                    statements: vec![
                        Ast::Assign(
                            Variable {
                                name: "a".to_string()
                            },
                            Box::from(Ast::IntegerConstant(2))
                        ),
                        Ast::Assign(
                            Variable {
                                name: "b".to_string()
                            },
                            Box::from(Ast::Add(
                                Box::from(Ast::Multiply(
                                    Box::from(Ast::IntegerConstant(10)),
                                    Box::from(Ast::Variable(Variable {
                                        name: "a".to_string()
                                    }))
                                )),
                                Box::from(Ast::IntegerDivide(
                                    Box::from(Ast::Multiply(
                                        Box::from(Ast::IntegerConstant(10)),
                                        Box::from(Ast::Variable(Variable {
                                            name: "a".to_string()
                                        }))
                                    )),
                                    Box::from(Ast::IntegerConstant(4))
                                ))
                            ))
                        ),
                        Ast::Assign(
                            Variable {
                                name: "y".to_string()
                            },
                            Box::from(Ast::Add(
                                Box::from(Ast::RealDivide(
                                    Box::from(Ast::IntegerConstant(20)),
                                    Box::from(Ast::IntegerConstant(7))
                                )),
                                Box::from(Ast::RealConstant(float(3.14)))
                            ))
                        ),
                        Ast::NoOp,
                    ]
                })
            })
        },
        result
    );
}

#[test]
fn parser_test_simple() {
    assert_eq!(
        Parser::new(TokenList::new(vec![Token::IntegerConstant(4), Token::Eof]))
            .parse_expression().unwrap(),
        Ast::IntegerConstant(4),
    );
}

#[test]
fn parser_test_one_operation() {
    assert_eq!(
        Parser::new(TokenList::new(vec![
                Token::IntegerConstant(4),
                Token::Plus,
                Token::IntegerConstant(6),
                Token::Eof,
            ]))
        .parse_expression().unwrap(),
        Ast::Add(
            Box::from(Ast::IntegerConstant(4)),
            Box::from(Ast::IntegerConstant(6)),
        ),
    );
}

#[test]
fn parser_test_multiple_operations() {
    assert_eq!(
        Parser::new(TokenList::new(vec![
                Token::IntegerConstant(1),
                Token::Plus,
                Token::IntegerConstant(2),
                Token::Plus,
                Token::IntegerConstant(3),
                Token::Plus,
                Token::IntegerConstant(4),
                Token::Eof,
            ]))
        .parse_expression().unwrap(),
        Ast::Add(
            Box::from(Ast::Add(
                Box::from(Ast::Add(
                    Box::from(Ast::IntegerConstant(1)),
                    Box::from(Ast::IntegerConstant(2)),
                )),
                Box::from(Ast::IntegerConstant(3)),
            )),
            Box::from(Ast::IntegerConstant(4)),
        ),
    );
}

#[test]
fn parser_test_overriding_precedence() {
    assert_eq!(
        Parser::new(TokenList::new(vec![
                Token::IntegerConstant(1),
                Token::Multiply,
                Token::ParenthesisStart,
                Token::IntegerConstant(2),
                Token::Plus,
                Token::IntegerConstant(3),
                Token::Multiply,
                Token::IntegerConstant(4),
                Token::ParenthesisEnd,
                Token::Eof,
            ]))
        .parse_expression().unwrap(),
        Ast::Multiply(
            Box::from(Ast::IntegerConstant(1)),
            Box::from(Ast::Add(
                Box::from(Ast::IntegerConstant(2)),
                Box::from(Ast::Multiply(
                    Box::from(Ast::IntegerConstant(3)),
                    Box::from(Ast::IntegerConstant(4)),
                )),
            )),
        ),
    );
}

#[test]
fn parser_test_program() {
    let code = r#"PROGRAM test; BEGIN
            BEGIN
                number := 2;
                a := number;
                b := 10 * a + 10 * number div 4;
                c := a - - b
            END;
            x := 11;
        END."#;
    let result = Parser::new(Lexer::new(code)).parse().unwrap();

    assert_eq!(
        result,
        Ast::Program {
            name: "test".to_string(),
            block: Box::from(Ast::Block {
                declarations: vec![],
                compound_statements: Box::from(Ast::Compound {
                    statements: vec![
                        Ast::Compound {
                            statements: vec![
                                Ast::Assign(
                                    Variable {
                                        name: "number".to_string()
                                    },
                                    Box::from(Ast::IntegerConstant(2)),
                                ),
                                Ast::Assign(
                                    Variable {
                                        name: "a".to_string()
                                    },
                                    Box::from(Ast::Variable(Variable {
                                        name: "number".to_string()
                                    })),
                                ),
                                Ast::Assign(
                                    Variable {
                                        name: "b".to_string()
                                    },
                                    Box::from(Ast::Add(
                                        Box::from(Ast::Multiply(
                                            Box::from(Ast::IntegerConstant(10)),
                                            Box::from(Ast::Variable(Variable {
                                                name: "a".to_string()
                                            })),
                                        )),
                                        Box::from(Ast::IntegerDivide(
                                            Box::from(Ast::Multiply(
                                                Box::from(Ast::IntegerConstant(10)),
                                                Box::from(Ast::Variable(Variable {
                                                    name: "number".to_string()
                                                })),
                                            )),
                                            Box::from(Ast::IntegerConstant(4)),
                                        )),
                                    )),
                                ),
                                Ast::Assign(
                                    Variable {
                                        name: "c".to_string()
                                    },
                                    Box::from(Ast::Subtract(
                                        Box::from(Ast::Variable(Variable {
                                            name: "a".to_string()
                                        })),
                                        Box::from(Ast::NegativeUnary(Box::from(Ast::Variable(
                                            Variable {
                                                name: "b".to_string()
                                            }
                                        )))),
                                    )),
                                ),
                            ]
                        },
                        Ast::Assign(
                            Variable {
                                name: "x".to_string()
                            },
                            Box::from(Ast::IntegerConstant(11)),
                        ),
                        Ast::NoOp,
                    ]
                }),
            }),
        },
    );
}

#[test]
fn parser_test_program2() {
    let code = r#"
            PROGRAM Part10AST;
        VAR
           a, b : INTEGER;
           y    : REAL;

        BEGIN {Part10AST}
           a := 2;
           b := 10 * a + 10 * a DIV 4;
           y := 20 / 7 + 3.14;
        END.  {Part10AST}
    "#;
    let result = Parser::new(Lexer::new(code)).parse().unwrap();
    assert_eq!(
        Ast::Program {
            name: "Part10AST".to_string(),
            block: Box::from(Ast::Block {
                declarations: vec![
                    Ast::VariableDeclaration {
                        variable: Box::from(Ast::Variable(Variable {
                            name: "a".to_string()
                        })),
                        type_spec: Box::from(Ast::Type(TypeSpec::Integer))
                    },
                    Ast::VariableDeclaration {
                        variable: Box::from(Ast::Variable(Variable {
                            name: "b".to_string()
                        })),
                        type_spec: Box::from(Ast::Type(TypeSpec::Integer))
                    },
                    Ast::VariableDeclaration {
                        variable: Box::from(Ast::Variable(Variable {
                            name: "y".to_string()
                        })),
                        type_spec: Box::from(Ast::Type(TypeSpec::Real))
                    },
                ],
                compound_statements: Box::from(Ast::Compound {
                    statements: vec![
                        Ast::Assign(
                            Variable {
                                name: "a".to_string()
                            },
                            Box::from(Ast::IntegerConstant(2))
                        ),
                        Ast::Assign(
                            Variable {
                                name: "b".to_string()
                            },
                            Box::from(Ast::Add(
                                Box::from(Ast::Multiply(
                                    Box::from(Ast::IntegerConstant(10)),
                                    Box::from(Ast::Variable(Variable {
                                        name: "a".to_string()
                                    }))
                                )),
                                Box::from(Ast::IntegerDivide(
                                    Box::from(Ast::Multiply(
                                        Box::from(Ast::IntegerConstant(10)),
                                        Box::from(Ast::Variable(Variable {
                                            name: "a".to_string()
                                        }))
                                    )),
                                    Box::from(Ast::IntegerConstant(4))
                                ))
                            ))
                        ),
                        Ast::Assign(
                            Variable {
                                name: "y".to_string()
                            },
                            Box::from(Ast::Add(
                                Box::from(Ast::RealDivide(
                                    Box::from(Ast::IntegerConstant(20)),
                                    Box::from(Ast::IntegerConstant(7))
                                )),
                                Box::from(Ast::RealConstant(float(3.14)))
                            ))
                        ),
                        Ast::NoOp,
                    ]
                })
            })
        },
        result
    );
}
