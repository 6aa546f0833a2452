use spi::interpreting::interpreter::{Interpreter, RuntimeError};
use spi::interpreting::symbol_table::SemanticError;
use spi::interpreting::types::{ArithmeticError, NumericType};
use spi::lexing::lexer::Lexer;
use spi::parsing::ast::{Ast, NodeKind, TypeSpec, Variable};
use spi::parsing::parser::Parser;
use spi::reals::Real;

fn float(value: f64) -> NumericType {
    NumericType::Real(Real::from_bits(value.to_bits()))
}

fn line_to_result(line: &str) -> Result<NumericType, RuntimeError> {
    let ast = Parser::new(Lexer::new(line)).parse_expression().unwrap();
    Interpreter::new(false).interpret_expression(&ast)
}

fn run(code: &str) -> (Interpreter, Result<(), RuntimeError>) {
    let ast = Parser::new(Lexer::new(code)).parse().unwrap();
    let mut interpreter = Interpreter::new(false);
    let result = interpreter.interpret(&ast);
    (interpreter, result)
}

#[test]
fn test_simple_int() {
    assert_eq!(line_to_result("4"), Ok(NumericType::Integer(4)));
}

#[test]
fn test_addition() {
    assert_eq!(line_to_result("1 + 4"), Ok(NumericType::Integer(5)));
}

#[test]
fn test_multiple_operators() {
    assert_eq!(line_to_result("1 + 3 * 5"), Ok(NumericType::Integer(16)));
}

#[test]
fn test_parenthesis() {
    assert_eq!(line_to_result("(1 + 3) * 5"), Ok(NumericType::Integer(20)));
}

#[test]
fn test_nested_parenthesis() {
    assert_eq!(
        line_to_result("7 + 3 * (10 div (12 Div (3 + 1) - 1)) dIV (2 + 3) - 5 - 3 + (8)"),
        Ok(NumericType::Integer(10))
    );
}

#[test]
fn test_unary_operations() {
    assert_eq!(
        line_to_result("5 - - - + - (3 + 4) - +2"),
        Ok(NumericType::Integer(10))
    );
}

#[test]
fn integer_division_truncates_and_real_division_does_not() {
    assert_eq!(line_to_result("7 div 2"), Ok(NumericType::Integer(3)));
    assert_eq!(line_to_result("7 / 2"), Ok(float(3.5)));
    assert_eq!(line_to_result("-7 div 2"), Ok(NumericType::Integer(-3)));
    assert_eq!(line_to_result("7 div -2"), Ok(NumericType::Integer(-3)));
    assert_eq!(line_to_result("-7 div -2"), Ok(NumericType::Integer(3)));
    assert_eq!(line_to_result("6 / 3"), Ok(float(2.0)));
}

#[test]
fn integer_division_takes_reals_as_integers() {
    assert_eq!(line_to_result("7.9 div 2"), Ok(NumericType::Integer(3)));
    assert_eq!(line_to_result("9 div 2.9"), Ok(NumericType::Integer(4)));
    assert_eq!(
        line_to_result("1 div 0.5"),
        Err(RuntimeError::Arithmetic(ArithmeticError::DivisionByZero))
    );
}

#[test]
fn an_integer_and_a_real_give_a_real() {
    assert_eq!(line_to_result("1 + 2"), Ok(NumericType::Integer(3)));
    assert_eq!(line_to_result("1 + 2.5"), Ok(float(3.5)));
    assert_eq!(line_to_result("2.5 + 1"), Ok(float(3.5)));
    assert_eq!(line_to_result("2.5 - 1"), Ok(float(1.5)));
    assert_eq!(line_to_result("3 - 0.5"), Ok(float(2.5)));
    assert_eq!(line_to_result("2 * 1.5"), Ok(float(3.0)));
    assert_eq!(line_to_result("1.5 * 1.5"), Ok(float(2.25)));
    assert_eq!(line_to_result("-1.5"), Ok(float(-1.5)));
    assert_eq!(line_to_result("- - 1.5"), Ok(float(1.5)));
}

#[test]
fn reals_are_rounded_as_the_machine_rounds_them() {
    assert_eq!(line_to_result("20 / 7 + 3.14"), Ok(float(20.0 / 7.0 + 3.14)));
    assert_eq!(line_to_result("0.1 + 0.2"), Ok(float(0.1 + 0.2)));
    assert_eq!(line_to_result("1 / 3 * 3"), Ok(float(1.0 / 3.0 * 3.0)));
}

#[test]
fn real_division_by_zero_is_no_error() {
    assert_eq!(line_to_result("1 / 0"), Ok(float(f64::INFINITY)));
    assert_eq!(line_to_result("-1 / 0"), Ok(float(f64::NEG_INFINITY)));
    match line_to_result("0 / 0") {
        Ok(NumericType::Real(r)) => assert!(f64::from_bits(r.to_bits()).is_nan()),
        other => panic!("expected a NaN, got {:?}", other),
    }
}

#[test]
fn integer_division_by_zero_is_an_error() {
    assert_eq!(
        line_to_result("1 div 0"),
        Err(RuntimeError::Arithmetic(ArithmeticError::DivisionByZero))
    );
    assert_eq!(
        line_to_result("1 div (2 - 2)"),
        Err(RuntimeError::Arithmetic(ArithmeticError::DivisionByZero))
    );
}

#[test]
fn integer_overflow_is_an_error() {
    assert_eq!(
        line_to_result("2147483647 + 1"),
        Err(RuntimeError::Arithmetic(ArithmeticError::Overflow))
    );
    assert_eq!(
        line_to_result("-2147483647 - 2"),
        Err(RuntimeError::Arithmetic(ArithmeticError::Overflow))
    );
    assert_eq!(
        line_to_result("65536 * 32768"),
        Err(RuntimeError::Arithmetic(ArithmeticError::Overflow))
    );
    assert_eq!(
        line_to_result("(-2147483647 - 1) div -1"),
        Err(RuntimeError::Arithmetic(ArithmeticError::Overflow))
    );
    assert_eq!(
        line_to_result("-(-2147483647 - 1)"),
        Err(RuntimeError::Arithmetic(ArithmeticError::Overflow))
    );
    assert_eq!(
        line_to_result("-2147483647 - 1"),
        Ok(NumericType::Integer(i32::MIN))
    );
    assert_eq!(
        line_to_result("2147483647 + 1.0"),
        Ok(float(2147483648.0))
    );
}

#[test]
fn the_left_operand_fails_first() {
    assert_eq!(
        line_to_result("a + (1 div 0)"),
        Err(RuntimeError::Undefined {
            name: "a".to_string()
        })
    );
    assert_eq!(
        line_to_result("(1 div 0) + a"),
        Err(RuntimeError::Arithmetic(ArithmeticError::DivisionByZero))
    );
}

#[test]
fn a_variable_without_a_value_is_undefined() {
    assert_eq!(
        line_to_result("x"),
        Err(RuntimeError::Undefined {
            name: "x".to_string()
        })
    );
    let (interpreter, result) = run("program p; var x, y : integer; begin x := y end.");
    assert_eq!(
        result,
        Err(RuntimeError::Undefined {
            name: "y".to_string()
        })
    );
    assert_eq!(interpreter.global_scope.len(), 0);
}

#[test]
fn assignment_then_lookup() {
    let (interpreter, result) =
        run("program p; var x, y : integer; begin x := 5; y := x + 1 end.");
    assert_eq!(result, Ok(()));
    assert_eq!(
        interpreter.global_scope.get("x"),
        Some(&NumericType::Integer(5))
    );
    assert_eq!(
        interpreter.global_scope.get("y"),
        Some(&NumericType::Integer(6))
    );
    assert_eq!(interpreter.global_scope.len(), 2);
    assert_eq!(
        interpreter.interpret_expression(&Ast::Variable(Variable {
            name: "Y".to_string()
        })),
        Ok(NumericType::Integer(6))
    );
}

#[test]
fn names_in_any_case_are_one_variable() {
    let (interpreter, result) = run(
        "program p; var number : integer; begin number := 1; NUMBER := Number + 1; nuMber := NUMBER * 10 end.",
    );
    assert_eq!(result, Ok(()));
    assert_eq!(interpreter.global_scope.len(), 1);
    assert_eq!(
        interpreter.global_scope.get("Number"),
        Some(&NumericType::Integer(20))
    );
    assert_eq!(interpreter.global_scope.name_at(0), "number");
}

#[test]
fn part_10_program() {
    let (interpreter, result) = run(r#"
        PROGRAM Part10AST;
        VAR
           a, b : INTEGER;
           y    : REAL;

        BEGIN {Part10AST}
           a := 2;
           b := 10 * a + 10 * a DIV 4;
           y := 20 / 7 + 3.14;
        END.  {Part10AST}
    "#);
    assert_eq!(result, Ok(()));
    assert_eq!(
        interpreter.global_scope.get("a"),
        Some(&NumericType::Integer(2))
    );
    assert_eq!(
        interpreter.global_scope.get("b"),
        Some(&NumericType::Integer(25))
    );
    assert_eq!(
        interpreter.global_scope.get("y"),
        Some(&float(20.0 / 7.0 + 3.14))
    );
    let table = interpreter.symbol_table.unwrap();
    assert_eq!(table.symbols.len(), 5);
}

#[test]
fn a_rejected_program_is_not_run() {
    let (interpreter, result) = run("program p; var x : integer; begin x := 1; z := 2 end.");
    assert_eq!(
        result,
        Err(RuntimeError::Semantic(
            SemanticError::UnknownAssignmentTarget {
                name: "z".to_string()
            }
        ))
    );
    assert_eq!(interpreter.global_scope.len(), 0);
    assert!(interpreter.symbol_table.is_none());
}

#[test]
fn a_failing_statement_keeps_what_was_assigned_before_it() {
    let (interpreter, result) = run(
        "program p; var x, y, z : integer; begin x := 1; begin y := 2; z := y div 0 end; x := 3 end.",
    );
    assert_eq!(
        result,
        Err(RuntimeError::Arithmetic(ArithmeticError::DivisionByZero))
    );
    assert_eq!(
        interpreter.global_scope.get("x"),
        Some(&NumericType::Integer(1))
    );
    assert_eq!(
        interpreter.global_scope.get("y"),
        Some(&NumericType::Integer(2))
    );
    assert_eq!(interpreter.global_scope.get("z"), None);
}

#[test]
fn procedures_are_not_run() {
    let (interpreter, result) = run(
        "program p; var x : integer; procedure q; begin x := 1 div 0 end; begin x := 7 end.",
    );
    assert_eq!(result, Ok(()));
    assert_eq!(
        interpreter.global_scope.get("x"),
        Some(&NumericType::Integer(7))
    );
}

#[test]
fn a_statement_is_no_expression() {
    let interpreter = Interpreter::new(false);
    assert_eq!(
        interpreter.interpret_expression(&Ast::NoOp),
        Err(RuntimeError::InvalidExpressionNode(NodeKind::NoOp))
    );
    assert_eq!(
        interpreter.interpret_expression(&Ast::Type(TypeSpec::Real)),
        Err(RuntimeError::InvalidExpressionNode(NodeKind::Type))
    );
    assert_eq!(
        interpreter.interpret_expression(&Ast::Compound { statements: vec![] }),
        Err(RuntimeError::InvalidExpressionNode(NodeKind::Compound))
    );
    assert_eq!(
        interpreter.interpret_expression(&Ast::Add(
            Box::new(Ast::IntegerConstant(1)),
            Box::new(Ast::NoOp)
        )),
        Err(RuntimeError::InvalidExpressionNode(NodeKind::NoOp))
    );
}

#[test]
fn an_expression_is_no_statement() {
    let mut interpreter = Interpreter::new(false);
    assert_eq!(
        interpreter.interpret(&Ast::IntegerConstant(1)),
        Err(RuntimeError::InvalidStatementNode(
            NodeKind::IntegerConstant
        ))
    );
    let mut interpreter = Interpreter::new(false);
    assert_eq!(
        interpreter.interpret(&Ast::Compound {
            statements: vec![
                Ast::NoOp,
                Ast::Add(
                    Box::new(Ast::IntegerConstant(1)),
                    Box::new(Ast::IntegerConstant(2))
                )
            ]
        }),
        Err(RuntimeError::InvalidStatementNode(NodeKind::Add))
    );
}

#[test]
fn numeric_type_operations() {
    let two = NumericType::Integer(2);
    let three = NumericType::Integer(3);
    let half = float(0.5);
    assert_eq!(two.add(three), Ok(NumericType::Integer(5)));
    assert_eq!(two.sub(three), Ok(NumericType::Integer(-1)));
    assert_eq!(two.mul(three), Ok(NumericType::Integer(6)));
    assert_eq!(two.neg(), Ok(NumericType::Integer(-2)));
    assert_eq!(three.integer_divide(two), Ok(NumericType::Integer(1)));
    assert_eq!(three.real_divide(two), float(1.5));
    assert_eq!(two.add(half), Ok(float(2.5)));
    assert_eq!(half.sub(two), Ok(float(-1.5)));
    assert_eq!(half.mul(half), Ok(float(0.25)));
    assert_eq!(half.neg(), Ok(float(-0.5)));
    assert_eq!(half.integer_divide(two), Ok(NumericType::Integer(0)));
    assert_eq!(two.as_int(), 2);
    assert_eq!(float(2.9).as_int(), 2);
    assert_eq!(float(-2.9).as_int(), -2);
    assert_eq!(NumericType::Real(two.as_real()), float(2.0));
    assert_eq!(NumericType::Real(half.as_real()), half);
    assert_eq!(
        NumericType::Integer(i32::MAX).add(NumericType::Integer(1)),
        Err(ArithmeticError::Overflow)
    );
    assert_eq!(
        NumericType::Integer(i32::MIN).neg(),
        Err(ArithmeticError::Overflow)
    );
    assert_eq!(
        two.integer_divide(NumericType::Integer(0)),
        Err(ArithmeticError::DivisionByZero)
    );
}
