use spi::interpreting::name_map::NameMap;
use spi::interpreting::symbol_table::{
    build_symbol_table, BuiltInTypes, SemanticError, Symbol, SymbolTable, TraceEvent,
};
use spi::lexing::lexer::Lexer;
use spi::parsing::ast::{Ast, AstError, TypeSpec, Variable};
use spi::parsing::parser::Parser;

fn var(name: &str) -> Ast {
    Ast::Variable(Variable {
        name: name.to_string(),
    })
}

fn declaration(name: &str, type_spec: TypeSpec) -> Ast {
    Ast::VariableDeclaration {
        variable: Box::new(var(name)),
        type_spec: Box::new(Ast::Type(type_spec)),
    }
}

#[test]
fn test_part11() {
    let code = r#"
        PROGRAM Part11;
        VAR
           number : INTEGER;
           a, b   : INTEGER;
           y      : REAL;

        BEGIN {Part11}
           number := 2;
           a := number ;
           b := 10 * a + 10 * number DIV 4;
           y := 20 / 7 + 3.14
        END.  {Part11}
    "#;

    let ast = Parser::new(Lexer::new(code)).parse().unwrap();
    assert!(SymbolTable::build_for(&ast, true).is_ok());
}

#[test]
fn test_part13_happy_path() {
    let code = r#"
        program SymTab4;
        var x, y : integer;

        begin
            x := x + y;
        end.
    "#;

    let ast = Parser::new(Lexer::new(code)).parse().unwrap();
    assert!(SymbolTable::build_for(&ast, true).is_ok());
}

#[test]
fn test_part13_sym_tab_5() {
    let code = r#"
        program SymTab5;
        var x : integer;

        begin
            x := y;
        end.
    "#;

    let ast = Parser::new(Lexer::new(code)).parse().unwrap();
    assert!(SymbolTable::build_for(&ast, true)
        .err()
        .expect("Expected not to find y")
        .message()
        .contains("Unknown variable"));
}

#[test]
fn test_duplicate_identifiers() {
    let code = r#"
        program SymTab6;
        var x, y : integer;
        var y : real;
        begin
            x := x + y;
        end.
    "#;

    let ast = Parser::new(Lexer::new(code)).parse().unwrap();
    assert!(SymbolTable::build_for(&ast, true)
        .err()
        .expect("Expected y to be defined twice")
        .message()
        .contains("Duplicate Identifier"));
}

#[test]
fn the_table_holds_the_built_in_types_and_the_variables() {
    let ast = Parser::new(Lexer::new(
        "program p; var Number : integer; y : real; begin number := 1 end.",
    ))
    .parse()
    .unwrap();
    let table = SymbolTable::build_for(&ast, false).unwrap();
    assert_eq!(table.symbols.len(), 4);
    assert_eq!(
        table.symbols.get("integer"),
        Some(&Symbol::BuiltIn(BuiltInTypes::Integer))
    );
    assert_eq!(
        table.symbols.get("REAL"),
        Some(&Symbol::BuiltIn(BuiltInTypes::Real))
    );
    assert_eq!(
        table.symbols.get("NUMBER"),
        Some(&Symbol::Variable {
            name: "Number".to_string(),
            var_type: "Integer".to_string()
        })
    );
    assert_eq!(
        table.symbols.get("y"),
        Some(&Symbol::Variable {
            name: "y".to_string(),
            var_type: "Real".to_string()
        })
    );
    assert_eq!(table.symbols.get("z"), None);
    assert_eq!(table.symbols.name_at(0), "Integer");
    assert_eq!(table.symbols.name_at(1), "Real");
    assert_eq!(table.symbols.name_at(2), "Number");
    assert_eq!(table.symbols.name_at(3), "y");
    assert!(!table.verbose());
    assert!(table.trace().is_empty());
}

#[test]
fn duplicate_in_another_case_is_rejected() {
    let ast = Parser::new(Lexer::new(
        "program p; var total : integer; var TOTAL : real; begin end.",
    ))
    .parse()
    .unwrap();
    assert_eq!(
        SymbolTable::build_for(&ast, false).err(),
        Some(SemanticError::DuplicateIdentifier {
            name: "TOTAL".to_string()
        })
    );
}

#[test]
fn a_variable_named_like_a_built_in_type_is_a_duplicate() {
    let mut table = SymbolTable::build_for(&Ast::NoOp, false).unwrap();
    assert_eq!(
        build_symbol_table(&mut table, &declaration("INTEGER", TypeSpec::Real)),
        Err(SemanticError::DuplicateIdentifier {
            name: "INTEGER".to_string()
        })
    );
}

#[test]
fn reading_an_undeclared_variable_is_rejected() {
    let ast = Parser::new(Lexer::new(
        "program p; var x : integer; begin x := 1 + y end.",
    ))
    .parse()
    .unwrap();
    let error = SymbolTable::build_for(&ast, false).err().unwrap();
    assert_eq!(
        error,
        SemanticError::UnknownVariable {
            name: "y".to_string()
        }
    );
    assert_eq!(error.message(), "Unknown variable: y");
}

#[test]
fn assigning_to_an_undeclared_variable_is_rejected() {
    let ast = Parser::new(Lexer::new("program p; begin x := 1 end."))
        .parse()
        .unwrap();
    let error = SymbolTable::build_for(&ast, false).err().unwrap();
    assert_eq!(
        error,
        SemanticError::UnknownAssignmentTarget {
            name: "x".to_string()
        }
    );
    assert_eq!(error.message(), "Unknown variable to assign to: x");
}

#[test]
fn a_type_is_unknown_in_a_table_without_the_built_in_types() {
    let mut table = SymbolTable::new(false);
    let error = build_symbol_table(&mut table, &declaration("x", TypeSpec::Integer))
        .err()
        .unwrap();
    assert_eq!(
        error,
        SemanticError::UnknownType {
            name: "Integer".to_string()
        }
    );
    assert_eq!(error.message(), "Unknown type: Integer");
}

#[test]
fn a_declaration_must_hold_a_variable_and_a_type() {
    let mut table = SymbolTable::build_for(&Ast::NoOp, false).unwrap();
    let no_type = Ast::VariableDeclaration {
        variable: Box::new(var("x")),
        type_spec: Box::new(Ast::NoOp),
    };
    let error = build_symbol_table(&mut table, &no_type).err().unwrap();
    assert_eq!(error, SemanticError::Malformed(AstError::ExpectedTypeSpec));
    assert_eq!(error.message(), "Expected a type spec");
    let no_variable = Ast::VariableDeclaration {
        variable: Box::new(Ast::IntegerConstant(1)),
        type_spec: Box::new(Ast::Type(TypeSpec::Real)),
    };
    let error = build_symbol_table(&mut table, &no_variable).err().unwrap();
    assert_eq!(error, SemanticError::Malformed(AstError::ExpectedVariable));
    assert_eq!(error.message(), "Expected a variable");
}

#[test]
fn procedures_are_passed_over() {
    let ast = Parser::new(Lexer::new(
        "program p; procedure q; begin undeclared := 1 end; begin end.",
    ))
    .parse()
    .unwrap();
    let table = SymbolTable::build_for(&ast, false).unwrap();
    assert_eq!(table.symbols.len(), 2);
}

#[test]
fn define_and_lookup() {
    let mut table = SymbolTable::new(false);
    let x = Symbol::Variable {
        name: "x".to_string(),
        var_type: "Real".to_string(),
    };
    assert_eq!(table.lookup("x"), None);
    assert_eq!(table.define(x.duplicate()), Ok(()));
    assert_eq!(table.lookup("X"), Some(x.duplicate()));
    let error = table.define(x.duplicate()).err().unwrap();
    assert_eq!(
        error,
        SemanticError::DuplicateIdentifier {
            name: "x".to_string()
        }
    );
    assert_eq!(error.message(), "Duplicate Identifier: x");
    assert_eq!(x.symbol_table_key(), "x");
    assert_eq!(x.to_text(), "<x:Real>");
    let integer = Symbol::BuiltIn(BuiltInTypes::Integer);
    assert_eq!(integer.symbol_table_key(), "Integer");
    assert_eq!(integer.to_text(), "Integer");
    assert_eq!(BuiltInTypes::Real.name(), "Real");
}

#[test]
fn a_verbose_table_records_its_steps() {
    let ast = Parser::new(Lexer::new("program p; var x : real; begin x := x end."))
        .parse()
        .unwrap();
    let table = SymbolTable::build_for(&ast, true).unwrap();
    assert!(table.verbose());
    let x = Symbol::Variable {
        name: "x".to_string(),
        var_type: "Real".to_string(),
    };
    assert_eq!(
        table.trace(),
        &vec![
            TraceEvent::Define(Symbol::BuiltIn(BuiltInTypes::Integer)),
            TraceEvent::Define(Symbol::BuiltIn(BuiltInTypes::Real)),
            TraceEvent::Lookup("Real".to_string()),
            TraceEvent::Lookup("x".to_string()),
            TraceEvent::Define(x),
            TraceEvent::Lookup("x".to_string()),
            TraceEvent::Lookup("x".to_string()),
        ]
    );
}

#[test]
fn name_map_ignores_case() {
    let mut map: NameMap<i32> = NameMap::new();
    assert_eq!(map.len(), 0);
    assert!(!map.contains_key("number"));
    assert_eq!(map.insert("number".to_string(), 1), None);
    assert!(map.contains_key("number"));
    assert!(map.contains_key("NUMBER"));
    assert!(map.contains_key("Number"));
    assert!(!map.contains_key("numbers"));
    assert_eq!(map.get("NUMBER"), Some(&1));
    assert_eq!(map.insert("Number".to_string(), 2), Some(1));
    assert_eq!(map.get("number"), Some(&2));
    assert_eq!(map.len(), 1);
    assert_eq!(map.name_at(0), "number");
    assert_eq!(map.value_at(0), &2);
    assert_eq!(map.insert("other".to_string(), 3), None);
    assert_eq!(map.len(), 2);
    assert_eq!(map.name_at(1), "other");
    assert_eq!(map.value_at(1), &3);
    assert_eq!(map.get("number"), Some(&2));
    assert_eq!(map.get("missing"), None);
}

#[test]
fn name_map_folds_letters_beyond_ascii() {
    let mut map: NameMap<i32> = NameMap::new();
    map.insert("\u{c9}T\u{c9}".to_string(), 7);
    assert_eq!(map.get("\u{e9}t\u{e9}"), Some(&7));
    assert_eq!(map.get("ete"), None);
}
