//! The interpreter: it evaluates expressions to numbers, and executes
//! statements, which set the variables of the global scope.

use crate::interpreting::name_map::{folded, NameMap};
use crate::interpreting::symbol_table::{
    table_of, SemanticError, SpecSemanticError, SymbolTable, TableModel,
};
use crate::interpreting::types::{
    difference, integer_quotient, negation, product, real_division, sum, ArithmeticError,
    NumericType,
};
use crate::parsing::ast::{
    are_declarations, are_statements, ast_view, ast_views, is_expression, is_program,
    is_statement, kind_of, lemma_ast_views, Ast, NodeKind, SpecAst,
};
use crate::parsing::grammar::{parse_from, Stream};
use crate::parsing::shape::parsed_program_is_program;
use vstd::prelude::*;

verus! {

/// Why the run of a program, or the evaluation of an expression, stops.
#[derive(Clone, Debug, PartialEq)]
pub enum RuntimeError {
    /// A variable is read that has no value yet.
    Undefined { name: String },
    /// A node that is no expression stands where a value is asked for.
    InvalidExpressionNode(NodeKind),
    /// A node that is an expression stands where a statement is run.
    InvalidStatementNode(NodeKind),
    /// An operation on numbers has no result.
    Arithmetic(ArithmeticError),
    /// The symbol table rejects the program.
    Semantic(SemanticError),
}

/// The mathematical value of a `RuntimeError`.
pub enum SpecRuntimeError {
    Undefined { name: Seq<char> },
    InvalidExpressionNode(NodeKind),
    InvalidStatementNode(NodeKind),
    Arithmetic(ArithmeticError),
    Semantic(SpecSemanticError),
}

impl View for RuntimeError {
    type V = SpecRuntimeError;

    open spec fn view(&self) -> SpecRuntimeError {
        match self {
            RuntimeError::Undefined { name } => SpecRuntimeError::Undefined { name: name@ },
            RuntimeError::InvalidExpressionNode(kind) => SpecRuntimeError::InvalidExpressionNode(
                *kind,
            ),
            RuntimeError::InvalidStatementNode(kind) => SpecRuntimeError::InvalidStatementNode(
                *kind,
            ),
            RuntimeError::Arithmetic(e) => SpecRuntimeError::Arithmetic(*e),
            RuntimeError::Semantic(e) => SpecRuntimeError::Semantic(e@),
        }
    }
}

/// The values of the variables, each by the folded form of its name.
pub type Scope = Map<Seq<char>, NumericType>;

/// The result of an operation, as the result of an evaluation.
pub open spec fn computed(r: Result<NumericType, ArithmeticError>) -> Result<
    NumericType,
    SpecRuntimeError,
> {
    match r {
        Ok(v) => Ok(v),
        Err(e) => Err(SpecRuntimeError::Arithmetic(e)),
    }
}

/// The value of an expression in a scope. The operands of an operator are
/// evaluated from left to right, and the first error is the result. A
/// variable has the value that the scope holds for its name, in any case;
/// without one it is an error. A node that is a statement is an error.
pub open spec fn evaluate(node: SpecAst, scope: Scope) -> Result<NumericType, SpecRuntimeError>
    decreases node,
{
    match node {
        SpecAst::Add(l, r) => match evaluate(*l, scope) {
            Err(e) => Err(e),
            Ok(a) => match evaluate(*r, scope) {
                Err(e) => Err(e),
                Ok(b) => computed(sum(a, b)),
            },
        },
        SpecAst::Subtract(l, r) => match evaluate(*l, scope) {
            Err(e) => Err(e),
            Ok(a) => match evaluate(*r, scope) {
                Err(e) => Err(e),
                Ok(b) => computed(difference(a, b)),
            },
        },
        SpecAst::Multiply(l, r) => match evaluate(*l, scope) {
            Err(e) => Err(e),
            Ok(a) => match evaluate(*r, scope) {
                Err(e) => Err(e),
                Ok(b) => computed(product(a, b)),
            },
        },
        SpecAst::IntegerDivide(l, r) => match evaluate(*l, scope) {
            Err(e) => Err(e),
            Ok(a) => match evaluate(*r, scope) {
                Err(e) => Err(e),
                Ok(b) => computed(integer_quotient(a, b)),
            },
        },
        SpecAst::RealDivide(l, r) => match evaluate(*l, scope) {
            Err(e) => Err(e),
            Ok(a) => match evaluate(*r, scope) {
                Err(e) => Err(e),
                Ok(b) => Ok(real_division(a, b)),
            },
        },
        SpecAst::IntegerConstant(i) => Ok(NumericType::Integer(i)),
        SpecAst::RealConstant(r) => Ok(NumericType::Real(r)),
        SpecAst::PositiveUnary(inner) => evaluate(*inner, scope),
        SpecAst::NegativeUnary(inner) => match evaluate(*inner, scope) {
            Err(e) => Err(e),
            Ok(a) => computed(negation(a)),
        },
        SpecAst::Variable(name) => if scope.dom().contains(folded(name)) {
            Ok(scope[folded(name)])
        } else {
            Err(SpecRuntimeError::Undefined { name })
        },
        _ => Err(SpecRuntimeError::InvalidExpressionNode(kind_of(node))),
    }
}

/// Where a run ends: the scope that it leaves, and the error that stopped
/// it, if one did.
pub struct Run {
    pub scope: Scope,
    pub error: Option<SpecRuntimeError>,
}

/// The run of a statement from a scope. An assignment sets its variable to
/// the value of its expression; a compound statement, a block and a program
/// run their parts in order and stop at the first error, which leaves the
/// scope as the parts before it made it; declarations, types and the empty
/// statement do nothing. A node that is an expression is an error.
pub open spec fn execute(node: SpecAst, scope: Scope) -> Run
    decreases node, 0int,
{
    match node {
        SpecAst::Compound { statements } => execute_all(statements, scope),
        SpecAst::Assign(name, value) => match evaluate(*value, scope) {
            Ok(v) => Run { scope: scope.insert(folded(name), v), error: None },
            Err(e) => Run { scope, error: Some(e) },
        },
        SpecAst::NoOp => Run { scope, error: None },
        SpecAst::Program { block, .. } => execute(*block, scope),
        SpecAst::Block { declarations, compound_statements } => {
            let declared = execute_all(declarations, scope);
            if declared.error is Some {
                declared
            } else {
                execute(*compound_statements, declared.scope)
            }
        },
        SpecAst::VariableDeclaration { .. } => Run { scope, error: None },
        SpecAst::ProcedureDeclaration { .. } => Run { scope, error: None },
        SpecAst::Type(_) => Run { scope, error: None },
        _ => Run { scope, error: Some(SpecRuntimeError::InvalidStatementNode(kind_of(node))) },
    }
}

/// The run of a list of statements, one after the other, up to the first error.
pub open spec fn execute_all(nodes: Seq<SpecAst>, scope: Scope) -> Run
    decreases nodes, 1int,
{
    if nodes.len() == 0 {
        Run { scope, error: None }
    } else {
        let first = execute(nodes[0], scope);
        if first.error is Some {
            first
        } else {
            execute_all(nodes.drop_first(), first.scope)
        }
    }
}

/// The interpreter: the global scope, and the symbol table of the program
/// that was interpreted last.
pub struct Interpreter {
    pub global_scope: NameMap<NumericType>,
    pub symbol_table: Option<SymbolTable>,
    verbose_symbol_table: bool,
}

impl Interpreter {
    /// The scope and the table are well formed.
    pub closed spec fn wf(&self) -> bool {
        &&& self.global_scope.wf()
        &&& self.symbol_table matches Some(table) ==> table.wf()
    }

    /// The values of the variables.
    pub closed spec fn scope(&self) -> Scope {
        self.global_scope@
    }

    /// The symbol table of the program that was interpreted last, if any.
    pub closed spec fn table(&self) -> Option<TableModel> {
        match self.symbol_table {
            Some(table) => Some(table@),
            None => None,
        }
    }

    /// Whether the symbol tables that this interpreter builds record their steps.
    pub closed spec fn verbose(&self) -> bool {
        self.verbose_symbol_table
    }

    /// An interpreter with no variable set and no symbol table.
    pub fn new(verbose_symbol_table: bool) -> (interpreter: Interpreter)
        ensures
            interpreter.wf(),
            interpreter.scope() == Map::<Seq<char>, NumericType>::empty(),
            interpreter.table() is None,
            interpreter.verbose() == verbose_symbol_table,
    {
        Interpreter { global_scope: NameMap::new(), symbol_table: None, verbose_symbol_table }
    }

    /// The value of the expression `node` in the global scope.
    pub fn interpret_expression(&self, node: &Ast) -> (r: Result<NumericType, RuntimeError>)
        requires
            self.wf(),
        ensures
            match evaluate(node@, self.scope()) {
                Ok(v) => r == Ok::<NumericType, RuntimeError>(v),
                Err(e) => r matches Err(x) && x@ == e,
            },
        decreases node,
    {
        match node {
            Ast::Add(l, r) => {
                let a = self.interpret_expression(l)?;
                let b = self.interpret_expression(r)?;
                arithmetic(a.add(b))
            },
            Ast::Subtract(l, r) => {
                let a = self.interpret_expression(l)?;
                let b = self.interpret_expression(r)?;
                arithmetic(a.sub(b))
            },
            Ast::Multiply(l, r) => {
                let a = self.interpret_expression(l)?;
                let b = self.interpret_expression(r)?;
                arithmetic(a.mul(b))
            },
            Ast::IntegerDivide(l, r) => {
                let a = self.interpret_expression(l)?;
                let b = self.interpret_expression(r)?;
                arithmetic(a.integer_divide(b))
            },
            Ast::IntegerConstant(i) => Ok(NumericType::Integer(*i)),
            Ast::RealDivide(l, r) => {
                let a = self.interpret_expression(l)?;
                let b = self.interpret_expression(r)?;
                Ok(a.real_divide(b))
            },
            Ast::RealConstant(r) => Ok(NumericType::Real(*r)),
            Ast::PositiveUnary(nested) => self.interpret_expression(nested),
            Ast::NegativeUnary(nested) => {
                let a = self.interpret_expression(nested)?;
                arithmetic(a.neg())
            },
            Ast::Variable(var) => match self.global_scope.get(var.name.as_str()) {
                Some(value) => Ok(*value),
                None => Err(RuntimeError::Undefined { name: var.name.clone() }),
            },
            Ast::Compound { .. }
            | Ast::Assign(_, _)
            | Ast::Program { .. }
            | Ast::Block { .. }
            | Ast::ProcedureDeclaration { .. }
            | Ast::VariableDeclaration { .. }
            | Ast::Type(_)
            | Ast::NoOp => Err(RuntimeError::InvalidExpressionNode(node.kind())),
        }
    }

    /// Builds the symbol table of `node`, then runs it. Where the table
    /// rejects the program nothing is run, and the interpreter stays as it
    /// was. Where the run stops at an error, the scope keeps what was
    /// assigned before it.
    pub fn interpret(&mut self, node: &Ast) -> (r: Result<(), RuntimeError>)
        requires
            old(self).wf(),
        ensures
            final(self).wf(),
            final(self).verbose() == old(self).verbose(),
            match table_of(node@, old(self).verbose()) {
                Err(e) => r matches Err(x) && x@ == SpecRuntimeError::Semantic(e)
                    && final(self).scope() == old(self).scope()
                    && final(self).table() == old(self).table(),
                Ok(table) => final(self).table() == Some(table) && final(self).scope() == execute(
                    node@,
                    old(self).scope(),
                ).scope && match execute(node@, old(self).scope()).error {
                    None => r is Ok,
                    Some(e) => r matches Err(x) && x@ == e,
                },
            },
    {
        match SymbolTable::build_for(node, self.verbose_symbol_table) {
            Ok(table) => {
                self.symbol_table = Some(table);
            },
            Err(e) => {
                return Err(RuntimeError::Semantic(e));
            },
        }
        self.interpret_node(node)
    }

    /// Runs the statement `node`.
    fn interpret_node(&mut self, node: &Ast) -> (r: Result<(), RuntimeError>)
        requires
            old(self).wf(),
        ensures
            final(self).wf(),
            final(self).verbose() == old(self).verbose(),
            final(self).table() == old(self).table(),
            final(self).scope() == execute(node@, old(self).scope()).scope,
            match execute(node@, old(self).scope()).error {
                None => r is Ok,
                Some(e) => r matches Err(x) && x@ == e,
            },
        decreases node,
    {
        match node {
            Ast::Compound { statements } => self.interpret_nodes(statements),
            Ast::Assign(var, expr) => {
                let value = self.interpret_expression(expr)?;
                self.global_scope.insert(var.name.clone(), value);
                Ok(())
            },
            Ast::NoOp => Ok(()),
            Ast::Program { block, .. } => self.interpret_node(block),
            Ast::Block { declarations, compound_statements } => {
                self.interpret_nodes(declarations)?;
                self.interpret_node(compound_statements)
            },
            Ast::VariableDeclaration { .. } => Ok(()),
            Ast::ProcedureDeclaration { .. } => Ok(()),
            Ast::Type(_) => Ok(()),
            Ast::Add(_, _)
            | Ast::Subtract(_, _)
            | Ast::Multiply(_, _)
            | Ast::IntegerDivide(_, _)
            | Ast::IntegerConstant(_)
            | Ast::RealDivide(_, _)
            | Ast::RealConstant(_)
            | Ast::PositiveUnary(_)
            | Ast::NegativeUnary(_)
            | Ast::Variable(_) => Err(RuntimeError::InvalidStatementNode(node.kind())),
        }
    }

    /// Runs the statements of a list, one after the other.
    fn interpret_nodes(&mut self, nodes: &Vec<Ast>) -> (r: Result<(), RuntimeError>)
        requires
            old(self).wf(),
        ensures
            final(self).wf(),
            final(self).verbose() == old(self).verbose(),
            final(self).table() == old(self).table(),
            final(self).scope() == execute_all(ast_views(nodes@), old(self).scope()).scope,
            match execute_all(ast_views(nodes@), old(self).scope()).error {
                None => r is Ok,
                Some(e) => r matches Err(x) && x@ == e,
            },
        decreases nodes,
    {
        let ghost views = ast_views(nodes@);
        proof {
            lemma_ast_views(nodes@);
            assert(views.skip(0) =~= views);
        }
        let mut i: usize = 0;
        while i < nodes.len()
            invariant
                i <= nodes.len(),
                self.wf(),
                self.verbose() == old(self).verbose(),
                self.table() == old(self).table(),
                views == ast_views(nodes@),
                views.len() == nodes.len(),
                forall|k: int| 0 <= k < nodes.len() ==> #[trigger] views[k] == ast_view(nodes@[k]),
                execute_all(views, old(self).scope()) == execute_all(
                    views.skip(i as int),
                    self.scope(),
                ),
            decreases nodes.len() - i,
        {
            proof {
                assert(views.skip(i as int)[0] == views[i as int]);
                assert(views.skip(i as int).drop_first() =~= views.skip(i + 1));
            }
            self.interpret_node(&nodes[i])?;
            i += 1;
        }
        Ok(())
    }
}

impl Default for Interpreter {
    /// An interpreter whose symbol tables do not record their steps.
    fn default() -> (interpreter: Interpreter)
        ensures
            interpreter.wf(),
            interpreter.scope() == Map::<Seq<char>, NumericType>::empty(),
            interpreter.table() is None,
            !interpreter.verbose(),
    {
        Interpreter::new(false)
    }
}

/// The result of an operation, as the result of an evaluation.
fn arithmetic(r: Result<NumericType, ArithmeticError>) -> (out: Result<NumericType, RuntimeError>)
    ensures
        match computed(r) {
            Ok(v) => out == Ok::<NumericType, RuntimeError>(v),
            Err(e) => out matches Err(x) && x@ == e,
        },
{
    match r {
        Ok(v) => Ok(v),
        Err(e) => Err(RuntimeError::Arithmetic(e)),
    }
}

} // verus!

verus! {

/// Assignment, then lookup: after the assignment of an expression that has
/// a value, the variable has that value, under its name in any case.
pub proof fn assignment_round_trip(
    name: Seq<char>,
    other: Seq<char>,
    value: SpecAst,
    scope: Scope,
)
    requires
        evaluate(value, scope) is Ok,
        folded(other) == folded(name),
    ensures
        execute(SpecAst::Assign(name, Box::new(value)), scope).error is None,
        evaluate(
            SpecAst::Variable(other),
            execute(SpecAst::Assign(name, Box::new(value)), scope).scope,
        ) == evaluate(value, scope),
{
}

/// An assignment changes no variable but its own.
pub proof fn assignment_keeps_the_others(
    name: Seq<char>,
    other: Seq<char>,
    value: SpecAst,
    scope: Scope,
)
    requires
        folded(other) != folded(name),
    ensures
        evaluate(
            SpecAst::Variable(other),
            execute(SpecAst::Assign(name, Box::new(value)), scope).scope,
        ) == evaluate(SpecAst::Variable(other), scope),
{
}

/// Names that differ only in case are one variable: both have a value or
/// neither has, and the value is the same.
pub proof fn names_ignore_case(a: Seq<char>, b: Seq<char>, scope: Scope)
    requires
        folded(a) == folded(b),
    ensures
        evaluate(SpecAst::Variable(a), scope) is Ok <==> evaluate(SpecAst::Variable(b), scope)
            is Ok,
        evaluate(SpecAst::Variable(a), scope) is Ok ==> evaluate(SpecAst::Variable(a), scope)
            == evaluate(SpecAst::Variable(b), scope),
{
}

/// A constant expression of integers has the value that precedence gives
/// it: `a + b * c` is `a + (b * c)`, where that is a 32-bit integer.
pub proof fn product_before_sum(a: i32, b: i32, c: i32, scope: Scope)
    requires
        crate::interpreting::types::fits(b * c),
        crate::interpreting::types::fits(a + b * c),
    ensures
        evaluate(
            SpecAst::Add(
                Box::new(SpecAst::IntegerConstant(a)),
                Box::new(
                    SpecAst::Multiply(
                        Box::new(SpecAst::IntegerConstant(b)),
                        Box::new(SpecAst::IntegerConstant(c)),
                    ),
                ),
            ),
            scope,
        ) == Ok::<NumericType, SpecRuntimeError>(NumericType::Integer((a + b * c) as i32)),
{
    reveal_with_fuel(evaluate, 3);
}

/// Whether an error says that a node stands where it cannot.
pub open spec fn is_invalid_node(e: SpecRuntimeError) -> bool {
    e is InvalidExpressionNode || e is InvalidStatementNode
}

/// The evaluation of an expression finds no node that is no expression.
pub proof fn expression_has_no_invalid_node(tree: SpecAst, scope: Scope)
    requires
        is_expression(tree),
    ensures
        evaluate(tree, scope) matches Err(e) ==> !is_invalid_node(e),
    decreases tree,
{
    match tree {
        SpecAst::Add(l, r)
        | SpecAst::Subtract(l, r)
        | SpecAst::Multiply(l, r)
        | SpecAst::IntegerDivide(l, r)
        | SpecAst::RealDivide(l, r) => {
            expression_has_no_invalid_node(*l, scope);
            expression_has_no_invalid_node(*r, scope);
        },
        SpecAst::PositiveUnary(inner) | SpecAst::NegativeUnary(inner) => {
            expression_has_no_invalid_node(*inner, scope);
        },
        _ => {},
    }
}

/// The run of a statement finds no node that stands where it cannot.
pub proof fn statement_has_no_invalid_node(tree: SpecAst, scope: Scope)
    requires
        is_statement(tree),
    ensures
        execute(tree, scope).error matches Some(e) ==> !is_invalid_node(e),
    decreases tree, 0int,
{
    match tree {
        SpecAst::Assign(_, value) => {
            expression_has_no_invalid_node(*value, scope);
        },
        SpecAst::Compound { statements } => {
            statements_have_no_invalid_node(statements, scope);
        },
        _ => {},
    }
}

/// The run of a list of statements finds no node that stands where it cannot.
pub proof fn statements_have_no_invalid_node(nodes: Seq<SpecAst>, scope: Scope)
    requires
        are_statements(nodes),
    ensures
        execute_all(nodes, scope).error matches Some(e) ==> !is_invalid_node(e),
    decreases nodes, 1int,
{
    if nodes.len() > 0 {
        statement_has_no_invalid_node(nodes[0], scope);
        statements_have_no_invalid_node(nodes.drop_first(), execute(nodes[0], scope).scope);
    }
}

/// The declarations of a block run without an effect and without an error.
pub proof fn declarations_do_nothing(nodes: Seq<SpecAst>, allowed: bool, scope: Scope)
    requires
        are_declarations(nodes, allowed),
    ensures
        execute_all(nodes, scope) == (Run { scope, error: None }),
    decreases nodes.len(),
{
    if nodes.len() > 0 {
        match nodes[0] {
            SpecAst::VariableDeclaration { .. } => {
                declarations_do_nothing(nodes.drop_first(), true, scope);
            },
            SpecAst::ProcedureDeclaration { .. } => {
                declarations_do_nothing(nodes.drop_first(), false, scope);
            },
            _ => {},
        }
        assert(execute(nodes[0], scope) == (Run { scope, error: None }));
    }
}

/// The run of a program finds no node that stands where it cannot.
pub proof fn program_has_no_invalid_node(tree: SpecAst, scope: Scope)
    requires
        is_program(tree),
    ensures
        execute(tree, scope).error matches Some(e) ==> !is_invalid_node(e),
{
    reveal_with_fuel(execute, 3);
    match tree {
        SpecAst::Program { block, .. } => {
            match *block {
                SpecAst::Block { declarations, compound_statements } => {
                    declarations_do_nothing(declarations, true, scope);
                    statement_has_no_invalid_node(*compound_statements, scope);
                },
                _ => {},
            }
        },
        _ => {},
    }
}

/// What the parser builds, the interpreter can run: the run of a parsed
/// program never stops at a node that stands where it cannot.
pub proof fn parsed_program_has_no_invalid_node(st: Stream, i: int, scope: Scope)
    ensures
        parse_from(st, i) matches Ok(tree) ==> (execute(tree, scope).error matches Some(e)
            ==> !is_invalid_node(e)),
{
    parsed_program_is_program(st, i);
    if let Ok(tree) = parse_from(st, i) {
        program_has_no_invalid_node(tree, scope);
    }
}

} // verus!
