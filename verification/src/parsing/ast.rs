//! The abstract syntax tree.

use crate::reals::Real;
use vstd::prelude::*;
use vstd::string::StringExecFns;

verus! {

/// One of the two built-in types, as a declaration names it.
#[derive(Clone, Copy, Debug, PartialEq, Eq, Structural)]
pub enum TypeSpec {
    Integer,
    Real,
}

/// A variable, by its name as written.
#[derive(Clone, Debug, PartialEq)]
pub struct Variable {
    pub name: String,
}

/// A node of the tree. Each node owns its subtrees.
#[derive(Debug, PartialEq)]
pub enum Ast {
    Add(Box<Ast>, Box<Ast>),
    Subtract(Box<Ast>, Box<Ast>),
    Multiply(Box<Ast>, Box<Ast>),
    IntegerDivide(Box<Ast>, Box<Ast>),
    RealDivide(Box<Ast>, Box<Ast>),
    IntegerConstant(i32),
    RealConstant(Real),
    PositiveUnary(Box<Ast>),
    NegativeUnary(Box<Ast>),
    Program { name: String, block: Box<Ast> },
    Block { declarations: Vec<Ast>, compound_statements: Box<Ast> },
    ProcedureDeclaration { name: String, block: Box<Ast> },
    VariableDeclaration { variable: Box<Ast>, type_spec: Box<Ast> },
    Type(TypeSpec),
    Compound { statements: Vec<Ast> },
    Variable(Variable),
    Assign(Variable, Box<Ast>),
    NoOp,
}

/// The mathematical value of a tree: the same shape, with names as
/// sequences of characters and lists of nodes as sequences.
pub enum SpecAst {
    Add(Box<SpecAst>, Box<SpecAst>),
    Subtract(Box<SpecAst>, Box<SpecAst>),
    Multiply(Box<SpecAst>, Box<SpecAst>),
    IntegerDivide(Box<SpecAst>, Box<SpecAst>),
    RealDivide(Box<SpecAst>, Box<SpecAst>),
    IntegerConstant(i32),
    RealConstant(Real),
    PositiveUnary(Box<SpecAst>),
    NegativeUnary(Box<SpecAst>),
    Program { name: Seq<char>, block: Box<SpecAst> },
    Block { declarations: Seq<SpecAst>, compound_statements: Box<SpecAst> },
    ProcedureDeclaration { name: Seq<char>, block: Box<SpecAst> },
    VariableDeclaration { variable: Box<SpecAst>, type_spec: Box<SpecAst> },
    Type(TypeSpec),
    Compound { statements: Seq<SpecAst> },
    Variable(Seq<char>),
    Assign(Seq<char>, Box<SpecAst>),
    NoOp,
}

/// The value of a tree.
pub open spec fn ast_view(node: Ast) -> SpecAst
    decreases node, 0int,
{
    match node {
        Ast::Add(l, r) => SpecAst::Add(Box::new(ast_view(*l)), Box::new(ast_view(*r))),
        Ast::Subtract(l, r) => SpecAst::Subtract(Box::new(ast_view(*l)), Box::new(ast_view(*r))),
        Ast::Multiply(l, r) => SpecAst::Multiply(Box::new(ast_view(*l)), Box::new(ast_view(*r))),
        Ast::IntegerDivide(l, r) => SpecAst::IntegerDivide(
            Box::new(ast_view(*l)),
            Box::new(ast_view(*r)),
        ),
        Ast::RealDivide(l, r) => SpecAst::RealDivide(
            Box::new(ast_view(*l)),
            Box::new(ast_view(*r)),
        ),
        Ast::IntegerConstant(i) => SpecAst::IntegerConstant(i),
        Ast::RealConstant(r) => SpecAst::RealConstant(r),
        Ast::PositiveUnary(inner) => SpecAst::PositiveUnary(Box::new(ast_view(*inner))),
        Ast::NegativeUnary(inner) => SpecAst::NegativeUnary(Box::new(ast_view(*inner))),
        Ast::Program { name, block } => SpecAst::Program {
            name: name@,
            block: Box::new(ast_view(*block)),
        },
        Ast::Block { declarations, compound_statements } => SpecAst::Block {
            declarations: ast_views(declarations@),
            compound_statements: Box::new(ast_view(*compound_statements)),
        },
        Ast::ProcedureDeclaration { name, block } => SpecAst::ProcedureDeclaration {
            name: name@,
            block: Box::new(ast_view(*block)),
        },
        Ast::VariableDeclaration { variable, type_spec } => SpecAst::VariableDeclaration {
            variable: Box::new(ast_view(*variable)),
            type_spec: Box::new(ast_view(*type_spec)),
        },
        Ast::Type(t) => SpecAst::Type(t),
        Ast::Compound { statements } => SpecAst::Compound { statements: ast_views(statements@) },
        Ast::Variable(v) => SpecAst::Variable(v.name@),
        Ast::Assign(v, expr) => SpecAst::Assign(v.name@, Box::new(ast_view(*expr))),
        Ast::NoOp => SpecAst::NoOp,
    }
}

/// The values of a list of trees, in order.
pub open spec fn ast_views(nodes: Seq<Ast>) -> Seq<SpecAst>
    decreases nodes, 1int,
{
    if nodes.len() == 0 {
        Seq::empty()
    } else {
        ast_views(nodes.drop_last()).push(ast_view(nodes.last()))
    }
}

impl View for Ast {
    type V = SpecAst;

    open spec fn view(&self) -> SpecAst {
        ast_view(*self)
    }
}

/// `ast_views` keeps the length and maps each tree to its value.
pub proof fn lemma_ast_views(nodes: Seq<Ast>)
    ensures
        ast_views(nodes).len() == nodes.len(),
        forall|i: int|
            0 <= i < nodes.len() ==> #[trigger] ast_views(nodes)[i] == ast_view(nodes[i]),
    decreases nodes.len(),
{
    if nodes.len() > 0 {
        lemma_ast_views(nodes.drop_last());
    }
}

/// The values of a list with one more tree at its end.
pub proof fn lemma_ast_views_push(nodes: Seq<Ast>, node: Ast)
    ensures
        ast_views(nodes.push(node)) == ast_views(nodes).push(ast_view(node)),
{
    assert(nodes.push(node).drop_last() =~= nodes);
}

/// Which variant a node is.
#[derive(Clone, Copy, Debug, PartialEq, Eq, Structural)]
pub enum NodeKind {
    Add,
    Subtract,
    Multiply,
    IntegerDivide,
    RealDivide,
    IntegerConstant,
    RealConstant,
    PositiveUnary,
    NegativeUnary,
    Program,
    Block,
    ProcedureDeclaration,
    VariableDeclaration,
    Type,
    Compound,
    Variable,
    Assign,
    NoOp,
}

/// The variant of a tree's root.
pub open spec fn kind_of(node: SpecAst) -> NodeKind {
    match node {
        SpecAst::Add(_, _) => NodeKind::Add,
        SpecAst::Subtract(_, _) => NodeKind::Subtract,
        SpecAst::Multiply(_, _) => NodeKind::Multiply,
        SpecAst::IntegerDivide(_, _) => NodeKind::IntegerDivide,
        SpecAst::RealDivide(_, _) => NodeKind::RealDivide,
        SpecAst::IntegerConstant(_) => NodeKind::IntegerConstant,
        SpecAst::RealConstant(_) => NodeKind::RealConstant,
        SpecAst::PositiveUnary(_) => NodeKind::PositiveUnary,
        SpecAst::NegativeUnary(_) => NodeKind::NegativeUnary,
        SpecAst::Program { .. } => NodeKind::Program,
        SpecAst::Block { .. } => NodeKind::Block,
        SpecAst::ProcedureDeclaration { .. } => NodeKind::ProcedureDeclaration,
        SpecAst::VariableDeclaration { .. } => NodeKind::VariableDeclaration,
        SpecAst::Type(_) => NodeKind::Type,
        SpecAst::Compound { .. } => NodeKind::Compound,
        SpecAst::Variable(_) => NodeKind::Variable,
        SpecAst::Assign(_, _) => NodeKind::Assign,
        SpecAst::NoOp => NodeKind::NoOp,
    }
}

/// Whether a tree is an expression: constants and variables under
/// arithmetic operators.
pub open spec fn is_expression(node: SpecAst) -> bool
    decreases node,
{
    match node {
        SpecAst::Add(l, r)
        | SpecAst::Subtract(l, r)
        | SpecAst::Multiply(l, r)
        | SpecAst::IntegerDivide(l, r)
        | SpecAst::RealDivide(l, r) => is_expression(*l) && is_expression(*r),
        SpecAst::PositiveUnary(inner) | SpecAst::NegativeUnary(inner) => is_expression(*inner),
        SpecAst::IntegerConstant(_) | SpecAst::RealConstant(_) | SpecAst::Variable(_) => true,
        _ => false,
    }
}

/// Whether a node declares a variable: a variable declaration that holds a
/// variable and a type.
pub open spec fn is_declaration(node: SpecAst) -> bool {
    node matches SpecAst::VariableDeclaration { variable, type_spec } && *variable is Variable
        && *type_spec is Type
}

/// The name that a declaration declares.
pub open spec fn declared_name(node: SpecAst) -> Seq<char> {
    match node {
        SpecAst::VariableDeclaration { variable, .. } => match *variable {
            SpecAst::Variable(name) => name,
            _ => Seq::empty(),
        },
        _ => Seq::empty(),
    }
}

/// Whether a tree is a statement as the parser builds one: the empty
/// statement, the assignment of an expression, or a compound statement of
/// one or more statements.
pub open spec fn is_statement(node: SpecAst) -> bool
    decreases node, 0int,
{
    match node {
        SpecAst::NoOp => true,
        SpecAst::Assign(_, value) => is_expression(*value),
        SpecAst::Compound { statements } => statements.len() >= 1 && are_statements(statements),
        _ => false,
    }
}

/// Whether every tree of a list is a statement.
pub open spec fn are_statements(nodes: Seq<SpecAst>) -> bool
    decreases nodes, 1int,
{
    nodes.len() == 0 || (is_statement(nodes[0]) && are_statements(nodes.drop_first()))
}

/// Whether a tree is a block as the parser builds one: declarations of
/// variables, then procedures, then a compound statement.
pub open spec fn is_block(node: SpecAst) -> bool
    decreases node, 0int,
{
    match node {
        SpecAst::Block { declarations, compound_statements } => *compound_statements is Compound
            && is_statement(*compound_statements) && are_declarations(declarations, true),
        _ => false,
    }
}

/// Whether the trees of a list are the declarations of a block: variables,
/// where `variables_allowed`, then procedures.
pub open spec fn are_declarations(nodes: Seq<SpecAst>, variables_allowed: bool) -> bool
    decreases nodes, 1int,
{
    nodes.len() == 0 || match nodes[0] {
        SpecAst::VariableDeclaration { .. } => variables_allowed && is_declaration(nodes[0])
            && are_declarations(nodes.drop_first(), true),
        SpecAst::ProcedureDeclaration { block, .. } => is_block(*block) && are_declarations(
            nodes.drop_first(),
            false,
        ),
        _ => false,
    }
}

/// Whether a tree is a program as the parser builds one.
pub open spec fn is_program(node: SpecAst) -> bool {
    node matches SpecAst::Program { block, .. } && is_block(*block)
}

/// Why a node is not what the caller took it for.
#[derive(Clone, Copy, Debug, PartialEq, Eq)]
pub enum AstError {
    /// The node is no variable.
    ExpectedVariable,
    /// The node is no type.
    ExpectedTypeSpec,
}

impl Ast {
    /// Which variant this node is.
    pub fn kind(&self) -> (kind: NodeKind)
        ensures
            kind == kind_of(self@),
    {
        match self {
            Ast::Add(_, _) => NodeKind::Add,
            Ast::Subtract(_, _) => NodeKind::Subtract,
            Ast::Multiply(_, _) => NodeKind::Multiply,
            Ast::IntegerDivide(_, _) => NodeKind::IntegerDivide,
            Ast::RealDivide(_, _) => NodeKind::RealDivide,
            Ast::IntegerConstant(_) => NodeKind::IntegerConstant,
            Ast::RealConstant(_) => NodeKind::RealConstant,
            Ast::PositiveUnary(_) => NodeKind::PositiveUnary,
            Ast::NegativeUnary(_) => NodeKind::NegativeUnary,
            Ast::Program { .. } => NodeKind::Program,
            Ast::Block { .. } => NodeKind::Block,
            Ast::ProcedureDeclaration { .. } => NodeKind::ProcedureDeclaration,
            Ast::VariableDeclaration { .. } => NodeKind::VariableDeclaration,
            Ast::Type(_) => NodeKind::Type,
            Ast::Compound { .. } => NodeKind::Compound,
            Ast::Variable(_) => NodeKind::Variable,
            Ast::Assign(_, _) => NodeKind::Assign,
            Ast::NoOp => NodeKind::NoOp,
        }
    }

    /// The variable that this node is, if it is one.
    pub fn variable(&self) -> (r: Result<&Variable, AstError>)
        ensures
            match *self {
                Ast::Variable(v) => r == Ok::<&Variable, AstError>(&v),
                _ => r == Err::<&Variable, AstError>(AstError::ExpectedVariable),
            },
    {
        match self {
            Ast::Variable(variable) => Ok(variable),
            _ => Err(AstError::ExpectedVariable),
        }
    }

    /// The type that this node is, if it is one.
    pub fn type_spec(&self) -> (r: Result<&TypeSpec, AstError>)
        ensures
            match *self {
                Ast::Type(t) => r == Ok::<&TypeSpec, AstError>(&t),
                _ => r == Err::<&TypeSpec, AstError>(AstError::ExpectedTypeSpec),
            },
    {
        match self {
            Ast::Type(type_spec) => Ok(type_spec),
            _ => Err(AstError::ExpectedTypeSpec),
        }
    }
}

/// The name under which a built-in type is known.
pub open spec fn builtin_name(type_spec: TypeSpec) -> Seq<char> {
    match type_spec {
        TypeSpec::Integer => "Integer"@,
        TypeSpec::Real => "Real"@,
    }
}

impl TypeSpec {
    /// A type node for this type.
    pub fn to_ast_clone(&self) -> (node: Ast)
        ensures
            node == Ast::Type(*self),
    {
        Ast::Type(*self)
    }

    /// The name under which this type is known: `Integer` or `Real`.
    pub fn name(&self) -> (name: String)
        ensures
            name@ == builtin_name(*self),
    {
        match self {
            TypeSpec::Integer => String::from_str("Integer"),
            TypeSpec::Real => String::from_str("Real"),
        }
    }
}

} // verus!
