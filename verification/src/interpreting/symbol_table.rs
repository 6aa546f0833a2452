//! The symbol table: the built-in types and the declared variables of a
//! program, filled by one walk over its tree that rejects a program which
//! uses a name it has not declared or declares a name twice.

use crate::interpreting::name_map::{folded, NameMap};
use crate::parsing::ast::{
    are_declarations, are_statements, ast_view, ast_views, builtin_name, declared_name,
    is_declaration, is_expression, is_program, is_statement, lemma_ast_views, Ast, AstError,
    SpecAst, TypeSpec,
};
use vstd::prelude::*;
use vstd::string::StringExecFns;

verus! {

/// The types that every program knows.
#[derive(Clone, Copy, Debug, PartialEq, Eq, Structural)]
pub enum BuiltInTypes {
    Integer,
    Real,
}

/// An entry of the symbol table.
#[derive(Clone, Debug, PartialEq)]
pub enum Symbol {
    /// A built-in type.
    BuiltIn(BuiltInTypes),
    /// A declared variable, with the name of its type.
    Variable { name: String, var_type: String },
}

/// The mathematical value of a `Symbol`.
pub enum SpecSymbol {
    BuiltIn(BuiltInTypes),
    Variable { name: Seq<char>, var_type: Seq<char> },
}

impl View for Symbol {
    type V = SpecSymbol;

    open spec fn view(&self) -> SpecSymbol {
        match self {
            Symbol::BuiltIn(t) => SpecSymbol::BuiltIn(*t),
            Symbol::Variable { name, var_type } => SpecSymbol::Variable {
                name: name@,
                var_type: var_type@,
            },
        }
    }
}

/// The name of a built-in type.
pub open spec fn builtin_text(t: BuiltInTypes) -> Seq<char> {
    match t {
        BuiltInTypes::Integer => builtin_name(TypeSpec::Integer),
        BuiltInTypes::Real => builtin_name(TypeSpec::Real),
    }
}

/// The name under which a symbol is filed.
pub open spec fn symbol_key(symbol: SpecSymbol) -> Seq<char> {
    match symbol {
        SpecSymbol::BuiltIn(t) => builtin_text(t),
        SpecSymbol::Variable { name, .. } => name,
    }
}

/// A symbol written out: the name of a built-in type, `<name:type>` for a variable.
pub open spec fn symbol_text(symbol: SpecSymbol) -> Seq<char> {
    match symbol {
        SpecSymbol::BuiltIn(t) => builtin_text(t),
        SpecSymbol::Variable { name, var_type } => "<"@ + name + ":"@ + var_type + ">"@,
    }
}

impl BuiltInTypes {
    /// The name of the type: `Integer` or `Real`.
    pub fn name(&self) -> (name: String)
        ensures
            name@ == builtin_text(*self),
    {
        match self {
            BuiltInTypes::Integer => TypeSpec::Integer.name(),
            BuiltInTypes::Real => TypeSpec::Real.name(),
        }
    }
}

impl Symbol {
    /// The name under which the symbol is filed in the table.
    pub fn symbol_table_key(&self) -> (key: String)
        ensures
            key@ == symbol_key(self@),
    {
        match self {
            Symbol::BuiltIn(x) => x.name(),
            Symbol::Variable { name, .. } => name.clone(),
        }
    }

    /// A symbol with the same value as this one.
    pub fn duplicate(&self) -> (copy: Symbol)
        ensures
            copy@ == self@,
    {
        match self {
            Symbol::BuiltIn(x) => Symbol::BuiltIn(*x),
            Symbol::Variable { name, var_type } => Symbol::Variable {
                name: name.clone(),
                var_type: var_type.clone(),
            },
        }
    }

    /// The symbol written out: the name of a built-in type, `<name:type>`
    /// for a variable.
    pub fn to_text(&self) -> (text: String)
        ensures
            text@ == symbol_text(self@),
    {
        match self {
            Symbol::BuiltIn(x) => x.name(),
            Symbol::Variable { name, var_type } => {
                let mut text = String::from_str("<");
                text.append(name.as_str());
                text.append(":");
                text.append(var_type.as_str());
                text.append(">");
                text
            },
        }
    }
}

/// One step of the walk, as the table records it in verbose mode.
#[derive(Clone, Debug, PartialEq)]
pub enum TraceEvent {
    /// A symbol was about to be defined.
    Define(Symbol),
    /// A name was looked up.
    Lookup(String),
}

/// The mathematical value of a `TraceEvent`.
pub enum SpecTraceEvent {
    Define(SpecSymbol),
    Lookup(Seq<char>),
}

impl View for TraceEvent {
    type V = SpecTraceEvent;

    open spec fn view(&self) -> SpecTraceEvent {
        match self {
            TraceEvent::Define(symbol) => SpecTraceEvent::Define(symbol@),
            TraceEvent::Lookup(name) => SpecTraceEvent::Lookup(name@),
        }
    }
}

/// Why a program is rejected.
#[derive(Clone, Debug, PartialEq)]
pub enum SemanticError {
    /// A declaration names a type that the table does not hold.
    UnknownType { name: String },
    /// A name is declared, or defined, that the table holds already.
    DuplicateIdentifier { name: String },
    /// An assignment to a name that the table does not hold.
    UnknownAssignmentTarget { name: String },
    /// A use of a name that the table does not hold.
    UnknownVariable { name: String },
    /// A declaration whose parts are not a variable and a type.
    Malformed(AstError),
}

/// The mathematical value of a `SemanticError`.
pub enum SpecSemanticError {
    UnknownType { name: Seq<char> },
    DuplicateIdentifier { name: Seq<char> },
    UnknownAssignmentTarget { name: Seq<char> },
    UnknownVariable { name: Seq<char> },
    Malformed(AstError),
}

impl View for SemanticError {
    type V = SpecSemanticError;

    open spec fn view(&self) -> SpecSemanticError {
        match self {
            SemanticError::UnknownType { name } => SpecSemanticError::UnknownType { name: name@ },
            SemanticError::DuplicateIdentifier { name } => SpecSemanticError::DuplicateIdentifier {
                name: name@,
            },
            SemanticError::UnknownAssignmentTarget {
                name,
            } => SpecSemanticError::UnknownAssignmentTarget { name: name@ },
            SemanticError::UnknownVariable { name } => SpecSemanticError::UnknownVariable {
                name: name@,
            },
            SemanticError::Malformed(e) => SpecSemanticError::Malformed(*e),
        }
    }
}

/// The text of an error.
pub open spec fn semantic_message(e: SpecSemanticError) -> Seq<char> {
    match e {
        SpecSemanticError::UnknownType { name } => "Unknown type: "@ + name,
        SpecSemanticError::DuplicateIdentifier { name } => "Duplicate Identifier: "@ + name,
        SpecSemanticError::UnknownAssignmentTarget { name } => "Unknown variable to assign to: "@
            + name,
        SpecSemanticError::UnknownVariable { name } => "Unknown variable: "@ + name,
        SpecSemanticError::Malformed(AstError::ExpectedVariable) => "Expected a variable"@,
        SpecSemanticError::Malformed(AstError::ExpectedTypeSpec) => "Expected a type spec"@,
    }
}

impl SemanticError {
    /// The error in words, with the name that it is about.
    pub fn message(&self) -> (text: String)
        ensures
            text@ == semantic_message(self@),
    {
        match self {
            SemanticError::UnknownType { name } => String::from_str("Unknown type: ").concat(
                name.as_str(),
            ),
            SemanticError::DuplicateIdentifier { name } => String::from_str(
                "Duplicate Identifier: ",
            ).concat(name.as_str()),
            SemanticError::UnknownAssignmentTarget { name } => String::from_str(
                "Unknown variable to assign to: ",
            ).concat(name.as_str()),
            SemanticError::UnknownVariable { name } => String::from_str(
                "Unknown variable: ",
            ).concat(name.as_str()),
            SemanticError::Malformed(AstError::ExpectedVariable) => String::from_str(
                "Expected a variable",
            ),
            SemanticError::Malformed(AstError::ExpectedTypeSpec) => String::from_str(
                "Expected a type spec",
            ),
        }
    }
}

/// The mathematical value of a symbol table: its symbols, each by the folded
/// form of its name; whether it records its steps; and the steps recorded.
pub struct TableModel {
    pub symbols: Map<Seq<char>, SpecSymbol>,
    pub verbose: bool,
    pub trace: Seq<SpecTraceEvent>,
}

/// The table that holds nothing yet.
pub open spec fn empty_table(verbose: bool) -> TableModel {
    TableModel { symbols: Map::empty(), verbose, trace: Seq::empty() }
}

/// Whether the table holds a symbol for `name`, in any case.
pub open spec fn known(table: TableModel, name: Seq<char>) -> bool {
    table.symbols.dom().contains(folded(name))
}

/// The table after a lookup of `name`: in verbose mode the lookup is recorded.
pub open spec fn looked_up(table: TableModel, name: Seq<char>) -> TableModel {
    if table.verbose {
        TableModel { trace: table.trace.push(SpecTraceEvent::Lookup(name)), ..table }
    } else {
        table
    }
}

/// The table after an attempt to define `symbol`: in verbose mode the
/// attempt is recorded.
pub open spec fn announced(table: TableModel, symbol: SpecSymbol) -> TableModel {
    if table.verbose {
        TableModel { trace: table.trace.push(SpecTraceEvent::Define(symbol)), ..table }
    } else {
        table
    }
}

/// Where a walk ends: the table that it leaves, and the error that stopped
/// it, if one did.
pub struct Walk {
    pub table: TableModel,
    pub error: Option<SpecSemanticError>,
}

/// A walk that went through, and leaves `table`.
pub open spec fn passed(table: TableModel) -> Walk {
    Walk { table, error: None }
}

/// A walk that stopped at the error `e`, and leaves `table`.
pub open spec fn failed(table: TableModel, e: SpecSemanticError) -> Walk {
    Walk { table, error: Some(e) }
}

/// Defining `symbol`: it is filed under its name, unless the table holds
/// that name already, in any case.
pub open spec fn defined(table: TableModel, symbol: SpecSymbol) -> Walk {
    if known(table, symbol_key(symbol)) {
        failed(
            announced(table, symbol),
            SpecSemanticError::DuplicateIdentifier { name: symbol_key(symbol) },
        )
    } else {
        passed(
            TableModel {
                symbols: table.symbols.insert(folded(symbol_key(symbol)), symbol),
                ..announced(table, symbol)
            },
        )
    }
}

/// Declaring a variable: its type is looked up, and has to be known; then
/// its name is looked up, and must not be known; then it is defined.
pub open spec fn declared(table: TableModel, variable: SpecAst, type_spec: SpecAst) -> Walk {
    match type_spec {
        SpecAst::Type(t) => {
            let type_text = builtin_name(t);
            let after_type = looked_up(table, type_text);
            if !known(table, type_text) {
                failed(after_type, SpecSemanticError::UnknownType { name: type_text })
            } else {
                match variable {
                    SpecAst::Variable(name) => if known(table, name) {
                        failed(
                            looked_up(after_type, name),
                            SpecSemanticError::DuplicateIdentifier { name },
                        )
                    } else {
                        defined(
                            looked_up(after_type, name),
                            SpecSymbol::Variable { name, var_type: type_text },
                        )
                    },
                    _ => failed(
                        after_type,
                        SpecSemanticError::Malformed(AstError::ExpectedVariable),
                    ),
                }
            }
        },
        _ => failed(table, SpecSemanticError::Malformed(AstError::ExpectedTypeSpec)),
    }
}

/// Using the variable `name`: it is looked up, and has to be known.
pub open spec fn used(table: TableModel, name: Seq<char>) -> Walk {
    if known(table, name) {
        passed(looked_up(table, name))
    } else {
        failed(looked_up(table, name), SpecSemanticError::UnknownVariable { name })
    }
}

/// Assigning to the variable `name`: it is looked up, and has to be known.
pub open spec fn assigned(table: TableModel, name: Seq<char>) -> Walk {
    if known(table, name) {
        passed(looked_up(table, name))
    } else {
        failed(looked_up(table, name), SpecSemanticError::UnknownAssignmentTarget { name })
    }
}

/// The walk over a tree, from the table `table`. Declarations define
/// variables; uses and assignments look them up; a procedure is passed over;
/// the rest is walked part by part, from left to right. The walk stops at
/// the first error, and leaves the table as it was then.
pub open spec fn walk(node: SpecAst, table: TableModel) -> Walk
    decreases node, 0int,
{
    match node {
        SpecAst::Add(l, r)
        | SpecAst::Subtract(l, r)
        | SpecAst::Multiply(l, r)
        | SpecAst::IntegerDivide(l, r)
        | SpecAst::RealDivide(l, r) => {
            let left = walk(*l, table);
            if left.error is Some {
                left
            } else {
                walk(*r, left.table)
            }
        },
        SpecAst::IntegerConstant(_) | SpecAst::RealConstant(_) => passed(table),
        SpecAst::PositiveUnary(inner) | SpecAst::NegativeUnary(inner) => walk(*inner, table),
        SpecAst::Program { block, .. } => walk(*block, table),
        SpecAst::ProcedureDeclaration { .. } => passed(table),
        SpecAst::Block { declarations, compound_statements } => {
            let declared = walk_all(declarations, table);
            if declared.error is Some {
                declared
            } else {
                walk(*compound_statements, declared.table)
            }
        },
        SpecAst::VariableDeclaration { variable, type_spec } => declared(
            table,
            *variable,
            *type_spec,
        ),
        SpecAst::Compound { statements } => walk_all(statements, table),
        SpecAst::Assign(name, value) => {
            let valued = walk(*value, table);
            if valued.error is Some {
                valued
            } else {
                assigned(valued.table, name)
            }
        },
        SpecAst::Variable(name) => used(table, name),
        SpecAst::Type(_) | SpecAst::NoOp => passed(table),
    }
}

/// The walk over a list of trees, one after the other, up to the first error.
pub open spec fn walk_all(nodes: Seq<SpecAst>, table: TableModel) -> Walk
    decreases nodes, 1int,
{
    if nodes.len() == 0 {
        passed(table)
    } else {
        let first = walk(nodes[0], table);
        if first.error is Some {
            first
        } else {
            walk_all(nodes.drop_first(), first.table)
        }
    }
}

/// The table with the built-in types `Integer` and `Real`, as far as they
/// could be defined.
pub open spec fn seeded(verbose: bool) -> Walk {
    let first = defined(empty_table(verbose), SpecSymbol::BuiltIn(BuiltInTypes::Integer));
    if first.error is Some {
        first
    } else {
        defined(first.table, SpecSymbol::BuiltIn(BuiltInTypes::Real))
    }
}

/// The table of a program: the built-in types `Integer` and `Real`, then
/// what the walk over the program adds; or the first error.
pub open spec fn table_of(program: SpecAst, verbose: bool) -> Result<
    TableModel,
    SpecSemanticError,
> {
    match seeded(verbose).error {
        Some(e) => Err(e),
        None => match walk(program, seeded(verbose).table).error {
            Some(e) => Err(e),
            None => Ok(walk(program, seeded(verbose).table).table),
        },
    }
}

/// The symbols of a map of names, each as its mathematical value.
pub open spec fn symbols_view(symbols: Map<Seq<char>, Symbol>) -> Map<Seq<char>, SpecSymbol> {
    Map::new(|key: Seq<char>| symbols.dom().contains(key), |key: Seq<char>| symbols[key]@)
}

/// The steps of a list of events, each as its mathematical value.
pub open spec fn trace_view(trace: Seq<TraceEvent>) -> Seq<SpecTraceEvent> {
    Seq::new(trace.len(), |i: int| trace[i]@)
}

/// The symbol table.
pub struct SymbolTable {
    pub symbols: NameMap<Symbol>,
    verbose: bool,
    trace: Vec<TraceEvent>,
}

impl View for SymbolTable {
    type V = TableModel;

    closed spec fn view(&self) -> TableModel {
        TableModel {
            symbols: symbols_view(self.symbols@),
            verbose: self.verbose,
            trace: trace_view(self.trace@),
        }
    }
}

impl SymbolTable {
    /// The map of the symbols is well formed.
    pub closed spec fn wf(&self) -> bool {
        self.symbols.wf()
    }

    /// A table without symbols.
    pub fn new(verbose: bool) -> (table: SymbolTable)
        ensures
            table.wf(),
            table@ == empty_table(verbose),
    {
        let table = SymbolTable { symbols: NameMap::new(), verbose, trace: Vec::new() };
        assert(table@.symbols =~= Map::<Seq<char>, SpecSymbol>::empty());
        assert(table@.trace =~= Seq::<SpecTraceEvent>::empty());
        table
    }

    /// Whether the table records its steps.
    pub fn verbose(&self) -> (verbose: bool)
        ensures
            verbose == self@.verbose,
    {
        self.verbose
    }

    /// The steps recorded so far: none unless the table is verbose.
    pub fn trace(&self) -> (trace: &Vec<TraceEvent>)
        ensures
            trace_view(trace@) == self@.trace,
    {
        &self.trace
    }

    /// Files `symbol` under its name; fails if the table holds the name already.
    pub fn define(&mut self, symbol: Symbol) -> (r: Result<(), SemanticError>)
        requires
            old(self).wf(),
        ensures
            final(self).wf(),
            final(self)@ == defined(old(self)@, symbol@).table,
            match defined(old(self)@, symbol@).error {
                None => r is Ok,
                Some(e) => r matches Err(x) && x@ == e,
            },
    {
        if self.verbose {
            let ghost before = trace_view(self.trace@);
            self.trace.push(TraceEvent::Define(symbol.duplicate()));
            assert(trace_view(self.trace@) =~= before.push(SpecTraceEvent::Define(symbol@)));
        }
        let key = symbol.symbol_table_key();
        if self.symbols.contains_key(key.as_str()) {
            assert(final(self)@.symbols =~= old(self)@.symbols);
            Err(SemanticError::DuplicateIdentifier { name: key })
        } else {
            self.symbols.insert(key, symbol);
            assert(final(self)@.symbols =~= old(self)@.symbols.insert(
                folded(symbol_key(symbol@)),
                symbol@,
            ));
            Ok(())
        }
    }

    /// The symbol filed under `name`, in any case, if there is one.
    pub fn lookup(&mut self, name: &str) -> (symbol: Option<Symbol>)
        requires
            old(self).wf(),
        ensures
            final(self).wf(),
            final(self)@ == looked_up(old(self)@, name@),
            match symbol {
                Some(s) => known(old(self)@, name@) && s@ == old(self)@.symbols[folded(name@)],
                None => !known(old(self)@, name@),
            },
    {
        if self.verbose {
            let ghost before = trace_view(self.trace@);
            self.trace.push(TraceEvent::Lookup(String::from_str(name)));
            assert(trace_view(self.trace@) =~= before.push(SpecTraceEvent::Lookup(name@)));
        }
        match self.symbols.get(name) {
            Some(symbol) => Some(symbol.duplicate()),
            None => None,
        }
    }

    /// The table of `program`: the built-in types, and the variables that
    /// the program declares. Fails with the first fault of the program.
    pub fn build_for(program: &Ast, verbose: bool) -> (r: Result<SymbolTable, SemanticError>)
        ensures
            match table_of(program@, verbose) {
                Ok(table) => r matches Ok(t) && t.wf() && t@ == table,
                Err(e) => r matches Err(x) && x@ == e,
            },
    {
        let mut symbol_table = SymbolTable::new(verbose);
        symbol_table.define(Symbol::BuiltIn(BuiltInTypes::Integer))?;
        symbol_table.define(Symbol::BuiltIn(BuiltInTypes::Real))?;
        build_symbol_table(&mut symbol_table, program)?;
        Ok(symbol_table)
    }
}

/// Walks `node` and the nodes under it, and adds to `symbols` what they
/// declare. Fails with the first fault; the table then holds what was added
/// before it.
pub fn build_symbol_table(symbols: &mut SymbolTable, node: &Ast) -> (r: Result<(), SemanticError>)
    requires
        old(symbols).wf(),
    ensures
        final(symbols).wf(),
        final(symbols)@ == walk(node@, old(symbols)@).table,
        match walk(node@, old(symbols)@).error {
            None => r is Ok,
            Some(e) => r matches Err(x) && x@ == e,
        },
    decreases node,
{
    match node {
        Ast::Add(l, r)
        | Ast::Subtract(l, r)
        | Ast::Multiply(l, r)
        | Ast::IntegerDivide(l, r)
        | Ast::RealDivide(l, r) => {
            build_symbol_table(symbols, l)?;
            build_symbol_table(symbols, r)
        },
        Ast::IntegerConstant(_) | Ast::RealConstant(_) => Ok(()),
        Ast::PositiveUnary(inner) => build_symbol_table(symbols, inner),
        Ast::NegativeUnary(inner) => build_symbol_table(symbols, inner),
        Ast::Program { block, .. } => build_symbol_table(symbols, block),
        Ast::ProcedureDeclaration { .. } => Ok(()),
        Ast::Block { declarations, compound_statements } => {
            build_for_each(symbols, declarations)?;
            build_symbol_table(symbols, compound_statements)
        },
        Ast::VariableDeclaration { variable, type_spec: type_spec_node } => {
            proof {
                reveal_with_fuel(ast_view, 2);
            }
            let variable_type = match type_spec_node.type_spec() {
                Ok(t) => t.name(),
                Err(e) => {
                    return Err(SemanticError::Malformed(e));
                },
            };
            if symbols.lookup(variable_type.as_str()).is_none() {
                return Err(SemanticError::UnknownType { name: variable_type });
            }
            let name = match variable.variable() {
                Ok(v) => v.name.clone(),
                Err(e) => {
                    return Err(SemanticError::Malformed(e));
                },
            };
            if symbols.lookup(name.as_str()).is_some() {
                return Err(SemanticError::DuplicateIdentifier { name });
            }
            symbols.define(Symbol::Variable { name, var_type: variable_type })
        },
        Ast::Compound { statements } => build_for_each(symbols, statements),
        Ast::Assign(variable, expr) => {
            build_symbol_table(symbols, expr)?;
            if symbols.lookup(variable.name.as_str()).is_none() {
                return Err(SemanticError::UnknownAssignmentTarget { name: variable.name.clone() });
            }
            Ok(())
        },
        Ast::Variable(variable) => {
            if symbols.lookup(variable.name.as_str()).is_none() {
                return Err(SemanticError::UnknownVariable { name: variable.name.clone() });
            }
            Ok(())
        },
        Ast::Type(_) | Ast::NoOp => Ok(()),
    }
}

/// Walks the nodes of a list, one after the other.
fn build_for_each(symbols: &mut SymbolTable, nodes: &Vec<Ast>) -> (r: Result<(), SemanticError>)
    requires
        old(symbols).wf(),
    ensures
        final(symbols).wf(),
        final(symbols)@ == walk_all(ast_views(nodes@), old(symbols)@).table,
        match walk_all(ast_views(nodes@), old(symbols)@).error {
            None => r is Ok,
            Some(e) => r matches Err(x) && x@ == e,
        },
    decreases nodes,
{
    let ghost views = ast_views(nodes@);
    proof {
        lemma_ast_views(nodes@);
        assert(views.skip(0) =~= views);
    }
    let mut i: usize = 0;
    while i < nodes.len()
        invariant
            i <= nodes.len(),
            symbols.wf(),
            views == ast_views(nodes@),
            views.len() == nodes.len(),
            forall|k: int| 0 <= k < nodes.len() ==> #[trigger] views[k] == ast_view(nodes@[k]),
            walk_all(views, old(symbols)@) == walk_all(views.skip(i as int), symbols@),
        decreases nodes.len() - i,
    {
        proof {
            assert(views.skip(i as int)[0] == views[i as int]);
            assert(views.skip(i as int).drop_first() =~= views.skip(i + 1));
        }
        build_symbol_table(symbols, &nodes[i])?;
        i += 1;
    }
    Ok(())
}

} // verus!

verus! {

/// Whether the table holds both built-in types.
pub open spec fn knows_built_in_types(table: TableModel) -> bool {
    known(table, builtin_name(TypeSpec::Integer)) && known(table, builtin_name(TypeSpec::Real))
}

/// The walk takes no symbol out of the table.
pub proof fn walk_keeps_symbols(node: SpecAst, table: TableModel)
    ensures
        table.symbols.dom().subset_of(walk(node, table).table.symbols.dom()),
    decreases node, 0int,
{
    match node {
        SpecAst::Add(l, r)
        | SpecAst::Subtract(l, r)
        | SpecAst::Multiply(l, r)
        | SpecAst::IntegerDivide(l, r)
        | SpecAst::RealDivide(l, r) => {
            walk_keeps_symbols(*l, table);
            walk_keeps_symbols(*r, walk(*l, table).table);
        },
        SpecAst::PositiveUnary(inner) | SpecAst::NegativeUnary(inner) => {
            walk_keeps_symbols(*inner, table);
        },
        SpecAst::Program { block, .. } => {
            walk_keeps_symbols(*block, table);
        },
        SpecAst::Block { declarations, compound_statements } => {
            walk_all_keeps_symbols(declarations, table);
            walk_keeps_symbols(*compound_statements, walk_all(declarations, table).table);
        },
        SpecAst::Compound { statements } => {
            walk_all_keeps_symbols(statements, table);
        },
        SpecAst::Assign(_, value) => {
            walk_keeps_symbols(*value, table);
        },
        _ => {},
    }
}

/// The walk over a list takes no symbol out of the table.
pub proof fn walk_all_keeps_symbols(nodes: Seq<SpecAst>, table: TableModel)
    ensures
        table.symbols.dom().subset_of(walk_all(nodes, table).table.symbols.dom()),
    decreases nodes, 1int,
{
    if nodes.len() > 0 {
        walk_keeps_symbols(nodes[0], table);
        walk_all_keeps_symbols(nodes.drop_first(), walk(nodes[0], table).table);
    }
}

/// Whether a node may stand among the declarations of a block: the
/// declaration of a variable, or a procedure.
pub open spec fn is_block_declaration(node: SpecAst) -> bool {
    is_declaration(node) || node is ProcedureDeclaration
}

/// A list of declarations in which one declares a name that the table holds
/// already, in any case, is rejected as declaring a name twice.
pub proof fn known_name_is_rejected(nodes: Seq<SpecAst>, table: TableModel, j: int)
    requires
        forall|k: int| 0 <= k < nodes.len() ==> is_block_declaration(#[trigger] nodes[k]),
        0 <= j < nodes.len(),
        is_declaration(nodes[j]),
        known(table, declared_name(nodes[j])),
        knows_built_in_types(table),
    ensures
        walk_all(nodes, table).error matches Some(e) && e is DuplicateIdentifier,
    decreases nodes.len(),
{
    let first = nodes[0];
    assert(is_block_declaration(first));
    if j > 0 {
        walk_keeps_symbols(first, table);
        if walk(first, table).error is None {
            let after = walk(first, table).table;
            let rest = nodes.drop_first();
            assert forall|k: int| 0 <= k < rest.len() implies is_block_declaration(
                #[trigger] rest[k],
            ) by {
                assert(rest[k] == nodes[k + 1]);
            }
            assert(rest[j - 1] == nodes[j]);
            known_name_is_rejected(rest, after, j - 1);
        }
    }
}

/// Declaring a name twice is rejected: a list of declarations in which two
/// declare the same name, in any case of its letters, fails as declaring a
/// name twice. The two may lie in different `VAR` sections: the parser hands
/// the declarations of all sections over as one list.
pub proof fn duplicate_declaration_is_rejected(
    nodes: Seq<SpecAst>,
    table: TableModel,
    i: int,
    j: int,
)
    requires
        forall|k: int| 0 <= k < nodes.len() ==> is_block_declaration(#[trigger] nodes[k]),
        0 <= i < j < nodes.len(),
        is_declaration(nodes[i]),
        is_declaration(nodes[j]),
        folded(declared_name(nodes[i])) == folded(declared_name(nodes[j])),
        knows_built_in_types(table),
    ensures
        walk_all(nodes, table).error matches Some(e) && e is DuplicateIdentifier,
    decreases nodes.len(),
{
    let first = nodes[0];
    assert(is_block_declaration(first));
    walk_keeps_symbols(first, table);
    if walk(first, table).error is None {
        let after = walk(first, table).table;
        let rest = nodes.drop_first();
        assert forall|k: int| 0 <= k < rest.len() implies is_block_declaration(
            #[trigger] rest[k],
        ) by {
            assert(rest[k] == nodes[k + 1]);
        }
        assert(rest[j - 1] == nodes[j]);
        if i == 0 {
            known_name_is_rejected(rest, after, j - 1);
        } else {
            assert(rest[i - 1] == nodes[i]);
            duplicate_declaration_is_rejected(rest, after, i - 1, j - 1);
        }
    }
}

/// A program that declares a name twice has no symbol table: building it
/// fails as declaring a name twice.
pub proof fn program_with_duplicate_is_rejected(
    name: Seq<char>,
    declarations: Seq<SpecAst>,
    body: SpecAst,
    verbose: bool,
    i: int,
    j: int,
)
    requires
        forall|k: int|
            0 <= k < declarations.len() ==> is_block_declaration(#[trigger] declarations[k]),
        0 <= i < j < declarations.len(),
        is_declaration(declarations[i]),
        is_declaration(declarations[j]),
        folded(declared_name(declarations[i])) == folded(declared_name(declarations[j])),
    ensures
        table_of(
            SpecAst::Program {
                name,
                block: Box::new(
                    SpecAst::Block { declarations, compound_statements: Box::new(body) },
                ),
            },
            verbose,
        ) matches Err(e) && e is DuplicateIdentifier,
{
    reveal_with_fuel(walk, 3);
    let first = defined(empty_table(verbose), SpecSymbol::BuiltIn(BuiltInTypes::Integer));
    assert(first.error is None);
    if seeded(verbose).error is None {
        assert(knows_built_in_types(seeded(verbose).table));
        duplicate_declaration_is_rejected(declarations, seeded(verbose).table, i, j);
    }
}

/// Reading a variable is accepted exactly when the table holds its name, in
/// any case; else it is rejected as unknown.
pub proof fn undeclared_use_is_rejected(name: Seq<char>, table: TableModel)
    ensures
        known(table, name) ==> walk(SpecAst::Variable(name), table).error is None,
        !known(table, name) ==> walk(SpecAst::Variable(name), table).error == Some(
            SpecSemanticError::UnknownVariable { name },
        ),
{
}

/// The walk over an expression defines nothing.
pub proof fn expression_defines_nothing(node: SpecAst, table: TableModel)
    requires
        is_expression(node),
    ensures
        walk(node, table).table.symbols == table.symbols,
    decreases node,
{
    match node {
        SpecAst::Add(l, r)
        | SpecAst::Subtract(l, r)
        | SpecAst::Multiply(l, r)
        | SpecAst::IntegerDivide(l, r)
        | SpecAst::RealDivide(l, r) => {
            expression_defines_nothing(*l, table);
            expression_defines_nothing(*r, walk(*l, table).table);
        },
        SpecAst::PositiveUnary(inner) | SpecAst::NegativeUnary(inner) => {
            expression_defines_nothing(*inner, table);
        },
        _ => {},
    }
}

/// Assigning an expression to a variable whose name the table does not
/// hold, in any case, is rejected: as an unknown assignment target where the
/// expression is accepted, and with the fault of the expression where it is
/// not.
pub proof fn undeclared_assignment_is_rejected(
    name: Seq<char>,
    value: SpecAst,
    table: TableModel,
)
    requires
        !known(table, name),
        is_expression(value),
    ensures
        walk(SpecAst::Assign(name, Box::new(value)), table).error is Some,
        walk(value, table).error is None ==> walk(
            SpecAst::Assign(name, Box::new(value)),
            table,
        ).error == Some(SpecSemanticError::UnknownAssignmentTarget { name }),
{
    expression_defines_nothing(value, table);
}

/// The walk over an expression finds no malformed declaration.
pub proof fn expression_is_well_formed(tree: SpecAst, table: TableModel)
    requires
        is_expression(tree),
    ensures
        walk(tree, table).error matches Some(e) ==> !(e is Malformed),
    decreases tree,
{
    match tree {
        SpecAst::Add(l, r)
        | SpecAst::Subtract(l, r)
        | SpecAst::Multiply(l, r)
        | SpecAst::IntegerDivide(l, r)
        | SpecAst::RealDivide(l, r) => {
            expression_is_well_formed(*l, table);
            expression_is_well_formed(*r, walk(*l, table).table);
        },
        SpecAst::PositiveUnary(inner) | SpecAst::NegativeUnary(inner) => {
            expression_is_well_formed(*inner, table);
        },
        _ => {},
    }
}

/// The walk over a statement finds no malformed declaration.
pub proof fn statement_is_well_formed(tree: SpecAst, table: TableModel)
    requires
        is_statement(tree),
    ensures
        walk(tree, table).error matches Some(e) ==> !(e is Malformed),
    decreases tree, 0int,
{
    match tree {
        SpecAst::Assign(_, value) => {
            expression_is_well_formed(*value, table);
        },
        SpecAst::Compound { statements } => {
            statements_are_well_formed(statements, table);
        },
        _ => {},
    }
}

/// The walk over a list of statements finds no malformed declaration.
pub proof fn statements_are_well_formed(nodes: Seq<SpecAst>, table: TableModel)
    requires
        are_statements(nodes),
    ensures
        walk_all(nodes, table).error matches Some(e) ==> !(e is Malformed),
    decreases nodes, 1int,
{
    if nodes.len() > 0 {
        statement_is_well_formed(nodes[0], table);
        statements_are_well_formed(nodes.drop_first(), walk(nodes[0], table).table);
    }
}

/// The walk over the declarations of a block finds none of them malformed.
pub proof fn declarations_are_well_formed(nodes: Seq<SpecAst>, allowed: bool, table: TableModel)
    requires
        are_declarations(nodes, allowed),
    ensures
        walk_all(nodes, table).error matches Some(e) ==> !(e is Malformed),
    decreases nodes.len(),
{
    if nodes.len() > 0 {
        match nodes[0] {
            SpecAst::VariableDeclaration { .. } => {
                declarations_are_well_formed(
                    nodes.drop_first(),
                    true,
                    walk(nodes[0], table).table,
                );
            },
            SpecAst::ProcedureDeclaration { .. } => {
                declarations_are_well_formed(
                    nodes.drop_first(),
                    false,
                    walk(nodes[0], table).table,
                );
            },
            _ => {},
        }
    }
}

/// What the parser builds, the symbol table can judge: a program as the
/// parser builds it is never rejected as malformed, only for a name that is
/// unknown or declared twice.
pub proof fn program_is_well_formed(tree: SpecAst, verbose: bool)
    requires
        is_program(tree),
    ensures
        table_of(tree, verbose) matches Err(e) ==> !(e is Malformed),
{
    reveal_with_fuel(walk, 3);
    match tree {
        SpecAst::Program { block, .. } => {
            match *block {
                SpecAst::Block { declarations, compound_statements } => {
                    let table = seeded(verbose).table;
                    declarations_are_well_formed(declarations, true, table);
                    statement_is_well_formed(
                        *compound_statements,
                        walk_all(declarations, table).table,
                    );
                },
                _ => {},
            }
        },
        _ => {},
    }
}

} // verus!
