//! The shape of what the parser builds: expressions under assignments,
//! statements under compound statements, and declarations before the
//! statement of a block.

use crate::lexing::token::SpecToken;
use crate::parsing::ast::{
    are_declarations, are_statements, is_block, is_declaration, is_expression, is_program,
    is_statement, SpecAst,
};
use crate::parsing::grammar::{
    advance, assignment, block, compound, current, declarations, expr, expr_rest, factor,
    parse_expression_from, parse_from, procedures, remaining, statement, statement_list,
    statement_list_rest, stream_of, term, term_rest, var_line, var_sections, variable,
    variable_declaration, variables, SpecParseError, Stream,
};
use crate::parsing::writing::{
    expression_round_trip, program_round_trip, written, written_program,
};
use vstd::prelude::*;

verus! {

/// What the parser reads as a factor is an expression.
pub proof fn lemma_factor_is_expression(st: Stream, i: int)
    ensures
        factor(st, i) matches Ok((tree, _)) ==> is_expression(tree),
    decreases remaining(st, i), 0int,
{
    if factor(st, i) is Ok {
        if advance(st, i) is Ok {
            lemma_factor_is_expression(st, i + 1);
            lemma_expr_is_expression(st, i + 1);
        }
    }
}

/// What the parser makes of a term that began with an expression is an expression.
pub proof fn lemma_term_rest_is_expression(st: Stream, i: int, left: SpecAst)
    requires
        is_expression(left),
    ensures
        term_rest(st, i, left) matches Ok((tree, _)) ==> is_expression(tree),
    decreases remaining(st, i), 1int,
{
    if term_rest(st, i, left) is Ok && advance(st, i) is Ok {
        lemma_factor_is_expression(st, i + 1);
        if let Ok((right, n)) = factor(st, i + 1) {
            lemma_term_rest_is_expression(
                st,
                i + 1 + n,
                SpecAst::Multiply(Box::new(left), Box::new(right)),
            );
            lemma_term_rest_is_expression(
                st,
                i + 1 + n,
                SpecAst::IntegerDivide(Box::new(left), Box::new(right)),
            );
            lemma_term_rest_is_expression(
                st,
                i + 1 + n,
                SpecAst::RealDivide(Box::new(left), Box::new(right)),
            );
        }
    }
}

/// What the parser reads as a term is an expression.
pub proof fn lemma_term_is_expression(st: Stream, i: int)
    ensures
        term(st, i) matches Ok((tree, _)) ==> is_expression(tree),
    decreases remaining(st, i), 2int,
{
    lemma_factor_is_expression(st, i);
    if let Ok((first, n)) = factor(st, i) {
        lemma_term_rest_is_expression(st, i + n, first);
    }
}

/// What the parser makes of an expression that began with an expression is
/// an expression.
pub proof fn lemma_expr_rest_is_expression(st: Stream, i: int, left: SpecAst)
    requires
        is_expression(left),
    ensures
        expr_rest(st, i, left) matches Ok((tree, _)) ==> is_expression(tree),
    decreases remaining(st, i), 3int,
{
    if expr_rest(st, i, left) is Ok && advance(st, i) is Ok {
        lemma_term_is_expression(st, i + 1);
        if let Ok((right, n)) = term(st, i + 1) {
            lemma_expr_rest_is_expression(
                st,
                i + 1 + n,
                SpecAst::Add(Box::new(left), Box::new(right)),
            );
            lemma_expr_rest_is_expression(
                st,
                i + 1 + n,
                SpecAst::Subtract(Box::new(left), Box::new(right)),
            );
        }
    }
}

/// What the parser reads as an expression is an expression.
pub proof fn lemma_expr_is_expression(st: Stream, i: int)
    ensures
        expr(st, i) matches Ok((tree, _)) ==> is_expression(tree),
    decreases remaining(st, i), 4int,
{
    lemma_term_is_expression(st, i);
    if let Ok((first, n)) = term(st, i) {
        lemma_expr_rest_is_expression(st, i + n, first);
    }
}

/// What `parse_expression` returns is an expression.
pub proof fn parsed_expression_is_expression(st: Stream, i: int)
    ensures
        parse_expression_from(st, i) matches Ok(tree) ==> is_expression(tree),
{
    lemma_expr_is_expression(st, i + 1);
}

/// A list of statements with one more statement at its end is a list of statements.
pub proof fn lemma_statements_push(done: Seq<SpecAst>, next: SpecAst)
    requires
        are_statements(done),
        is_statement(next),
    ensures
        are_statements(done.push(next)),
    decreases done.len(),
{
    let all = done.push(next);
    if done.len() == 0 {
        assert(all.drop_first() =~= Seq::<SpecAst>::empty());
        assert(are_statements(all.drop_first()));
    } else {
        lemma_statements_push(done.drop_first(), next);
        assert(all.drop_first() =~= done.drop_first().push(next));
    }
}

/// What the parser reads as an assignment is a statement.
pub proof fn lemma_assignment_is_statement(st: Stream, i: int)
    ensures
        assignment(st, i) matches Ok((tree, _)) ==> is_statement(tree),
{
    if let Ok((name, n)) = variable(st, i) {
        lemma_expr_is_expression(st, i + n + 1);
    }
}

/// What the parser reads as a compound statement is one, of statements.
pub proof fn lemma_compound_is_statement(st: Stream, i: int)
    ensures
        compound(st, i) matches Ok((tree, _)) ==> is_statement(tree) && tree is Compound,
    decreases remaining(st, i), 1int,
{
    if compound(st, i) is Ok {
        lemma_statement_list_is_statements(st, i + 1);
    }
}

/// What the parser reads as a statement is a statement.
pub proof fn lemma_statement_is_statement(st: Stream, i: int)
    ensures
        statement(st, i) matches Ok((tree, _)) ==> is_statement(tree),
    decreases remaining(st, i), 2int,
{
    lemma_assignment_is_statement(st, i);
    lemma_compound_is_statement(st, i);
}

/// What the parser adds to a list of statements leaves a list of statements.
pub proof fn lemma_statement_list_rest_is_statements(st: Stream, i: int, done: Seq<SpecAst>)
    requires
        are_statements(done),
    ensures
        statement_list_rest(st, i, done) matches Ok((list, _)) ==> are_statements(list)
            && list.len() >= done.len(),
    decreases remaining(st, i), 0int,
{
    if current(st, i) == SpecToken::Semi && advance(st, i) is Ok {
        lemma_statement_is_statement(st, i + 1);
        if let Ok((next, n)) = statement(st, i + 1) {
            lemma_statements_push(done, next);
            lemma_statement_list_rest_is_statements(st, i + 1 + n, done.push(next));
        }
    }
}

/// What the parser reads as a list of statements is one or more statements.
pub proof fn lemma_statement_list_is_statements(st: Stream, i: int)
    ensures
        statement_list(st, i) matches Ok((list, _)) ==> are_statements(list) && list.len() >= 1,
    decreases remaining(st, i), 3int,
{
    lemma_statement_is_statement(st, i);
    if let Ok((first, n)) = statement(st, i) {
        lemma_statements_push(Seq::empty(), first);
        assert(Seq::<SpecAst>::empty().push(first) =~= seq![first]);
        lemma_statement_list_rest_is_statements(st, i + n, seq![first]);
    }
}

/// Whether every tree of a list is the declaration of a variable.
pub open spec fn all_variables(nodes: Seq<SpecAst>) -> bool {
    forall|k: int| 0 <= k < nodes.len() ==> is_declaration(#[trigger] nodes[k])
}

/// Declarations of variables are declarations of a block.
pub proof fn lemma_variables_are_declarations(nodes: Seq<SpecAst>)
    requires
        all_variables(nodes),
    ensures
        are_declarations(nodes, true),
    decreases nodes.len(),
{
    if nodes.len() > 0 {
        assert(is_declaration(nodes[0]));
        assert forall|k: int| 0 <= k < nodes.drop_first().len() implies is_declaration(
            #[trigger] nodes.drop_first()[k],
        ) by {
            assert(nodes.drop_first()[k] == nodes[k + 1]);
        }
        lemma_variables_are_declarations(nodes.drop_first());
    }
}

/// The declarations of a block with one more procedure at their end are the
/// declarations of a block.
pub proof fn lemma_declarations_push(nodes: Seq<SpecAst>, allowed: bool, procedure: SpecAst)
    requires
        are_declarations(nodes, allowed),
        procedure matches SpecAst::ProcedureDeclaration { block, .. } && is_block(*block),
    ensures
        are_declarations(nodes.push(procedure), allowed),
    decreases nodes.len(),
{
    let all = nodes.push(procedure);
    if nodes.len() == 0 {
        assert(all.drop_first() =~= Seq::<SpecAst>::empty());
        assert(are_declarations(all.drop_first(), false));
    } else {
        assert(all.drop_first() =~= nodes.drop_first().push(procedure));
        match nodes[0] {
            SpecAst::VariableDeclaration { .. } => {
                lemma_declarations_push(nodes.drop_first(), true, procedure);
            },
            SpecAst::ProcedureDeclaration { .. } => {
                lemma_declarations_push(nodes.drop_first(), false, procedure);
            },
            _ => {},
        }
    }
}

/// What a line of a `VAR` section adds to declarations of variables leaves
/// declarations of variables.
pub proof fn lemma_var_line_is_variables(st: Stream, i: int, done: Seq<SpecAst>)
    requires
        all_variables(done),
    ensures
        var_line(st, i, done) matches Ok((list, _)) ==> all_variables(list),
{
    if let Ok((declared, n)) = variable_declaration(st, i) {
        assert forall|k: int| 0 <= k < declared.len() implies is_declaration(
            #[trigger] declared[k],
        ) by {}
        assert forall|k: int| 0 <= k < (done + declared).len() implies is_declaration(
            #[trigger] (done + declared)[k],
        ) by {
            if k < done.len() {
                assert((done + declared)[k] == done[k]);
            } else {
                assert((done + declared)[k] == declared[k - done.len()]);
            }
        }
    }
}

/// What the `VAR` sections add to declarations of variables leaves
/// declarations of variables.
pub proof fn lemma_var_sections_is_variables(
    st: Stream,
    i: int,
    done: Seq<SpecAst>,
    inside: bool,
)
    requires
        all_variables(done),
    ensures
        var_sections(st, i, done, inside) matches Ok((list, _)) ==> all_variables(list),
    decreases remaining(st, i),
{
    if var_sections(st, i, done, inside) is Ok {
        lemma_var_line_is_variables(st, i, done);
        lemma_var_line_is_variables(st, i + 1, done);
        if advance(st, i) is Ok {
            if let Ok((more, n)) = var_line(st, i + 1, done) {
                lemma_var_sections_is_variables(st, i + 1 + n, more, true);
            }
        }
        if let Ok((more, n)) = var_line(st, i, done) {
            if n > 0 {
                lemma_var_sections_is_variables(st, i + n, more, true);
            }
        }
    }
}

/// What the procedures add to the declarations of a block leaves the
/// declarations of a block.
pub proof fn lemma_procedures_is_declarations(st: Stream, i: int, done: Seq<SpecAst>)
    requires
        are_declarations(done, true),
    ensures
        procedures(st, i, done) matches Ok((list, _)) ==> are_declarations(list, true),
    decreases remaining(st, i), 0int,
{
    if procedures(st, i, done) is Ok && advance(st, i) is Ok {
        if let Ok((name, n)) = variable(st, i + 1) {
            lemma_block_is_block(st, i + 2 + n);
            if let Ok((body, m)) = block(st, i + 2 + n) {
                let node = SpecAst::ProcedureDeclaration { name, block: Box::new(body) };
                lemma_declarations_push(done, true, node);
                lemma_procedures_is_declarations(st, i + 3 + n + m, done.push(node));
            }
        }
    }
}

/// What the parser reads as the declarations of a block are the
/// declarations of a block: variables, then procedures.
pub proof fn lemma_declarations_is_declarations(st: Stream, i: int)
    ensures
        declarations(st, i) matches Ok((list, _)) ==> are_declarations(list, true),
    decreases remaining(st, i), 1int,
{
    lemma_var_sections_is_variables(st, i, Seq::empty(), false);
    if let Ok((declared, n)) = variables(st, i) {
        lemma_variables_are_declarations(declared);
        lemma_procedures_is_declarations(st, i + n, declared);
    }
}

/// What the parser reads as a block is a block.
pub proof fn lemma_block_is_block(st: Stream, i: int)
    ensures
        block(st, i) matches Ok((tree, _)) ==> is_block(tree),
    decreases remaining(st, i), 2int,
{
    lemma_declarations_is_declarations(st, i);
    if let Ok((listed, n)) = declarations(st, i) {
        lemma_compound_is_statement(st, i + n);
    }
}

/// What `parse` returns is a program: declarations of variables, then
/// procedures, then a compound statement of assignments of expressions,
/// empty statements and compound statements.
pub proof fn parsed_program_is_program(st: Stream, i: int)
    ensures
        parse_from(st, i) matches Ok(tree) ==> is_program(tree),
{
    if let Ok((name, n)) = variable(st, i + 2) {
        lemma_block_is_block(st, i + 3 + n);
    }
}

/// What `parse_expression` returns, written out and parsed again, is itself.
pub proof fn parsed_expression_round_trip(st: Stream, i: int)
    ensures
        parse_expression_from(st, i) matches Ok(tree) ==> parse_expression_from(
            stream_of(written(tree)),
            -1,
        ) == Ok::<SpecAst, SpecParseError>(tree),
{
    parsed_expression_is_expression(st, i);
    if let Ok(tree) = parse_expression_from(st, i) {
        expression_round_trip(tree);
    }
}

/// What `parse` returns, written out and parsed again, is itself.
pub proof fn parsed_program_round_trip(st: Stream, i: int)
    ensures
        parse_from(st, i) matches Ok(tree) ==> parse_from(stream_of(written_program(tree)), -1)
            == Ok::<SpecAst, SpecParseError>(tree),
{
    parsed_program_is_program(st, i);
    if let Ok(tree) = parse_from(st, i) {
        program_round_trip(tree);
    }
}

} // verus!
