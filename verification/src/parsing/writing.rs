//! Expressions written out as tokens, and the law that the parser reads
//! back what was written.

use crate::lexing::token::{Keyword, SpecToken};
use crate::parsing::ast::{
    are_declarations, are_statements, is_block, is_expression, is_program, is_statement, SpecAst,
    TypeSpec,
};
use crate::parsing::grammar::{
    advance, assignment, block, compound, current, declaration_of, declarations, eat, expr,
    expr_rest, factor, names_rest, parse_expression_from, parse_from, procedures, program,
    statement, statement_list, statement_list_rest, stream_of, term, term_rest, type_spec,
    var_line, var_sections, variable, variable_declaration, variables, Expected, SpecParseError,
    Stream,
};
use vstd::prelude::*;

verus! {

/// The tokens of the two operands with the operator between them, in parentheses.
pub open spec fn in_parentheses(
    left: Seq<SpecToken>,
    operator: SpecToken,
    right: Seq<SpecToken>,
) -> Seq<SpecToken> {
    seq![SpecToken::ParenthesisStart] + left + seq![operator] + right + seq![
        SpecToken::ParenthesisEnd,
    ]
}

/// An expression written out as tokens: a constant or a variable as one
/// token, a sign before its operand, and every operation with two operands
/// in parentheses.
pub open spec fn written(tree: SpecAst) -> Seq<SpecToken>
    decreases tree,
{
    match tree {
        SpecAst::IntegerConstant(value) => seq![SpecToken::IntegerConstant(value)],
        SpecAst::RealConstant(value) => seq![SpecToken::RealConstant(value)],
        SpecAst::Variable(name) => seq![SpecToken::Identifier(name)],
        SpecAst::PositiveUnary(inner) => seq![SpecToken::Plus] + written(*inner),
        SpecAst::NegativeUnary(inner) => seq![SpecToken::Minus] + written(*inner),
        SpecAst::Add(l, r) => in_parentheses(written(*l), SpecToken::Plus, written(*r)),
        SpecAst::Subtract(l, r) => in_parentheses(written(*l), SpecToken::Minus, written(*r)),
        SpecAst::Multiply(l, r) => in_parentheses(written(*l), SpecToken::Multiply, written(*r)),
        SpecAst::IntegerDivide(l, r) => in_parentheses(
            written(*l),
            SpecToken::Keyword(Keyword::IntegerDiv),
            written(*r),
        ),
        SpecAst::RealDivide(l, r) => in_parentheses(
            written(*l),
            SpecToken::RealDivision,
            written(*r),
        ),
        _ => Seq::empty(),
    }
}

/// Whether the tokens `tokens` stand in the stream from index `i` on, and
/// the token after them can be read.
pub open spec fn stands_at(st: Stream, i: int, tokens: Seq<SpecToken>) -> bool {
    &&& 0 <= i
    &&& i + tokens.len() <= st.tokens.len()
    &&& st.tokens.subrange(i, i + tokens.len()) == tokens
    &&& (i + tokens.len() < st.tokens.len() || st.failure is None)
}

/// An expression is written with at least one token.
pub proof fn lemma_written_is_not_empty(tree: SpecAst)
    requires
        is_expression(tree),
    ensures
        written(tree).len() >= 1,
    decreases tree,
{
    match tree {
        SpecAst::PositiveUnary(inner) | SpecAst::NegativeUnary(inner) => {
            lemma_written_is_not_empty(*inner);
        },
        _ => {},
    }
}

/// Part of what stands in the stream stands there too.
proof fn lemma_part_stands(st: Stream, i: int, whole: Seq<SpecToken>, from: int, to: int)
    requires
        stands_at(st, i, whole),
        0 <= from <= to <= whole.len(),
    ensures
        stands_at(st, i + from, whole.subrange(from, to)),
{
    assert(st.tokens.subrange(i + from, i + to) =~= whole.subrange(from, to)) by {
        assert forall|k: int| 0 <= k < to - from implies st.tokens.subrange(i + from, i + to)[k]
            == whole.subrange(from, to)[k] by {
            assert(st.tokens.subrange(i, i + whole.len())[from + k] == st.tokens[i + from + k]);
        }
    }
}

/// A token of what stands in the stream is the token at its index, and the
/// parser can move on from it.
proof fn lemma_token_stands(st: Stream, i: int, whole: Seq<SpecToken>, k: int)
    requires
        stands_at(st, i, whole),
        0 <= k < whole.len(),
    ensures
        current(st, i + k) == whole[k],
        advance(st, i + k) is Ok,
{
    assert(st.tokens.subrange(i, i + whole.len())[k] == st.tokens[i + k]);
}

/// The operation that the operator `operator` makes of two operands.
pub open spec fn operation(operator: SpecToken, left: SpecAst, right: SpecAst) -> SpecAst {
    match operator {
        SpecToken::Plus => SpecAst::Add(Box::new(left), Box::new(right)),
        SpecToken::Minus => SpecAst::Subtract(Box::new(left), Box::new(right)),
        SpecToken::Multiply => SpecAst::Multiply(Box::new(left), Box::new(right)),
        SpecToken::Keyword(Keyword::IntegerDiv) => SpecAst::IntegerDivide(
            Box::new(left),
            Box::new(right),
        ),
        _ => SpecAst::RealDivide(Box::new(left), Box::new(right)),
    }
}

/// Whether `operator` is one of the five operators with two operands.
pub open spec fn is_operator(operator: SpecToken) -> bool {
    operator == SpecToken::Plus || operator == SpecToken::Minus || operator == SpecToken::Multiply
        || operator == SpecToken::Keyword(Keyword::IntegerDiv) || operator
        == SpecToken::RealDivision
}

/// Two factors with an operator between them, in parentheses, are read as
/// one factor: the operation on the two.
proof fn lemma_operation_in_parentheses(
    st: Stream,
    i: int,
    operator: SpecToken,
    left: SpecAst,
    nl: nat,
    right: SpecAst,
    nr: nat,
)
    requires
        is_operator(operator),
        current(st, i) == SpecToken::ParenthesisStart,
        advance(st, i) is Ok,
        factor(st, i + 1) == Ok::<(SpecAst, nat), SpecParseError>((left, nl)),
        current(st, i + 1 + nl) == operator,
        advance(st, i + 1 + nl) is Ok,
        factor(st, i + 2 + nl) == Ok::<(SpecAst, nat), SpecParseError>((right, nr)),
        current(st, i + 2 + nl + nr) == SpecToken::ParenthesisEnd,
        advance(st, i + 2 + nl + nr) is Ok,
    ensures
        factor(st, i) == Ok::<(SpecAst, nat), SpecParseError>(
            (operation(operator, left, right), nl + nr + 3),
        ),
{
    let tree = operation(operator, left, right);
    reveal_with_fuel(term_rest, 2);
    reveal_with_fuel(expr_rest, 2);
    if operator == SpecToken::Plus || operator == SpecToken::Minus {
        assert(term(st, i + 1) == Ok::<(SpecAst, nat), SpecParseError>((left, nl)));
        assert(term(st, i + 2 + nl) == Ok::<(SpecAst, nat), SpecParseError>((right, nr)));
        assert(expr_rest(st, i + 2 + nl + nr, tree) == Ok::<(SpecAst, int), SpecParseError>(
            (tree, i + 2 + nl + nr),
        ));
        assert(expr_rest(st, i + 1 + nl, left) == Ok::<(SpecAst, int), SpecParseError>(
            (tree, i + 2 + nl + nr),
        ));
    } else {
        assert(term_rest(st, i + 2 + nl + nr, tree) == Ok::<(SpecAst, int), SpecParseError>(
            (tree, i + 2 + nl + nr),
        ));
        assert(term_rest(st, i + 1 + nl, left) == Ok::<(SpecAst, int), SpecParseError>(
            (tree, i + 2 + nl + nr),
        ));
        assert(term(st, i + 1) == Ok::<(SpecAst, nat), SpecParseError>(
            (tree, (nl + nr + 1) as nat),
        ));
    }
    assert(expr(st, i + 1) == Ok::<(SpecAst, nat), SpecParseError>((tree, (nl + nr + 1) as nat)));
    assert(eat(st, i + 2 + nl + nr, SpecToken::ParenthesisEnd, Expected::ParenthesisEnd) is Ok);
}

/// The operator with which an operation is written.
pub open spec fn operator_of(tree: SpecAst) -> SpecToken {
    match tree {
        SpecAst::Add(_, _) => SpecToken::Plus,
        SpecAst::Subtract(_, _) => SpecToken::Minus,
        SpecAst::Multiply(_, _) => SpecToken::Multiply,
        SpecAst::IntegerDivide(_, _) => SpecToken::Keyword(Keyword::IntegerDiv),
        _ => SpecToken::RealDivision,
    }
}

/// Where a written expression stands in a stream, the parser reads it as a
/// factor, and gets the expression back.
pub proof fn lemma_written_factor(st: Stream, i: int, tree: SpecAst)
    requires
        is_expression(tree),
        stands_at(st, i, written(tree)),
    ensures
        factor(st, i) == Ok::<(SpecAst, nat), SpecParseError>((tree, written(tree).len())),
    decreases tree,
{
    let whole = written(tree);
    lemma_written_is_not_empty(tree);
    lemma_token_stands(st, i, whole, 0);
    match tree {
        SpecAst::PositiveUnary(inner) | SpecAst::NegativeUnary(inner) => {
            lemma_part_stands(st, i, whole, 1, whole.len() as int);
            assert(whole.subrange(1, whole.len() as int) =~= written(*inner));
            lemma_written_factor(st, i + 1, *inner);
        },
        SpecAst::Add(l, r)
        | SpecAst::Subtract(l, r)
        | SpecAst::Multiply(l, r)
        | SpecAst::IntegerDivide(l, r)
        | SpecAst::RealDivide(l, r) => {
            let left = written(*l);
            let right = written(*r);
            let nl = left.len() as int;
            let nr = right.len() as int;
            lemma_written_is_not_empty(*l);
            lemma_written_is_not_empty(*r);
            assert(whole == in_parentheses(left, operator_of(tree), right));
            assert(whole.len() == nl + nr + 3);
            lemma_part_stands(st, i, whole, 1, 1 + nl);
            assert(whole.subrange(1, 1 + nl) =~= left);
            lemma_written_factor(st, i + 1, *l);
            lemma_part_stands(st, i, whole, 2 + nl, 2 + nl + nr);
            assert(whole.subrange(2 + nl, 2 + nl + nr) =~= right);
            lemma_written_factor(st, i + 2 + nl, *r);
            lemma_token_stands(st, i, whole, 1 + nl);
            lemma_token_stands(st, i, whole, 2 + nl + nr);
            assert(whole[1 + nl] == operator_of(tree));
            assert(whole[2 + nl + nr] == SpecToken::ParenthesisEnd);
            lemma_operation_in_parentheses(
                st,
                i,
                operator_of(tree),
                *l,
                nl as nat,
                *r,
                nr as nat,
            );
            assert(operation(operator_of(tree), *l, *r) == tree);
        },
        _ => {},
    }
}

/// Written out and parsed again, an expression is itself.
pub proof fn expression_round_trip(tree: SpecAst)
    requires
        is_expression(tree),
    ensures
        parse_expression_from(stream_of(written(tree)), -1) == Ok::<SpecAst, SpecParseError>(tree),
{
    let st = stream_of(written(tree));
    lemma_written_is_not_empty(tree);
    assert(st.tokens.subrange(0, written(tree).len() as int) =~= written(tree));
    lemma_written_expression(st, 0, tree);
}

/// A statement written out as tokens: nothing for the empty statement.
pub open spec fn written_statement(node: SpecAst) -> Seq<SpecToken>
    decreases node, 0int,
{
    match node {
        SpecAst::Assign(name, value) => seq![SpecToken::Identifier(name), SpecToken::Assign]
            + written(*value),
        SpecAst::Compound { statements } => if statements.len() >= 1 {
            seq![SpecToken::Keyword(Keyword::Begin)] + written_statement(statements[0])
                + written_further(statements.drop_first()) + seq![
                SpecToken::Keyword(Keyword::End),
            ]
        } else {
            Seq::empty()
        },
        _ => Seq::empty(),
    }
}

/// The further statements of a list written out: each with a semicolon before it.
pub open spec fn written_further(nodes: Seq<SpecAst>) -> Seq<SpecToken>
    decreases nodes, 1int,
{
    if nodes.len() == 0 {
        Seq::empty()
    } else {
        seq![SpecToken::Semi] + written_statement(nodes[0]) + written_further(nodes.drop_first())
    }
}

/// Whether `token` may follow a statement: a semicolon or `END`.
pub open spec fn ends_statement(token: SpecToken) -> bool {
    token == SpecToken::Semi || token == SpecToken::Keyword(Keyword::End)
}

/// Where a written expression stands in a stream before a token that is no
/// operator, the parser reads it as an expression, and gets it back.
pub proof fn lemma_written_expression(st: Stream, i: int, tree: SpecAst)
    requires
        is_expression(tree),
        stands_at(st, i, written(tree)),
        ends_statement(current(st, i + written(tree).len())) || current(
            st,
            i + written(tree).len(),
        ) == SpecToken::Eof,
    ensures
        expr(st, i) == Ok::<(SpecAst, nat), SpecParseError>((tree, written(tree).len())),
{
    lemma_written_factor(st, i, tree);
    reveal_with_fuel(term_rest, 2);
    reveal_with_fuel(expr_rest, 2);
    assert(term(st, i) == Ok::<(SpecAst, nat), SpecParseError>((tree, written(tree).len())));
}

/// Where a written assignment stands in a stream, before a semicolon or
/// `END`, the parser reads the assignment back.
pub proof fn lemma_written_assignment(st: Stream, i: int, tree: SpecAst)
    requires
        tree is Assign,
        is_statement(tree),
        stands_at(st, i, written_statement(tree)),
        ends_statement(current(st, i + written_statement(tree).len())),
    ensures
        statement(st, i) == Ok::<(SpecAst, nat), SpecParseError>(
            (tree, written_statement(tree).len()),
        ),
{
    let whole = written_statement(tree);
    match tree {
        SpecAst::Assign(name, value) => {
            let n = written(*value).len() as int;
            lemma_written_is_not_empty(*value);
            lemma_part_stands(st, i, whole, 2, 2 + n);
            assert(whole.subrange(2, 2 + n) =~= written(*value));
            lemma_token_stands(st, i, whole, 0);
            lemma_token_stands(st, i, whole, 1);
            lemma_written_expression(st, i + 2, *value);
            assert(assignment(st, i) == Ok::<(SpecAst, nat), SpecParseError>(
                (tree, (n + 2) as nat),
            ));
        },
        _ => {},
    }
}

/// Where a written statement stands in a stream, before a semicolon or
/// `END`, the parser reads the statement back. After a compound statement
/// any token may stand.
pub proof fn lemma_written_statement(st: Stream, i: int, tree: SpecAst)
    requires
        is_statement(tree),
        stands_at(st, i, written_statement(tree)),
        tree is Compound || ends_statement(current(st, i + written_statement(tree).len())),
    ensures
        statement(st, i) == Ok::<(SpecAst, nat), SpecParseError>(
            (tree, written_statement(tree).len()),
        ),
        tree is Compound ==> compound(st, i) == statement(st, i),
    decreases tree, 0int,
{
    let whole = written_statement(tree);
    match tree {
        SpecAst::Assign(name, value) => {
            lemma_written_assignment(st, i, tree);
        },
        SpecAst::Compound { statements } => {
            let first = written_statement(statements[0]);
            let further = written_further(statements.drop_first());
            let n0 = first.len() as int;
            let n1 = further.len() as int;
            assert(whole.len() == n0 + n1 + 2);
            lemma_token_stands(st, i, whole, 0);
            lemma_token_stands(st, i, whole, 1 + n0 + n1);
            lemma_part_stands(st, i, whole, 1, 1 + n0);
            assert(whole.subrange(1, 1 + n0) =~= first);
            lemma_part_stands(st, i, whole, 1 + n0, 1 + n0 + n1);
            assert(whole.subrange(1 + n0, 1 + n0 + n1) =~= further);
            lemma_further_begins(statements.drop_first());
            lemma_token_stands(st, i, whole, 1 + n0);
            lemma_written_statement(st, i + 1, statements[0]);
            lemma_written_further(st, i + 1 + n0, statements.drop_first(), seq![statements[0]]);
            assert(seq![statements[0]] + statements.drop_first() =~= statements);
            assert(statement_list(st, i + 1) == Ok::<(Seq<SpecAst>, nat), SpecParseError>(
                (statements, (n0 + n1) as nat),
            ));
            assert(eat(st, i, SpecToken::Keyword(Keyword::Begin), Expected::Begin) is Ok);
            assert(eat(
                st,
                i + 1 + n0 + n1,
                SpecToken::Keyword(Keyword::End),
                Expected::End,
            ) is Ok);
            assert(compound(st, i) == Ok::<(SpecAst, nat), SpecParseError>(
                (tree, (n0 + n1 + 2) as nat),
            ));
        },
        _ => {},
    }
}

/// What is written of further statements is nothing, or begins with a semicolon.
pub proof fn lemma_further_begins(nodes: Seq<SpecAst>)
    ensures
        nodes.len() == 0 ==> written_further(nodes).len() == 0,
        nodes.len() > 0 ==> written_further(nodes).len() > 0 && written_further(nodes)[0]
            == SpecToken::Semi,
{
}

/// Where the further statements of a list stand written in a stream,
/// before `END`, the parser adds them to the statements it has.
pub proof fn lemma_written_further(st: Stream, i: int, nodes: Seq<SpecAst>, done: Seq<SpecAst>)
    requires
        are_statements(nodes),
        stands_at(st, i, written_further(nodes)),
        current(st, i + written_further(nodes).len()) == SpecToken::Keyword(Keyword::End),
    ensures
        statement_list_rest(st, i, done) == Ok::<(Seq<SpecAst>, int), SpecParseError>(
            (done + nodes, i + written_further(nodes).len()),
        ),
    decreases nodes, 1int,
{
    let whole = written_further(nodes);
    if nodes.len() == 0 {
        assert(done + nodes =~= done);
    } else {
        let first = written_statement(nodes[0]);
        let rest = written_further(nodes.drop_first());
        let n0 = first.len() as int;
        let n1 = rest.len() as int;
        assert(whole.len() == 1 + n0 + n1);
        lemma_token_stands(st, i, whole, 0);
        lemma_part_stands(st, i, whole, 1, 1 + n0);
        assert(whole.subrange(1, 1 + n0) =~= first);
        lemma_part_stands(st, i, whole, 1 + n0, 1 + n0 + n1);
        assert(whole.subrange(1 + n0, 1 + n0 + n1) =~= rest);
        lemma_further_begins(nodes.drop_first());
        if n1 > 0 {
            lemma_token_stands(st, i, whole, 1 + n0);
        }
        lemma_written_statement(st, i + 1, nodes[0]);
        lemma_written_further(st, i + 1 + n0, nodes.drop_first(), done.push(nodes[0]));
        assert(done.push(nodes[0]) + nodes.drop_first() =~= done + nodes);
    }
}

/// The keyword that names a type.
pub open spec fn type_keyword(type_spec: TypeSpec) -> Keyword {
    match type_spec {
        TypeSpec::Integer => Keyword::Integer,
        TypeSpec::Real => Keyword::Real,
    }
}

/// The declaration of one variable written out, as a `VAR` section of its own.
pub open spec fn written_variable(name: Seq<char>, type_spec: TypeSpec) -> Seq<SpecToken> {
    seq![
        SpecToken::Keyword(Keyword::Var),
        SpecToken::Identifier(name),
        SpecToken::Colon,
        SpecToken::Keyword(type_keyword(type_spec)),
        SpecToken::Semi,
    ]
}

/// A declaration written out as tokens.
pub open spec fn written_declaration(node: SpecAst) -> Seq<SpecToken>
    decreases node, 0int,
{
    match node {
        SpecAst::VariableDeclaration { variable, type_spec } => match (*variable, *type_spec) {
            (SpecAst::Variable(name), SpecAst::Type(t)) => written_variable(name, t),
            _ => Seq::empty(),
        },
        SpecAst::ProcedureDeclaration { name, block } => seq![
            SpecToken::Keyword(Keyword::Procedure),
            SpecToken::Identifier(name),
            SpecToken::Semi,
        ] + written_block(*block) + seq![SpecToken::Semi],
        _ => Seq::empty(),
    }
}

/// The declarations of a block written out, one after the other.
pub open spec fn written_declarations(nodes: Seq<SpecAst>) -> Seq<SpecToken>
    decreases nodes, 1int,
{
    if nodes.len() == 0 {
        Seq::empty()
    } else {
        written_declaration(nodes[0]) + written_declarations(nodes.drop_first())
    }
}

/// A block written out as tokens: its declarations, then its statement.
pub open spec fn written_block(node: SpecAst) -> Seq<SpecToken>
    decreases node, 0int,
{
    match node {
        SpecAst::Block { declarations, compound_statements } => written_declarations(declarations)
            + written_statement(*compound_statements),
        _ => Seq::empty(),
    }
}

/// A program written out as tokens.
pub open spec fn written_program(node: SpecAst) -> Seq<SpecToken> {
    match node {
        SpecAst::Program { name, block } => seq![
            SpecToken::Keyword(Keyword::Program),
            SpecToken::Identifier(name),
            SpecToken::Semi,
        ] + written_block(*block) + seq![SpecToken::Dot],
        _ => Seq::empty(),
    }
}

/// Where the declaration of a variable stands written in a stream, the
/// parser reads it as a `VAR` section of one line.
proof fn lemma_written_variable(
    st: Stream,
    i: int,
    name: Seq<char>,
    declared: TypeSpec,
    done: Seq<SpecAst>,
)
    requires
        stands_at(st, i, written_variable(name, declared)),
    ensures
        current(st, i) == SpecToken::Keyword(Keyword::Var),
        advance(st, i) is Ok,
        var_line(st, i + 1, done) == Ok::<(Seq<SpecAst>, nat), SpecParseError>(
            (done.push(declaration_of(name, declared)), 4),
        ),
{
    let whole = written_variable(name, declared);
    lemma_token_stands(st, i, whole, 0);
    lemma_token_stands(st, i, whole, 1);
    lemma_token_stands(st, i, whole, 2);
    lemma_token_stands(st, i, whole, 3);
    lemma_token_stands(st, i, whole, 4);
    assert(variable(st, i + 1) == Ok::<(Seq<char>, nat), SpecParseError>((name, 1)));
    assert(names_rest(st, i + 2, seq![name]) == Ok::<(Seq<Seq<char>>, int), SpecParseError>(
        (seq![name], i + 2),
    ));
    assert(eat(st, i + 2, SpecToken::Colon, Expected::Colon) is Ok);
    assert(type_spec(st, i + 3) == Ok::<(TypeSpec, nat), SpecParseError>((declared, 1)));
    let names = seq![name];
    assert(Seq::new(names.len(), |k: int| declaration_of(names[k], declared)) =~= seq![
        declaration_of(name, declared),
    ]);
    assert(variable_declaration(st, i + 1) == Ok::<(Seq<SpecAst>, nat), SpecParseError>(
        (seq![declaration_of(name, declared)], 3),
    ));
    assert(eat(st, i + 4, SpecToken::Semi, Expected::Semi) is Ok);
    assert(done + seq![declaration_of(name, declared)] =~= done.push(
        declaration_of(name, declared),
    ));
}

/// What is written of a compound statement begins with `BEGIN`.
proof fn lemma_compound_begins(tree: SpecAst)
    requires
        tree is Compound,
        is_statement(tree),
    ensures
        written_statement(tree).len() >= 2,
        written_statement(tree)[0] == SpecToken::Keyword(Keyword::Begin),
{
}

/// What is written of declarations is nothing, or begins with `VAR` or `PROCEDURE`.
proof fn lemma_declarations_begin(nodes: Seq<SpecAst>, variables_allowed: bool)
    requires
        are_declarations(nodes, variables_allowed),
    ensures
        nodes.len() == 0 ==> written_declarations(nodes).len() == 0,
        nodes.len() > 0 ==> written_declarations(nodes).len() > 0 && (written_declarations(
            nodes,
        )[0] == SpecToken::Keyword(Keyword::Var) || written_declarations(nodes)[0]
            == SpecToken::Keyword(Keyword::Procedure)),
        nodes.len() > 0 && nodes[0] is ProcedureDeclaration ==> written_declarations(nodes)[0]
            == SpecToken::Keyword(Keyword::Procedure),
        nodes.len() > 0 && nodes[0] is VariableDeclaration ==> written_declarations(nodes)[0]
            == SpecToken::Keyword(Keyword::Var),
{
    if nodes.len() > 0 {
        let first = written_declaration(nodes[0]);
        let rest = written_declarations(nodes.drop_first());
        assert(written_declarations(nodes) == first + rest);
        match nodes[0] {
            SpecAst::VariableDeclaration { variable: named, type_spec: typed } => {
                match (*named, *typed) {
                    (SpecAst::Variable(name), SpecAst::Type(t)) => {
                        assert(first == written_variable(name, t));
                        assert(first[0] == SpecToken::Keyword(Keyword::Var));
                    },
                    _ => {},
                }
            },
            SpecAst::ProcedureDeclaration { name, block: body } => {
                assert(first[0] == SpecToken::Keyword(Keyword::Procedure));
            },
            _ => {},
        }
        assert((first + rest)[0] == first[0]);
    }
}

/// Where the procedures of a block stand written in a stream, before
/// `BEGIN`, the parser adds them to the declarations that it has.
pub proof fn lemma_written_procedures(st: Stream, i: int, nodes: Seq<SpecAst>, done: Seq<SpecAst>)
    requires
        are_declarations(nodes, false),
        stands_at(st, i, written_declarations(nodes)),
        current(st, i + written_declarations(nodes).len()) == SpecToken::Keyword(Keyword::Begin),
    ensures
        procedures(st, i, done) == Ok::<(Seq<SpecAst>, int), SpecParseError>(
            (done + nodes, i + written_declarations(nodes).len()),
        ),
    decreases nodes, 1int,
{
    let whole = written_declarations(nodes);
    if nodes.len() == 0 {
        assert(done + nodes =~= done);
    } else {
        match nodes[0] {
            SpecAst::ProcedureDeclaration { name, block: body } => {
                let first = written_declaration(nodes[0]);
                let inner = written_block(*body);
                let rest = written_declarations(nodes.drop_first());
                let nb = inner.len() as int;
                let n1 = rest.len() as int;
                assert(first.len() == nb + 4);
                assert(whole.len() == nb + 4 + n1);
                lemma_token_stands(st, i, whole, 0);
                lemma_token_stands(st, i, whole, 1);
                lemma_token_stands(st, i, whole, 2);
                lemma_token_stands(st, i, whole, 3 + nb);
                assert(whole[0] == SpecToken::Keyword(Keyword::Procedure));
                assert(whole[1] == SpecToken::Identifier(name));
                assert(whole[2] == SpecToken::Semi);
                assert(whole[3 + nb] == SpecToken::Semi);
                lemma_part_stands(st, i, whole, 3, 3 + nb);
                assert(whole.subrange(3, 3 + nb) =~= inner);
                lemma_part_stands(st, i, whole, 4 + nb, 4 + nb + n1);
                assert(whole.subrange(4 + nb, 4 + nb + n1) =~= rest);
                lemma_written_block(st, i + 3, *body);
                lemma_written_procedures(
                    st,
                    i + 4 + nb,
                    nodes.drop_first(),
                    done.push(nodes[0]),
                );
                assert(done.push(nodes[0]) + nodes.drop_first() =~= done + nodes);
                assert(variable(st, i + 1) == Ok::<(Seq<char>, nat), SpecParseError>((name, 1)));
                assert(eat(st, i + 2, SpecToken::Semi, Expected::Semi) is Ok);
                assert(eat(st, i + 3 + nb, SpecToken::Semi, Expected::Semi) is Ok);
            },
            _ => {},
        }
    }
}

/// Where the declarations of a block stand written in a stream, before
/// `BEGIN`, the parser reads the variables and then the procedures, and has
/// all of them in the end.
pub proof fn lemma_written_declarations(
    st: Stream,
    i: int,
    nodes: Seq<SpecAst>,
    done: Seq<SpecAst>,
    inside: bool,
)
    requires
        are_declarations(nodes, true),
        stands_at(st, i, written_declarations(nodes)),
        current(st, i + written_declarations(nodes).len()) == SpecToken::Keyword(Keyword::Begin),
    ensures
        var_sections(st, i, done, inside) matches Ok((declared, next)) && next >= i && procedures(
            st,
            next,
            declared,
        ) == Ok::<(Seq<SpecAst>, int), SpecParseError>(
            (done + nodes, i + written_declarations(nodes).len()),
        ),
    decreases nodes, 2int,
{
    let whole = written_declarations(nodes);
    lemma_declarations_begin(nodes, true);
    if nodes.len() == 0 {
        lemma_written_procedures(st, i, nodes, done);
    } else {
        lemma_token_stands(st, i, whole, 0);
        match nodes[0] {
            SpecAst::VariableDeclaration { variable: named, type_spec: typed } => {
                match (*named, *typed) {
                    (SpecAst::Variable(name), SpecAst::Type(t)) => {
                        let rest = written_declarations(nodes.drop_first());
                        let n1 = rest.len() as int;
                        assert(written_declaration(nodes[0]) == written_variable(name, t));
                        assert(whole.len() == 5 + n1);
                        lemma_part_stands(st, i, whole, 0, 5);
                        assert(whole.subrange(0, 5) =~= written_variable(name, t));
                        lemma_part_stands(st, i, whole, 5, 5 + n1);
                        assert(whole.subrange(5, 5 + n1) =~= rest);
                        lemma_written_variable(st, i, name, t, done);
                        assert(nodes[0] == declaration_of(name, t));
                        lemma_written_declarations(
                            st,
                            i + 5,
                            nodes.drop_first(),
                            done.push(nodes[0]),
                            true,
                        );
                        assert(done.push(nodes[0]) + nodes.drop_first() =~= done + nodes);
                    },
                    _ => {},
                }
            },
            SpecAst::ProcedureDeclaration { .. } => {
                lemma_written_procedures(st, i, nodes, done);
            },
            _ => {},
        }
    }
}

/// Where a written block stands in a stream, the parser reads the block back.
pub proof fn lemma_written_block(st: Stream, i: int, tree: SpecAst)
    requires
        is_block(tree),
        stands_at(st, i, written_block(tree)),
    ensures
        block(st, i) == Ok::<(SpecAst, nat), SpecParseError>((tree, written_block(tree).len())),
    decreases tree, 0int,
{
    let whole = written_block(tree);
    match tree {
        SpecAst::Block { declarations: listed, compound_statements: body } => {
            let first = written_declarations(listed);
            let second = written_statement(*body);
            let nd = first.len() as int;
            let nb = second.len() as int;
            lemma_compound_begins(*body);
            lemma_part_stands(st, i, whole, 0, nd);
            assert(whole.subrange(0, nd) =~= first);
            lemma_part_stands(st, i, whole, nd, nd + nb);
            assert(whole.subrange(nd, nd + nb) =~= second);
            lemma_token_stands(st, i, whole, nd);
            assert(whole[nd] == second[0]);
            lemma_written_declarations(st, i, listed, Seq::empty(), false);
            assert(Seq::<SpecAst>::empty() + listed =~= listed);
            assert(declarations(st, i) == Ok::<(Seq<SpecAst>, nat), SpecParseError>(
                (listed, nd as nat),
            ));
            lemma_written_statement(st, i + nd, *body);
        },
        _ => {},
    }
}

/// Written out and parsed again, a program is itself.
pub proof fn program_round_trip(tree: SpecAst)
    requires
        is_program(tree),
    ensures
        parse_from(stream_of(written_program(tree)), -1) == Ok::<SpecAst, SpecParseError>(tree),
{
    let st = stream_of(written_program(tree));
    let whole = written_program(tree);
    match tree {
        SpecAst::Program { name, block: body } => {
            let inner = written_block(*body);
            let nb = inner.len() as int;
            assert(whole.len() == nb + 4);
            assert(st.tokens.subrange(0, whole.len() as int) =~= whole);
            lemma_token_stands(st, 0, whole, 0);
            lemma_token_stands(st, 0, whole, 1);
            lemma_token_stands(st, 0, whole, 2);
            lemma_token_stands(st, 0, whole, 3 + nb);
            lemma_part_stands(st, 0, whole, 3, 3 + nb);
            assert(whole.subrange(3, 3 + nb) =~= inner);
            lemma_written_block(st, 3, *body);
            assert(variable(st, 1) == Ok::<(Seq<char>, nat), SpecParseError>((name, 1)));
            assert(eat(st, 0, SpecToken::Keyword(Keyword::Program), Expected::Program) is Ok);
            assert(eat(st, 2, SpecToken::Semi, Expected::Semi) is Ok);
            assert(eat(st, 3 + nb, SpecToken::Dot, Expected::Dot) is Ok);
            assert(program(st, 0) == Ok::<(SpecAst, nat), SpecParseError>(
                (tree, (nb + 4) as nat),
            ));
            assert(current(st, 4 + nb) == SpecToken::Eof);
            assert(eat(st, 4 + nb, SpecToken::Eof, Expected::Eof) is Ok);
        },
        _ => {},
    }
}

} // verus!
