//! Where the tokens do not fit: what cannot be read within something is what it cannot be read for.
use vstd::prelude::*;

use crate::ast::{
    ComprehensionModel, ExceptHandlerModel, ExpressionModel, LocatedStatementModel, Operator,
    ParametersModel, SingleImportModel, WithItemModel,
};
use crate::expression_laws::{closing, ends, may_begin, nothing_given};
use crate::grammar;
use crate::grammar::{ArgumentsModel, Infix, Tokens};
use crate::operator_laws::{reads, refuses, stands, tightness, written, written_at};
use crate::statement_laws::{augmented_sign, begins_with_expression};
use crate::token::Symbol;

verus! {

// ---------------------------------------------------------------------------------------------
// Expressions.

/// An operation fails with its operands.
pub proof fn law_operation_fails_with_operands(
    ts: Tokens,
    at: int,
    level: u8,
    a: ExpressionModel,
    infix: Infix,
    place: int,
)
    requires
        0 <= at,
        level < 10,
    ensures
        level == 2 && stands(ts, at, Symbol::Not) && refuses(
            grammar::operation(ts, at + 1, 2),
            place,
        ) ==> refuses(grammar::operation(ts, at, 2), place),
        !(level == 2 && stands(ts, at, Symbol::Not)) && refuses(
            grammar::operation(ts, at, (level + 1) as u8),
            place,
        ) ==> refuses(grammar::operation(ts, at, level), place),
        tightness(infix) == level && written_at(ts, at, infix) && refuses(
            grammar::operation(ts, at + written(infix).len(), (level + 1) as u8),
            place,
        ) ==> refuses(grammar::more_operands(ts, at, level, a), place),
{
    reveal(grammar::operation);
    reveal(grammar::more_operands);
    if tightness(infix) == level && written_at(ts, at, infix) {
        assert(stands(ts, at, written(infix)[0]));
        if written(infix).len() == 2 {
            assert(stands(ts, at + 1, written(infix)[1]));
        }
        assert(grammar::infix(ts, at, level) == Some((infix, written(infix).len() as int)));
    }
}

/// A signed operand fails with the operand, and a power with its base and its exponent.
pub proof fn law_factor_fails_with_parts(
    ts: Tokens,
    at: int,
    a: ExpressionModel,
    p: int,
    place: int,
)
    requires
        0 <= at,
    ensures
        (stands(ts, at, Symbol::Plus) || stands(ts, at, Symbol::Minus) || stands(
            ts,
            at,
            Symbol::Tilde,
        )) && refuses(grammar::factor(ts, at + 1), place) ==> refuses(
            grammar::factor(ts, at),
            place,
        ),
        !stands(ts, at, Symbol::Plus) && !stands(ts, at, Symbol::Minus) && !stands(
            ts,
            at,
            Symbol::Tilde,
        ) && refuses(grammar::atom_expression(ts, at), place) ==> refuses(
            grammar::factor(ts, at),
            place,
        ),
        refuses(grammar::atom(ts, at), place) ==> refuses(grammar::atom_expression(ts, at), place),
        reads(grammar::atom_expression(ts, at), a, at, p, ts) && stands(ts, p, Symbol::DoubleStar)
            && refuses(grammar::factor(ts, p + 1), place) ==> refuses(grammar::power(ts, at), place),
        refuses(grammar::operation(ts, at, 10), place) <==> refuses(grammar::factor(ts, at), place),
{
    reveal(grammar::operation);
    reveal(grammar::factor);
    reveal(grammar::power);
    reveal(grammar::atom_expression);
    reveal(grammar::atom);
    assert(refuses(grammar::atom_expression(ts, at), place) ==> refuses(
        grammar::power(ts, at),
        place,
    ));
}

/// Calls and subscripts fail with what stands between their brackets.
pub proof fn law_trailers_fail_with_contents(
    ts: Tokens,
    at: int,
    a: ExpressionModel,
    place: int,
)
    requires
        0 <= at,
    ensures
        stands(ts, at, Symbol::Lpar) && refuses(
            grammar::arguments(ts, at + 1, ArgumentsModel { args: seq![], keywords: seq![] }),
            place,
        ) ==> refuses(grammar::trailers(ts, at, a), place),
        stands(ts, at, Symbol::Lsqb) && refuses(grammar::subscripts(ts, at + 1), place) ==> refuses(
            grammar::trailers(ts, at, a),
            place,
        ),
{
    reveal(grammar::trailers);
    reveal(grammar::arguments);
    reveal(grammar::subscripts);
}

/// Arguments fail with an argument, and an argument with its value.
pub proof fn law_arguments_fail_with_values(
    ts: Tokens,
    at: int,
    given: ArgumentsModel,
    value: ExpressionModel,
    p: int,
    place: int,
)
    requires
        0 <= at,
    ensures
        !stands(ts, at, Symbol::Rpar) && refuses(grammar::argument(ts, at, given), place)
            ==> refuses(grammar::arguments(ts, at, given), place),
        (stands(ts, at, Symbol::Star) || stands(ts, at, Symbol::DoubleStar)) && refuses(
            grammar::test(ts, at + 1),
            place,
        ) ==> refuses(grammar::argument(ts, at, given), place),
        at < ts.len() && ts[at].tok is Name && stands(ts, at + 1, Symbol::Equal) && refuses(
            grammar::test(ts, at + 2),
            place,
        ) ==> refuses(grammar::argument(ts, at, given), place),
        !stands(ts, at, Symbol::Star) && !stands(ts, at, Symbol::DoubleStar) && !(at < ts.len()
            && ts[at].tok is Name && stands(ts, at + 1, Symbol::Equal)) ==> {
            &&& refuses(grammar::test(ts, at), place) ==> refuses(
                grammar::argument(ts, at, given),
                place,
            )
            &&& reads(grammar::test(ts, at), value, at, p, ts) && stands(ts, p, Symbol::For)
                && refuses(grammar::generators(ts, p, seq![]), place) ==> refuses(
                grammar::argument(ts, at, given),
                place,
            )
        },
{
    reveal(grammar::arguments);
    reveal(grammar::argument);
    reveal(grammar::test);
    reveal(grammar::generators);
}

/// Lists fail with their elements.
pub proof fn law_lists_fail_with_elements(
    ts: Tokens,
    at: int,
    targets: bool,
    first: ExpressionModel,
    before: Seq<ExpressionModel>,
    p: int,
    place: int,
)
    requires
        0 <= at,
    ensures
        stands(ts, at, Symbol::Star) && refuses(grammar::operation(ts, at + 1, 4), place)
            ==> refuses(grammar::element(ts, at, targets), place),
        refuses(grammar::element(ts, at, targets), place) ==> refuses(
            grammar::testlist(ts, at, targets),
            place,
        ),
        reads(grammar::element(ts, at, targets), first, at, p, ts) && stands(ts, p, Symbol::Comma)
            && refuses(grammar::more_elements(ts, p, seq![first], targets), place) ==> refuses(
            grammar::testlist(ts, at, targets),
            place,
        ),
        stands(ts, at, Symbol::Comma) && may_begin(ts, at + 1) && refuses(
            grammar::element(ts, at + 1, targets),
            place,
        ) ==> refuses(grammar::more_elements(ts, at, before, targets), place),
{
    reveal(grammar::element);
    reveal(grammar::testlist);
    reveal(grammar::more_elements);
    reveal(grammar::operation);
}

/// What stands between brackets fails with its parts.
pub proof fn law_brackets_fail_with_contents(
    ts: Tokens,
    at: int,
    opening: Symbol,
    first: ExpressionModel,
    p: int,
    place: int,
)
    requires
        0 <= at,
        opening == Symbol::Lpar || opening == Symbol::Lsqb || opening == Symbol::Lbrace,
        stands(ts, at, opening),
        !stands(ts, at + 1, closing(opening)),
        opening == Symbol::Lpar ==> !stands(ts, at + 1, Symbol::Yield),
    ensures
        refuses(grammar::element(ts, at + 1, false), place) ==> refuses(
            grammar::atom(ts, at),
            place,
        ),
        reads(grammar::element(ts, at + 1, false), first, at, p, ts) && stands(ts, p, Symbol::For)
            && refuses(grammar::generators(ts, p, seq![]), place) ==> refuses(
            grammar::atom(ts, at),
            place,
        ),
        reads(grammar::element(ts, at + 1, false), first, at, p, ts) && stands(ts, p, Symbol::Comma)
            && refuses(grammar::more_elements(ts, p, seq![first], false), place) ==> refuses(
            grammar::atom(ts, at),
            place,
        ),
        opening == Symbol::Lpar && reads(grammar::element(ts, at + 1, false), first, at, p, ts)
            && !stands(ts, p, Symbol::For) && !stands(ts, p, Symbol::Comma) && !stands(
            ts,
            p,
            Symbol::Rpar,
        ) ==> refuses(grammar::atom(ts, at), p),
{
    assert(grammar::atom(ts, at) == match opening {
        Symbol::Lpar => grammar::parentheses(ts, at),
        Symbol::Lsqb => grammar::brackets(ts, at),
        _ => grammar::braces(ts, at),
    }) by {
        reveal(grammar::atom);
        reveal(grammar::parentheses);
        reveal(grammar::brackets);
        reveal(grammar::braces);
    }
    reveal(grammar::element);
    reveal(grammar::generators);
    reveal(grammar::more_elements);
    match opening {
        Symbol::Lpar => {
            reveal(grammar::parentheses);
        },
        Symbol::Lsqb => {
            reveal(grammar::brackets);
        },
        _ => {
            reveal(grammar::braces);
        },
    }
}

/// A dictionary fails with its keys and values.
pub proof fn law_pairs_fail_with_parts(
    ts: Tokens,
    at: int,
    before: Seq<(ExpressionModel, ExpressionModel)>,
    key: ExpressionModel,
    p: int,
    value: ExpressionModel,
    q: int,
    place: int,
)
    requires
        0 <= at,
    ensures
        stands(ts, at, Symbol::Comma) && may_begin(ts, at + 1) ==> {
            &&& refuses(grammar::test(ts, at + 1), place) ==> refuses(
                grammar::more_pairs(ts, at, before),
                place,
            )
            &&& reads(grammar::test(ts, at + 1), key, at, p, ts) && stands(ts, p, Symbol::Colon)
                && refuses(grammar::test(ts, p + 1), place) ==> refuses(
                grammar::more_pairs(ts, at, before),
                place,
            )
        },
        stands(ts, at, Symbol::Lbrace) && !stands(ts, at + 1, Symbol::Rbrace) && !stands(
            ts,
            at + 1,
            Symbol::Star,
        ) && reads(grammar::element(ts, at + 1, false), key, at, p, ts) && stands(
            ts,
            p,
            Symbol::Colon,
        ) ==> {
            &&& refuses(grammar::test(ts, p + 1), place) ==> refuses(grammar::atom(ts, at), place)
            &&& reads(grammar::test(ts, p + 1), value, p, q, ts) ==> {
                &&& stands(ts, q, Symbol::For) && refuses(
                    grammar::generators(ts, q, seq![]),
                    place,
                ) ==> refuses(grammar::atom(ts, at), place)
                &&& !stands(ts, q, Symbol::For) && refuses(
                    grammar::more_pairs(ts, q, seq![(key, value)]),
                    place,
                ) ==> refuses(grammar::atom(ts, at), place)
            }
        },
{
    assert(stands(ts, at, Symbol::Lbrace) ==> grammar::atom(ts, at) == grammar::braces(ts, at)) by {
        reveal(grammar::atom);
        reveal(grammar::braces);
    }
    reveal(grammar::more_pairs);
    reveal(grammar::test);
    reveal(grammar::element);
    reveal(grammar::generators);
    reveal(grammar::braces);
}

/// A `for` clause fails where its words are missing, and with its parts.
pub proof fn law_for_clauses_fail_with_parts(
    ts: Tokens,
    at: int,
    before: Seq<ComprehensionModel>,
    ifs: Seq<ExpressionModel>,
    target: ExpressionModel,
    p: int,
    iter: ExpressionModel,
    q: int,
    place: int,
)
    requires
        0 <= at,
    ensures
        !stands(ts, at, Symbol::For) ==> refuses(grammar::generators(ts, at, before), at),
        stands(ts, at, Symbol::For) && refuses(grammar::testlist(ts, at + 1, true), place)
            ==> refuses(grammar::generators(ts, at, before), place),
        stands(ts, at, Symbol::For) && reads(
            grammar::testlist(ts, at + 1, true),
            target,
            at,
            p,
            ts,
        ) ==> {
            &&& !stands(ts, p, Symbol::In) ==> refuses(grammar::generators(ts, at, before), p)
            &&& stands(ts, p, Symbol::In) && refuses(grammar::operation(ts, p + 1, 0), place)
                ==> refuses(grammar::generators(ts, at, before), place)
            &&& stands(ts, p, Symbol::In) && reads(
                grammar::operation(ts, p + 1, 0),
                iter,
                p,
                q,
                ts,
            ) && refuses(grammar::conditions(ts, q, seq![]), place) ==> refuses(
                grammar::generators(ts, at, before),
                place,
            )
        },
        stands(ts, at, Symbol::If) && refuses(grammar::operation(ts, at + 1, 0), place) ==> refuses(
            grammar::conditions(ts, at, ifs),
            place,
        ),
{
    reveal(grammar::generators);
    reveal(grammar::conditions);
    reveal(grammar::testlist);
    reveal(grammar::operation);
}

/// A `yield` fails with what it hands out, and between parentheses where they are not closed.
pub proof fn law_yields_fail_with_parts(
    ts: Tokens,
    at: int,
    value: ExpressionModel,
    p: int,
    place: int,
)
    requires
        0 <= at,
    ensures
        !stands(ts, at, Symbol::Yield) ==> refuses(grammar::yield_expression(ts, at), at),
        stands(ts, at, Symbol::Yield) && stands(ts, at + 1, Symbol::From) && refuses(
            grammar::test(ts, at + 2),
            place,
        ) ==> refuses(grammar::yield_expression(ts, at), place),
        stands(ts, at, Symbol::Yield) && may_begin(ts, at + 1) && refuses(
            grammar::testlist(ts, at + 1, false),
            place,
        ) ==> refuses(grammar::yield_expression(ts, at), place),
        stands(ts, at, Symbol::Lpar) && stands(ts, at + 1, Symbol::Yield) ==> {
            &&& refuses(grammar::yield_expression(ts, at + 1), place) ==> refuses(
                grammar::atom(ts, at),
                place,
            )
            &&& reads(grammar::yield_expression(ts, at + 1), value, at, p, ts) && !stands(
                ts,
                p,
                Symbol::Rpar,
            ) ==> refuses(grammar::atom(ts, at), p)
        },
{
    assert(stands(ts, at, Symbol::Lpar) ==> grammar::atom(ts, at) == grammar::parentheses(ts, at))
        by {
        reveal(grammar::atom);
        reveal(grammar::parentheses);
    }
    reveal(grammar::parentheses);
    reveal(grammar::yield_expression);
    reveal(grammar::test);
    reveal(grammar::testlist);
}

/// Subscripts fail with their parts.
pub proof fn law_subscripts_fail_with_parts(
    ts: Tokens,
    at: int,
    first: ExpressionModel,
    before: Seq<ExpressionModel>,
    p: int,
    upper: ExpressionModel,
    q: int,
    place: int,
)
    requires
        0 <= at,
    ensures
        refuses(grammar::subscript(ts, at), place) ==> refuses(grammar::subscripts(ts, at), place),
        reads(grammar::subscript(ts, at), first, at, p, ts) && stands(ts, p, Symbol::Comma)
            && refuses(grammar::more_subscripts(ts, p, seq![first]), place) ==> refuses(
            grammar::subscripts(ts, at),
            place,
        ),
        stands(ts, at, Symbol::Comma) && (may_begin(ts, at + 1) || stands(
            ts,
            at + 1,
            Symbol::Colon,
        )) && refuses(grammar::subscript(ts, at + 1), place) ==> refuses(
            grammar::more_subscripts(ts, at, before),
            place,
        ),
        !stands(ts, at, Symbol::Colon) && refuses(grammar::test(ts, at), place) ==> refuses(
            grammar::subscript(ts, at),
            place,
        ),
        stands(ts, at, Symbol::Colon) && refuses(grammar::bound(ts, at + 1), place) ==> refuses(
            grammar::slice(ts, at, first),
            place,
        ),
        stands(ts, at, Symbol::Colon) && ends(grammar::bound(ts, at + 1), upper, q) && at < q
            <= ts.len() && stands(ts, q, Symbol::Colon) && refuses(
            grammar::bound(ts, q + 1),
            place,
        ) ==> refuses(grammar::slice(ts, at, first), place),
{
    reveal(grammar::subscripts);
    reveal(grammar::more_subscripts);
    reveal(grammar::subscript);
    reveal(grammar::slice);
    reveal(grammar::bound);
    reveal(grammar::test);
}

/// Choices and functions fail with their parts.
pub proof fn law_tests_fail_with_parts(
    ts: Tokens,
    at: int,
    args: ParametersModel,
    a: ExpressionModel,
    p: int,
    b: ExpressionModel,
    q: int,
    place: int,
)
    requires
        0 <= at,
    ensures
        !stands(ts, at, Symbol::Lambda) && refuses(grammar::operation(ts, at, 0), place) ==> refuses(
            grammar::test(ts, at),
            place,
        ),
        !stands(ts, at, Symbol::Lambda) && reads(grammar::operation(ts, at, 0), a, at, p, ts)
            && stands(ts, p, Symbol::If) ==> {
            &&& refuses(grammar::operation(ts, p + 1, 0), place) ==> refuses(
                grammar::test(ts, at),
                place,
            )
            &&& reads(grammar::operation(ts, p + 1, 0), b, p, q, ts) && stands(
                ts,
                q,
                Symbol::Else,
            ) && refuses(grammar::test(ts, q + 1), place) ==> refuses(grammar::test(ts, at), place)
        },
        stands(ts, at, Symbol::Lambda) && refuses(
            grammar::parameters(ts, at + 1, nothing_given()),
            place,
        ) ==> refuses(grammar::test(ts, at), place),
        stands(ts, at, Symbol::Lambda) && ends(
            grammar::parameters(ts, at + 1, nothing_given()),
            args,
            p,
        ) && at < p <= ts.len() && stands(ts, p, Symbol::Colon) && refuses(
            grammar::test(ts, p + 1),
            place,
        ) ==> refuses(grammar::test(ts, at), place),
{
    reveal(grammar::test);
    reveal(grammar::operation);
    reveal(grammar::parameters);
}

/// Parameters fail with a parameter, with a default, and where a name is missing.
pub proof fn law_parameters_fail_with_parts(
    ts: Tokens,
    at: int,
    given: ParametersModel,
    place: int,
)
    requires
        0 <= at,
    ensures
        (at < ts.len() && ts[at].tok is Name || stands(ts, at, Symbol::Star)) && refuses(
            grammar::parameter(ts, at, given),
            place,
        ) ==> refuses(grammar::parameters(ts, at, given), place),
        stands(ts, at, Symbol::DoubleStar) && !(at + 1 < ts.len() && ts[at + 1].tok is Name)
            ==> refuses(grammar::parameters(ts, at, given), at + 1),
        at < ts.len() && ts[at].tok is Name && stands(ts, at + 1, Symbol::Equal) && refuses(
            grammar::test(ts, at + 2),
            place,
        ) ==> refuses(grammar::parameter(ts, at, given), place),
{
    reveal(grammar::parameters);
    reveal(grammar::parameter);
    reveal(grammar::test);
}

// ---------------------------------------------------------------------------------------------
// Statements.

/// Statements of one line fail with their expressions.
pub proof fn law_small_statements_fail_with_parts(
    ts: Tokens,
    at: int,
    first: ExpressionModel,
    p: int,
    before: Seq<ExpressionModel>,
    place: int,
)
    requires
        0 <= at,
    ensures
        begins_with_expression(ts, at) && refuses(grammar::assigned(ts, at), place) ==> refuses(
            grammar::small_statement(ts, at),
            place,
        ),
        stands(ts, at, Symbol::Equal) && refuses(grammar::assigned(ts, at + 1), place) ==> refuses(
            grammar::assignment(ts, at, before, first),
            place,
        ),
        stands(ts, at, Symbol::Return) && may_begin(ts, at + 1) && refuses(
            grammar::testlist(ts, at + 1, false),
            place,
        ) ==> refuses(grammar::small_statement(ts, at), place),
        stands(ts, at, Symbol::Raise) && may_begin(ts, at + 1) ==> {
            &&& refuses(grammar::test(ts, at + 1), place) ==> refuses(
                grammar::small_statement(ts, at),
                place,
            )
            &&& reads(grammar::test(ts, at + 1), first, at, p, ts) && stands(ts, p, Symbol::From)
                && refuses(grammar::test(ts, p + 1), place) ==> refuses(
                grammar::small_statement(ts, at),
                place,
            )
        },
        stands(ts, at, Symbol::Assert) ==> {
            &&& refuses(grammar::test(ts, at + 1), place) ==> refuses(
                grammar::small_statement(ts, at),
                place,
            )
            &&& reads(grammar::test(ts, at + 1), first, at, p, ts) && stands(ts, p, Symbol::Comma)
                && refuses(grammar::test(ts, p + 1), place) ==> refuses(
                grammar::small_statement(ts, at),
                place,
            )
        },
        stands(ts, at, Symbol::Del) ==> {
            &&& refuses(grammar::element(ts, at + 1, true), place) ==> refuses(
                grammar::small_statement(ts, at),
                place,
            )
            &&& reads(grammar::element(ts, at + 1, true), first, at, p, ts) && refuses(
                grammar::more_elements(ts, p, seq![first], true),
                place,
            ) ==> refuses(grammar::small_statement(ts, at), place)
        },
        (stands(ts, at, Symbol::Global) || stands(ts, at, Symbol::Nonlocal)) && refuses(
            grammar::names(ts, at + 1, seq![]),
            place,
        ) ==> refuses(grammar::small_statement(ts, at), place),
{
    reveal(grammar::small_statement);
    reveal(grammar::expression_statement);
    reveal(grammar::assignment);
    reveal(grammar::return_statement);
    reveal(grammar::raise_statement);
    reveal(grammar::assert_statement);
    reveal(grammar::delete_statement);
}

/// An augmented assignment fails with its value.
pub proof fn law_augmented_assignment_fails_with_value(
    ts: Tokens,
    at: int,
    target: ExpressionModel,
    p: int,
    op: Operator,
    place: int,
)
    requires
        begins_with_expression(ts, at),
        reads(grammar::assigned(ts, at), target, at, p, ts),
        stands(ts, p, augmented_sign(op)),
        refuses(grammar::assigned(ts, p + 1), place),
    ensures
        refuses(grammar::small_statement(ts, at), place),
{
    reveal(grammar::small_statement);
    reveal(grammar::expression_statement);
}

/// Imports fail where a name is missing.
pub proof fn law_imports_fail_with_parts(
    ts: Tokens,
    at: int,
    module: Seq<char>,
    p: int,
    text: Seq<char>,
    before: Seq<SingleImportModel>,
    all: Seq<SingleImportModel>,
    q: int,
    place: int,
)
    requires
        0 <= at,
    ensures
        stands(ts, at, Symbol::Import) && refuses(grammar::modules(ts, at + 1, seq![]), place)
            ==> refuses(grammar::small_statement(ts, at), place),
        stands(ts, at, Symbol::From) && refuses(grammar::dotted(ts, at + 1), place) ==> refuses(
            grammar::small_statement(ts, at),
            place,
        ),
        stands(ts, at, Symbol::From) && reads(grammar::dotted(ts, at + 1), module, at, p, ts)
            && stands(ts, p, Symbol::Import) ==> {
            &&& stands(ts, p + 1, Symbol::Lpar) && refuses(
                grammar::symbols(ts, p + 2, module, seq![]),
                place,
            ) ==> refuses(grammar::small_statement(ts, at), place)
            &&& !stands(ts, p + 1, Symbol::Lpar) && !stands(ts, p + 1, Symbol::Star) && refuses(
                grammar::symbols(ts, p + 1, module, seq![]),
                place,
            ) ==> refuses(grammar::small_statement(ts, at), place)
            &&& stands(ts, p + 1, Symbol::Lpar) && reads(
                grammar::symbols(ts, p + 2, module, seq![]),
                all,
                p,
                q,
                ts,
            ) && !stands(ts, q, Symbol::Rpar) && !stands(ts, q, Symbol::Comma) ==> refuses(
                grammar::small_statement(ts, at),
                q,
            )
        },
        refuses(grammar::dotted(ts, at), place) ==> refuses(
            grammar::modules(ts, at, before),
            place,
        ),
        reads(grammar::dotted(ts, at), module, at, p, ts) && refuses(grammar::alias(ts, p), place)
            ==> refuses(grammar::modules(ts, at, before), place),
        !(at < ts.len() && ts[at].tok is Name) ==> refuses(
            grammar::symbols(ts, at, module, before),
            at,
        ),
        at < ts.len() && ts[at].tok is Name && refuses(grammar::alias(ts, at + 1), place)
            ==> refuses(grammar::symbols(ts, at, module, before), place),
        stands(ts, at, Symbol::As) && !(at + 1 < ts.len() && ts[at + 1].tok is Name) ==> refuses(
            grammar::alias(ts, at),
            at + 1,
        ),
        stands(ts, at, Symbol::Dot) && !(at + 1 < ts.len() && ts[at + 1].tok is Name) ==> refuses(
            grammar::more_dotted(ts, at, text),
            at + 1,
        ),
{
    reveal(grammar::small_statement);
    reveal(grammar::from_import);
    reveal(grammar::modules);
    reveal(grammar::symbols);
    reveal(grammar::alias);
    reveal(grammar::more_dotted);
}

/// Lines and blocks fail with their statements.
pub proof fn law_blocks_fail_with_statements(
    ts: Tokens,
    at: int,
    before: Seq<LocatedStatementModel>,
    keyword: Symbol,
    place: int,
)
    requires
        0 <= at,
    ensures
        refuses(grammar::small_statement(ts, at), place) ==> refuses(
            grammar::line(ts, at, before),
            place,
        ),
        stands(ts, at, Symbol::Colon) && stands(ts, at + 1, Symbol::Newline) && stands(
            ts,
            at + 2,
            Symbol::Indent,
        ) && refuses(grammar::statement(ts, at + 3), place) ==> refuses(
            grammar::block(ts, at),
            place,
        ),
        !stands(ts, at, Symbol::Dedent) && refuses(grammar::statement(ts, at), place) ==> refuses(
            grammar::more_statements(ts, at, before),
            place,
        ),
        stands(ts, at, keyword) && refuses(grammar::block(ts, at + 1), place) ==> refuses(
            grammar::optional_block(ts, at, keyword),
            place,
        ),
{
    reveal(grammar::line);
    reveal(grammar::block);
    reveal(grammar::more_statements);
    reveal(grammar::optional_block);
    reveal(grammar::statement);
}

/// Conditions and loops fail with their parts.
#[verifier::spinoff_prover]
pub proof fn law_loops_fail_with_parts(
    ts: Tokens,
    at: int,
    first: ExpressionModel,
    p: int,
    body: Seq<LocatedStatementModel>,
    q: int,
    place: int,
)
    requires
        0 <= at,
    ensures
        refuses(grammar::test(ts, at + 1), place) ==> {
            &&& refuses(grammar::if_statement(ts, at), place)
            &&& refuses(grammar::while_statement(ts, at), place)
        },
        reads(grammar::test(ts, at + 1), first, at, p, ts) ==> {
            &&& refuses(grammar::block(ts, p), place) ==> {
                &&& refuses(grammar::if_statement(ts, at), place)
                &&& refuses(grammar::while_statement(ts, at), place)
            }
            &&& reads(grammar::block(ts, p), body, p, q, ts) ==> {
                &&& stands(ts, q, Symbol::Elif) && refuses(grammar::if_statement(ts, q), place)
                    ==> refuses(grammar::if_statement(ts, at), place)
                &&& !stands(ts, q, Symbol::Elif) && refuses(
                    grammar::optional_block(ts, q, Symbol::Else),
                    place,
                ) ==> refuses(grammar::if_statement(ts, at), place)
                &&& refuses(grammar::optional_block(ts, q, Symbol::Else), place) ==> refuses(
                    grammar::while_statement(ts, at),
                    place,
                )
            }
        },
{
    reveal(grammar::if_statement);
    reveal(grammar::while_statement);
    reveal(grammar::block);
    reveal(grammar::optional_block);
}

/// A `for` fails with its parts.
pub proof fn law_for_fails_with_parts(
    ts: Tokens,
    at: int,
    target: ExpressionModel,
    p: int,
    iter: ExpressionModel,
    q: int,
    body: Seq<LocatedStatementModel>,
    r: int,
    place: int,
)
    requires
        0 <= at,
    ensures
        refuses(grammar::testlist(ts, at + 1, true), place) ==> refuses(
            grammar::for_statement(ts, at),
            place,
        ),
        reads(grammar::testlist(ts, at + 1, true), target, at, p, ts) && stands(ts, p, Symbol::In)
            ==> {
            &&& refuses(grammar::testlist(ts, p + 1, false), place) ==> refuses(
                grammar::for_statement(ts, at),
                place,
            )
            &&& reads(grammar::testlist(ts, p + 1, false), iter, p, q, ts) ==> {
                &&& refuses(grammar::block(ts, q), place) ==> refuses(
                    grammar::for_statement(ts, at),
                    place,
                )
                &&& reads(grammar::block(ts, q), body, q, r, ts) && refuses(
                    grammar::optional_block(ts, r, Symbol::Else),
                    place,
                ) ==> refuses(grammar::for_statement(ts, at), place)
            }
        },
{
    reveal(grammar::for_statement);
    reveal(grammar::block);
    reveal(grammar::optional_block);
}

/// A `try` fails with its parts.
#[verifier::spinoff_prover]
pub proof fn law_try_fails_with_parts(
    ts: Tokens,
    at: int,
    before: Seq<ExceptHandlerModel>,
    body: Seq<LocatedStatementModel>,
    p: int,
    handlers: Seq<ExceptHandlerModel>,
    q: int,
    orelse: Option<Seq<LocatedStatementModel>>,
    r: int,
    place: int,
)
    requires
        0 <= at,
    ensures
        stands(ts, at, Symbol::Try) && refuses(grammar::block(ts, at + 1), place) ==> refuses(
            grammar::try_statement(ts, at),
            place,
        ),
        stands(ts, at, Symbol::Try) && reads(grammar::block(ts, at + 1), body, at, p, ts) ==> {
            &&& refuses(grammar::handlers(ts, p, seq![]), place) ==> refuses(
                grammar::try_statement(ts, at),
                place,
            )
            &&& ends(grammar::handlers(ts, p, seq![]), handlers, q) && p <= q <= ts.len() ==> {
                &&& handlers.len() == 0 && stands(ts, q, Symbol::Finally) && refuses(
                    grammar::block(ts, q + 1),
                    place,
                ) ==> refuses(grammar::try_statement(ts, at), place)
                &&& handlers.len() > 0 && refuses(
                    grammar::optional_block(ts, q, Symbol::Else),
                    place,
                ) ==> refuses(grammar::try_statement(ts, at), place)
                &&& handlers.len() > 0 && ends(
                    grammar::optional_block(ts, q, Symbol::Else),
                    orelse,
                    r,
                ) && q <= r <= ts.len() && refuses(
                    grammar::optional_block(ts, r, Symbol::Finally),
                    place,
                ) ==> refuses(grammar::try_statement(ts, at), place)
            }
        },
{
    reveal(grammar::try_statement);
    reveal(grammar::block);
    reveal(grammar::handlers);
    reveal(grammar::optional_block);
}

/// Handlers fail with their parts.
pub proof fn law_handlers_fail_with_parts(
    ts: Tokens,
    at: int,
    before: Seq<ExceptHandlerModel>,
    typ: ExpressionModel,
    p: int,
    name: Option<Seq<char>>,
    q: int,
    place: int,
)
    requires
        0 <= at,
        stands(ts, at, Symbol::Except),
    ensures
        stands(ts, at + 1, Symbol::Colon) && refuses(grammar::block(ts, at + 1), place) ==> refuses(
            grammar::handlers(ts, at, before),
            place,
        ),
        !stands(ts, at + 1, Symbol::Colon) ==> {
            &&& refuses(grammar::test(ts, at + 1), place) ==> refuses(
                grammar::handlers(ts, at, before),
                place,
            )
            &&& reads(grammar::test(ts, at + 1), typ, at, p, ts) ==> {
                &&& refuses(grammar::alias(ts, p), place) ==> refuses(
                    grammar::handlers(ts, at, before),
                    place,
                )
                &&& ends(grammar::alias(ts, p), name, q) && p <= q <= ts.len() && refuses(
                    grammar::block(ts, q),
                    place,
                ) ==> refuses(grammar::handlers(ts, at, before), place)
            }
        },
{
    reveal(grammar::handlers);
    reveal(grammar::block);
}

/// A `with` fails with its parts.
pub proof fn law_with_fails_with_parts(
    ts: Tokens,
    at: int,
    before: Seq<WithItemModel>,
    items: Seq<WithItemModel>,
    value: ExpressionModel,
    p: int,
    place: int,
)
    requires
        0 <= at,
    ensures
        refuses(grammar::with_items(ts, at + 1, seq![]), place) ==> refuses(
            grammar::with_statement(ts, at),
            place,
        ),
        reads(grammar::with_items(ts, at + 1, seq![]), items, at, p, ts) && refuses(
            grammar::block(ts, p),
            place,
        ) ==> refuses(grammar::with_statement(ts, at), place),
        refuses(grammar::with_item(ts, at), place) ==> refuses(
            grammar::with_items(ts, at, before),
            place,
        ),
        refuses(grammar::test(ts, at), place) ==> refuses(grammar::with_item(ts, at), place),
        reads(grammar::test(ts, at), value, at, p, ts) && stands(ts, p, Symbol::As) && refuses(
            grammar::operation(ts, p + 1, 4),
            place,
        ) ==> refuses(grammar::with_item(ts, at), place),
{
    reveal(grammar::with_statement);
    reveal(grammar::with_items);
    reveal(grammar::with_item);
    reveal(grammar::block);
}

/// Functions and classes fail where a name or a bracket is missing, and with their parts.
#[verifier::spinoff_prover]
pub proof fn law_definitions_fail_with_parts(
    ts: Tokens,
    at: int,
    decorators: Seq<ExpressionModel>,
    args: ParametersModel,
    given: ArgumentsModel,
    q: int,
    place: int,
)
    requires
        0 <= at,
    ensures
        ({
            let parsed = grammar::definition(ts, at, decorators);
            let named = at + 1 < ts.len() && ts[at + 1].tok is Name;
            &&& !stands(ts, at, Symbol::Def) && !stands(ts, at, Symbol::Class) ==> refuses(
                parsed,
                at,
            )
            &&& (stands(ts, at, Symbol::Def) || stands(ts, at, Symbol::Class)) && !named
                ==> refuses(parsed, at + 1)
            &&& stands(ts, at, Symbol::Def) && named ==> {
                &&& !stands(ts, at + 2, Symbol::Lpar) ==> refuses(parsed, at + 2)
                &&& stands(ts, at + 2, Symbol::Lpar) && refuses(
                    grammar::parameters(ts, at + 3, nothing_given()),
                    place,
                ) ==> refuses(parsed, place)
                &&& stands(ts, at + 2, Symbol::Lpar) && ends(
                    grammar::parameters(ts, at + 3, nothing_given()),
                    args,
                    q,
                ) && at + 2 < q <= ts.len() && stands(ts, q, Symbol::Rpar) && refuses(
                    grammar::block(ts, q + 1),
                    place,
                ) ==> refuses(parsed, place)
            }
            &&& stands(ts, at, Symbol::Class) && named ==> {
                &&& !stands(ts, at + 2, Symbol::Lpar) && refuses(grammar::block(ts, at + 2), place)
                    ==> refuses(parsed, place)
                &&& stands(ts, at + 2, Symbol::Lpar) && refuses(
                    grammar::arguments(
                        ts,
                        at + 3,
                        ArgumentsModel { args: seq![], keywords: seq![] },
                    ),
                    place,
                ) ==> refuses(parsed, place)
                &&& stands(ts, at + 2, Symbol::Lpar) && reads(
                    grammar::arguments(
                        ts,
                        at + 3,
                        ArgumentsModel { args: seq![], keywords: seq![] },
                    ),
                    given,
                    at + 2,
                    q,
                    ts,
                ) && refuses(grammar::block(ts, q), place) ==> refuses(parsed, place)
            }
        }),
{
    reveal(grammar::definition);
    reveal(grammar::bases);
    reveal(grammar::block);
}

/// Decorated definitions fail with a decorator, and statements with what they begin with.
#[verifier::spinoff_prover]
pub proof fn law_compound_statements_fail_with_parts(
    ts: Tokens,
    at: int,
    before: Seq<ExpressionModel>,
    place: int,
)
    requires
        0 <= at,
    ensures
        stands(ts, at, Symbol::At) && refuses(grammar::atom_expression(ts, at + 1), place)
            ==> refuses(grammar::decorated(ts, at, before), place),
        stands(ts, at, Symbol::If) && refuses(grammar::if_statement(ts, at), place) || stands(
            ts,
            at,
            Symbol::While,
        ) && refuses(grammar::while_statement(ts, at), place) || stands(ts, at, Symbol::For)
            && refuses(grammar::for_statement(ts, at), place) || stands(ts, at, Symbol::Try)
            && refuses(grammar::try_statement(ts, at), place) || stands(ts, at, Symbol::With)
            && refuses(grammar::with_statement(ts, at), place) || (stands(ts, at, Symbol::Def)
            || stands(ts, at, Symbol::Class) || stands(ts, at, Symbol::At)) && refuses(
            grammar::decorated(ts, at, seq![]),
            place,
        ) ==> refuses(grammar::statement(ts, at), place),
{
    reveal(grammar::if_statement);
    reveal(grammar::while_statement);
    reveal(grammar::for_statement);
    reveal(grammar::try_statement);
    reveal(grammar::with_statement);
    reveal(grammar::decorated);
    assert(stands(ts, at, Symbol::If) && refuses(grammar::if_statement(ts, at), place) || stands(
        ts,
        at,
        Symbol::While,
    ) && refuses(grammar::while_statement(ts, at), place) || stands(ts, at, Symbol::For)
        && refuses(grammar::for_statement(ts, at), place) || stands(ts, at, Symbol::Try)
        && refuses(grammar::try_statement(ts, at), place) || stands(ts, at, Symbol::With)
        && refuses(grammar::with_statement(ts, at), place) || (stands(ts, at, Symbol::Def)
        || stands(ts, at, Symbol::Class) || stands(ts, at, Symbol::At)) && refuses(
        grammar::decorated(ts, at, seq![]),
        place,
    ) ==> refuses(grammar::compound(ts, at), place)) by {
        reveal(grammar::compound);
    }
    reveal(grammar::compound);
    reveal(grammar::statement);
}

} // verus!
