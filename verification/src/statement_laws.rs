//! What statements and whole texts are parsed as, told from the tokens and from what their parts
//! are parsed as.
use vstd::prelude::*;

use crate::ast::{
    ExceptHandlerModel, ExpressionModel, KeywordModel, LocatedStatementModel, Operator,
    ParametersModel, SingleImportModel, StatementModel, TopModel, WithItemModel,
};
use crate::expression_laws::{ends, may_begin, nothing_given};
use crate::grammar;
use crate::grammar::{ArgumentsModel, Start, Tokens};
use crate::operator_laws::{names, reads, refuses, stands};
use crate::token::{Symbol, TokModel};

verus! {

/// Whether none of the statements that begin with a word of their own begins at a place.
pub open spec fn begins_with_expression(ts: Tokens, at: int) -> bool {
    0 <= at < ts.len() && match ts[at].tok {
        TokModel::Symbol(symbol) => {
            &&& symbol != Symbol::Pass
            &&& symbol != Symbol::Break
            &&& symbol != Symbol::Continue
            &&& symbol != Symbol::Return
            &&& symbol != Symbol::Raise
            &&& symbol != Symbol::Assert
            &&& symbol != Symbol::Del
            &&& symbol != Symbol::Global
            &&& symbol != Symbol::Nonlocal
            &&& symbol != Symbol::Import
            &&& symbol != Symbol::From
        },
        _ => true,
    }
}

// ---------------------------------------------------------------------------------------------
// Statements of one line.

/// `pass`, `break` and `continue` stand alone.
pub proof fn law_word_statements(ts: Tokens, at: int)
    requires
        0 <= at,
    ensures
        stands(ts, at, Symbol::Pass) ==> reads(
            grammar::small_statement(ts, at),
            StatementModel::Pass,
            at,
            at + 1,
            ts,
        ),
        stands(ts, at, Symbol::Break) ==> reads(
            grammar::small_statement(ts, at),
            StatementModel::Break,
            at,
            at + 1,
            ts,
        ),
        stands(ts, at, Symbol::Continue) ==> reads(
            grammar::small_statement(ts, at),
            StatementModel::Continue,
            at,
            at + 1,
            ts,
        ),
{
    reveal(grammar::small_statement);
}

/// What stands behind the sign of an assignment is a `yield` or a list of expressions.
pub proof fn law_assigned(ts: Tokens, at: int)
    ensures
        stands(ts, at, Symbol::Yield) ==> grammar::assigned(ts, at) == grammar::yield_expression(
            ts,
            at,
        ),
        !stands(ts, at, Symbol::Yield) ==> grammar::assigned(ts, at) == grammar::testlist(
            ts,
            at,
            false,
        ),
{
    reveal(grammar::assigned);
}

/// The symbol of an augmented assignment.
pub open spec fn augmented_sign(op: Operator) -> Symbol {
    match op {
        Operator::Add => Symbol::PlusEqual,
        Operator::Sub => Symbol::MinusEqual,
        Operator::Mult => Symbol::StarEqual,
        Operator::MatMult => Symbol::AtEqual,
        Operator::Div => Symbol::SlashEqual,
        Operator::FloorDiv => Symbol::DoubleSlashEqual,
        Operator::Mod => Symbol::PercentEqual,
        Operator::BitAnd => Symbol::AmperEqual,
        Operator::BitOr => Symbol::VbarEqual,
        Operator::BitXor => Symbol::CircumflexEqual,
        Operator::LShift => Symbol::LeftShiftEqual,
        Operator::RShift => Symbol::RightShiftEqual,
        Operator::Pow => Symbol::DoubleStarEqual,
    }
}

/// An augmented assignment applies the operator of its sign.
pub proof fn law_augmented_assignment(
    ts: Tokens,
    at: int,
    target: ExpressionModel,
    p: int,
    op: Operator,
    value: ExpressionModel,
    q: int,
)
    requires
        begins_with_expression(ts, at),
        reads(grammar::assigned(ts, at), target, at, p, ts),
        stands(ts, p, augmented_sign(op)),
        reads(grammar::assigned(ts, p + 1), value, p, q, ts),
    ensures
        reads(
            grammar::small_statement(ts, at),
            StatementModel::AugAssign { target, op, value },
            at,
            q,
            ts,
        ),
{
    reveal(grammar::small_statement);
    reveal(grammar::expression_statement);
}

/// An expression without an assignment's sign behind it is a statement.
pub proof fn law_expression_statement(ts: Tokens, at: int, value: ExpressionModel, p: int)
    requires
        begins_with_expression(ts, at),
        reads(grammar::assigned(ts, at), value, at, p, ts),
        !stands(ts, p, Symbol::Equal),
        forall|op: Operator| !stands(ts, p, #[trigger] augmented_sign(op)),
    ensures
        reads(
            grammar::small_statement(ts, at),
            StatementModel::Expression { expression: value },
            at,
            p,
            ts,
        ),
{
    reveal(grammar::small_statement);
    reveal(grammar::expression_statement);
    match grammar::augmented(ts, p) {
        Some(op) => {
            assert(stands(ts, p, augmented_sign(op)));
        },
        None => {},
    }
}

/// In an assignment all expressions but the last are targets, in order, and the last is the value.
pub proof fn law_assignment(
    ts: Tokens,
    at: int,
    before: Seq<ExpressionModel>,
    first: ExpressionModel,
    p: int,
    next: ExpressionModel,
    q: int,
)
    requires
        0 <= at,
    ensures
        begins_with_expression(ts, at) && reads(grammar::assigned(ts, at), first, at, p, ts)
            && stands(ts, p, Symbol::Equal) ==> grammar::small_statement(ts, at)
            == grammar::assignment(ts, p, seq![], first),
        stands(ts, at, Symbol::Equal) && reads(
            grammar::assigned(ts, at + 1),
            next,
            at,
            q,
            ts,
        ) ==> grammar::assignment(ts, at, before, first) == grammar::assignment(
            ts,
            q,
            before.push(first),
            next,
        ),
        !stands(ts, at, Symbol::Equal) ==> ends(
            grammar::assignment(ts, at, before, first),
            StatementModel::Assign { targets: before, value: first },
            at,
        ),
{
    reveal(grammar::small_statement);
    reveal(grammar::expression_statement);
    reveal(grammar::assignment);
}

/// A `return` gives back nothing or a list of expressions.
pub proof fn law_return(ts: Tokens, at: int, value: ExpressionModel, p: int)
    requires
        0 <= at,
        stands(ts, at, Symbol::Return),
    ensures
        !may_begin(ts, at + 1) ==> reads(
            grammar::small_statement(ts, at),
            StatementModel::Return { value: None },
            at,
            at + 1,
            ts,
        ),
        may_begin(ts, at + 1) && reads(
            grammar::testlist(ts, at + 1, false),
            value,
            at,
            p,
            ts,
        ) ==> reads(
            grammar::small_statement(ts, at),
            StatementModel::Return { value: Some(value) },
            at,
            p,
            ts,
        ),
{
    reveal(grammar::small_statement);
    reveal(grammar::return_statement);
}

/// A `raise` has an exception or none, and a cause behind `from` or none.
pub proof fn law_raise(
    ts: Tokens,
    at: int,
    exception: ExpressionModel,
    p: int,
    cause: ExpressionModel,
    q: int,
)
    requires
        0 <= at,
        stands(ts, at, Symbol::Raise),
    ensures
        !may_begin(ts, at + 1) ==> reads(
            grammar::small_statement(ts, at),
            StatementModel::Raise { exception: None, cause: None },
            at,
            at + 1,
            ts,
        ),
        may_begin(ts, at + 1) && reads(grammar::test(ts, at + 1), exception, at, p, ts) ==> {
            &&& !stands(ts, p, Symbol::From) ==> reads(
                grammar::small_statement(ts, at),
                StatementModel::Raise { exception: Some(exception), cause: None },
                at,
                p,
                ts,
            )
            &&& stands(ts, p, Symbol::From) && reads(
                grammar::test(ts, p + 1),
                cause,
                p,
                q,
                ts,
            ) ==> reads(
                grammar::small_statement(ts, at),
                StatementModel::Raise { exception: Some(exception), cause: Some(cause) },
                at,
                q,
                ts,
            )
        },
{
    reveal(grammar::small_statement);
    reveal(grammar::raise_statement);
}

/// An `assert` has a condition, and a message behind a comma or none.
pub proof fn law_assert(
    ts: Tokens,
    at: int,
    condition: ExpressionModel,
    p: int,
    msg: ExpressionModel,
    q: int,
)
    requires
        0 <= at,
        stands(ts, at, Symbol::Assert),
        reads(grammar::test(ts, at + 1), condition, at, p, ts),
    ensures
        !stands(ts, p, Symbol::Comma) ==> reads(
            grammar::small_statement(ts, at),
            StatementModel::Assert { test: condition, msg: None },
            at,
            p,
            ts,
        ),
        stands(ts, p, Symbol::Comma) && reads(grammar::test(ts, p + 1), msg, p, q, ts) ==> reads(
            grammar::small_statement(ts, at),
            StatementModel::Assert { test: condition, msg: Some(msg) },
            at,
            q,
            ts,
        ),
{
    reveal(grammar::small_statement);
    reveal(grammar::assert_statement);
}

/// A `del` deletes its targets, in order.
pub proof fn law_delete(
    ts: Tokens,
    at: int,
    first: ExpressionModel,
    p: int,
    targets: Seq<ExpressionModel>,
    q: int,
)
    requires
        0 <= at,
        stands(ts, at, Symbol::Del),
        reads(grammar::element(ts, at + 1, true), first, at, p, ts),
        ends(grammar::more_elements(ts, p, seq![first], true), targets, q),
    ensures
        ends(grammar::small_statement(ts, at), StatementModel::Delete { targets }, q),
{
    reveal(grammar::small_statement);
    reveal(grammar::delete_statement);
}

/// `global` and `nonlocal` list names.
pub proof fn law_scopes(ts: Tokens, at: int, found: Seq<Seq<char>>, p: int)
    requires
        0 <= at,
        reads(grammar::names(ts, at + 1, seq![]), found, at, p, ts),
    ensures
        stands(ts, at, Symbol::Global) ==> reads(
            grammar::small_statement(ts, at),
            StatementModel::Global { names: found },
            at,
            p,
            ts,
        ),
        stands(ts, at, Symbol::Nonlocal) ==> reads(
            grammar::small_statement(ts, at),
            StatementModel::Nonlocal { names: found },
            at,
            p,
            ts,
        ),
{
    reveal(grammar::small_statement);
}

/// Names follow each other behind commas, in order.
pub proof fn law_names_follow(ts: Tokens, at: int, before: Seq<Seq<char>>, name: Seq<char>)
    requires
        0 <= at,
    ensures
        names(ts, at, name) && stands(ts, at + 1, Symbol::Comma) ==> grammar::names(ts, at, before)
            == grammar::names(ts, at + 2, before.push(name)),
        names(ts, at, name) && !stands(ts, at + 1, Symbol::Comma) ==> reads(
            grammar::names(ts, at, before),
            before.push(name),
            at,
            at + 1,
            ts,
        ),
        !(at < ts.len() && ts[at].tok is Name) ==> refuses(grammar::names(ts, at, before), at),
{
    reveal(grammar::names);
}

// ---------------------------------------------------------------------------------------------
// Imports.

/// The name of a module is the names between the dots, with the dots.
pub proof fn law_dotted_names(
    ts: Tokens,
    at: int,
    text: Seq<char>,
    name: Seq<char>,
)
    requires
        0 <= at,
    ensures
        names(ts, at, name) ==> grammar::dotted(ts, at) == grammar::more_dotted(ts, at + 1, name),
        !(at < ts.len() && ts[at].tok is Name) ==> refuses(grammar::dotted(ts, at), at),
        stands(ts, at, Symbol::Dot) && names(ts, at + 1, name) ==> grammar::more_dotted(
            ts,
            at,
            text,
        ) == grammar::more_dotted(ts, at + 2, text + seq!['.'] + name),
        !stands(ts, at, Symbol::Dot) ==> ends(grammar::more_dotted(ts, at, text), text, at),
{
    reveal(grammar::dotted);
    reveal(grammar::more_dotted);
    assert(text + seq!['.'] =~= text.push('.'));
}

/// Another name may be given behind `as`.
pub proof fn law_alias(ts: Tokens, at: int, name: Seq<char>)
    requires
        0 <= at,
    ensures
        stands(ts, at, Symbol::As) && names(ts, at + 1, name) ==> ends(
            grammar::alias(ts, at),
            Some(name),
            at + 2,
        ),
        !stands(ts, at, Symbol::As) ==> ends(grammar::alias(ts, at), None, at),
{
    reveal(grammar::alias);
}

/// An import lists modules, each with another name or none, in order.
pub proof fn law_imports(
    ts: Tokens,
    at: int,
    before: Seq<SingleImportModel>,
    module: Seq<char>,
    p: int,
    alias: Option<Seq<char>>,
    q: int,
    all: Seq<SingleImportModel>,
    r: int,
)
    requires
        0 <= at,
    ensures
        stands(ts, at, Symbol::Import) && reads(
            grammar::modules(ts, at + 1, seq![]),
            all,
            at,
            r,
            ts,
        ) ==> reads(
            grammar::small_statement(ts, at),
            StatementModel::Import { import_parts: all },
            at,
            r,
            ts,
        ),
        reads(grammar::dotted(ts, at), module, at, p, ts) && ends(
            grammar::alias(ts, p),
            alias,
            q,
        ) && p <= q <= ts.len() ==> ({
            let found = before.push(SingleImportModel { module, symbol: None, alias });
            &&& stands(ts, q, Symbol::Comma) ==> grammar::modules(ts, at, before)
                == grammar::modules(ts, q + 1, found)
            &&& !stands(ts, q, Symbol::Comma) ==> reads(
                grammar::modules(ts, at, before),
                found,
                at,
                q,
                ts,
            )
        }),
{
    reveal(grammar::small_statement);
    reveal(grammar::modules);
}

/// The symbols that are imported from a module are listed, each with another name or none.
pub proof fn law_imported_symbols(
    ts: Tokens,
    at: int,
    module: Seq<char>,
    before: Seq<SingleImportModel>,
    symbol: Seq<char>,
    alias: Option<Seq<char>>,
    q: int,
)
    requires
        names(ts, at, symbol),
        ends(grammar::alias(ts, at + 1), alias, q),
        at < q <= ts.len(),
    ensures
        ({
            let found = before.push(SingleImportModel { module, symbol: Some(symbol), alias });
            let more = stands(ts, q, Symbol::Comma) && q + 1 < ts.len() && ts[q + 1].tok is Name;
            &&& more ==> grammar::symbols(ts, at, module, before) == grammar::symbols(
                ts,
                q + 1,
                module,
                found,
            )
            &&& !more ==> reads(grammar::symbols(ts, at, module, before), found, at, q, ts)
        }),
{
    reveal(grammar::symbols);
}

/// An import from a module names all its symbols with a star, or lists some. The list may stand
/// between parentheses, where a last comma may stand alone.
pub proof fn law_imports_from(
    ts: Tokens,
    at: int,
    module: Seq<char>,
    p: int,
    all: Seq<SingleImportModel>,
    q: int,
)
    requires
        0 <= at,
        stands(ts, at, Symbol::From),
        reads(grammar::dotted(ts, at + 1), module, at, p, ts),
    ensures
        !stands(ts, p, Symbol::Import) ==> refuses(grammar::small_statement(ts, at), p),
        stands(ts, p, Symbol::Import) && stands(ts, p + 1, Symbol::Star) ==> reads(
            grammar::small_statement(ts, at),
            StatementModel::Import {
                import_parts: seq![
                    SingleImportModel { module, symbol: Some("*"@), alias: None },
                ],
            },
            at,
            p + 2,
            ts,
        ),
        stands(ts, p, Symbol::Import) && !stands(ts, p + 1, Symbol::Star) && !stands(
            ts,
            p + 1,
            Symbol::Lpar,
        ) && reads(grammar::symbols(ts, p + 1, module, seq![]), all, p, q, ts) ==> reads(
            grammar::small_statement(ts, at),
            StatementModel::Import { import_parts: all },
            at,
            q,
            ts,
        ),
        stands(ts, p, Symbol::Import) && stands(ts, p + 1, Symbol::Lpar) && reads(
            grammar::symbols(ts, p + 2, module, seq![]),
            all,
            p,
            q,
            ts,
        ) ==> {
            &&& stands(ts, q, Symbol::Rpar) ==> reads(
                grammar::small_statement(ts, at),
                StatementModel::Import { import_parts: all },
                at,
                q + 1,
                ts,
            )
            &&& stands(ts, q, Symbol::Comma) && stands(ts, q + 1, Symbol::Rpar) ==> reads(
                grammar::small_statement(ts, at),
                StatementModel::Import { import_parts: all },
                at,
                q + 2,
                ts,
            )
        },
{
    reveal(grammar::small_statement);
    reveal(grammar::from_import);
}

// ---------------------------------------------------------------------------------------------
// Lines and blocks.

/// A statement with the place where its first token begins.
pub open spec fn placed(ts: Tokens, at: int, node: StatementModel) -> LocatedStatementModel {
    LocatedStatementModel { location: ts[at].start, node }
}

/// The statements of a line are separated by semicolons, stand in order, and end with the line. A
/// last semicolon may stand alone.
pub proof fn law_lines(
    ts: Tokens,
    at: int,
    before: Seq<LocatedStatementModel>,
    node: StatementModel,
    p: int,
)
    requires
        0 <= at,
        reads(grammar::small_statement(ts, at), node, at, p, ts),
    ensures
        ({
            let found = before.push(placed(ts, at, node));
            &&& stands(ts, p, Symbol::Newline) ==> reads(
                grammar::line(ts, at, before),
                found,
                at,
                p + 1,
                ts,
            )
            &&& stands(ts, p, Symbol::Semi) && stands(ts, p + 1, Symbol::Newline) ==> reads(
                grammar::line(ts, at, before),
                found,
                at,
                p + 2,
                ts,
            )
            &&& stands(ts, p, Symbol::Semi) && !stands(ts, p + 1, Symbol::Newline)
                ==> grammar::line(ts, at, before) == grammar::line(ts, p + 1, found)
            &&& !stands(ts, p, Symbol::Semi) && !stands(ts, p, Symbol::Newline) ==> refuses(
                grammar::line(ts, at, before),
                p,
            )
        }),
{
    reveal(grammar::line);
}

/// A block is the rest of the line behind a colon, or the indented lines below it.
pub proof fn law_blocks(
    ts: Tokens,
    at: int,
    first: Seq<LocatedStatementModel>,
    p: int,
)
    requires
        0 <= at,
    ensures
        !stands(ts, at, Symbol::Colon) ==> refuses(grammar::block(ts, at), at),
        stands(ts, at, Symbol::Colon) && !stands(ts, at + 1, Symbol::Newline) ==> grammar::block(
            ts,
            at,
        ) == grammar::line(ts, at + 1, seq![]),
        stands(ts, at, Symbol::Colon) && stands(ts, at + 1, Symbol::Newline) && !stands(
            ts,
            at + 2,
            Symbol::Indent,
        ) ==> refuses(grammar::block(ts, at), at + 2),
        stands(ts, at, Symbol::Colon) && stands(ts, at + 1, Symbol::Newline) && stands(
            ts,
            at + 2,
            Symbol::Indent,
        ) && reads(grammar::statement(ts, at + 3), first, at, p, ts) ==> grammar::block(ts, at)
            == grammar::more_statements(ts, p, first),
{
    reveal(grammar::block);
    reveal(grammar::line);
    reveal(grammar::statement);
    reveal(grammar::more_statements);
}

/// The statements of a block follow each other, in order, up to where the indentation ends.
pub proof fn law_statements_of_a_block(
    ts: Tokens,
    at: int,
    before: Seq<LocatedStatementModel>,
    next: Seq<LocatedStatementModel>,
    p: int,
)
    requires
        0 <= at,
    ensures
        stands(ts, at, Symbol::Dedent) ==> reads(
            grammar::more_statements(ts, at, before),
            before,
            at,
            at + 1,
            ts,
        ),
        !stands(ts, at, Symbol::Dedent) && reads(
            grammar::statement(ts, at),
            next,
            at,
            p,
            ts,
        ) ==> grammar::more_statements(ts, at, before) == grammar::more_statements(
            ts,
            p,
            before + next,
        ),
{
    reveal(grammar::more_statements);
    reveal(grammar::statement);
}

/// A block behind a word is there if the word is.
pub proof fn law_optional_blocks(
    ts: Tokens,
    at: int,
    keyword: Symbol,
    body: Seq<LocatedStatementModel>,
    p: int,
)
    requires
        0 <= at,
    ensures
        !stands(ts, at, keyword) ==> ends(grammar::optional_block(ts, at, keyword), None, at),
        stands(ts, at, keyword) && reads(grammar::block(ts, at + 1), body, at, p, ts) ==> ends(
            grammar::optional_block(ts, at, keyword),
            Some(body),
            p,
        ),
{
    reveal(grammar::optional_block);
    reveal(grammar::block);
}

// ---------------------------------------------------------------------------------------------
// Statements that hold others.

/// An `if` has a condition, a block, and an `else` block or none. An `elif` is an `if` within the
/// `else` block.
pub proof fn law_if(
    ts: Tokens,
    at: int,
    condition: ExpressionModel,
    p: int,
    body: Seq<LocatedStatementModel>,
    q: int,
    nested: StatementModel,
    orelse: Option<Seq<LocatedStatementModel>>,
    r: int,
)
    requires
        0 <= at,
        stands(ts, at, Symbol::If) || stands(ts, at, Symbol::Elif),
        reads(grammar::test(ts, at + 1), condition, at, p, ts),
        reads(grammar::block(ts, p), body, p, q, ts),
    ensures
        stands(ts, q, Symbol::Elif) && reads(grammar::if_statement(ts, q), nested, q, r, ts)
            ==> reads(
            grammar::if_statement(ts, at),
            StatementModel::If {
                test: condition,
                body,
                orelse: Some(seq![placed(ts, q, nested)]),
            },
            at,
            r,
            ts,
        ),
        !stands(ts, q, Symbol::Elif) && ends(
            grammar::optional_block(ts, q, Symbol::Else),
            orelse,
            r,
        ) && q <= r <= ts.len() ==> reads(
            grammar::if_statement(ts, at),
            StatementModel::If { test: condition, body, orelse },
            at,
            r,
            ts,
        ),
{
    reveal(grammar::if_statement);
    reveal(grammar::block);
    reveal(grammar::optional_block);
}

/// A `while` has a condition, a block, and an `else` block or none.
pub proof fn law_while(
    ts: Tokens,
    at: int,
    condition: ExpressionModel,
    p: int,
    body: Seq<LocatedStatementModel>,
    q: int,
    orelse: Option<Seq<LocatedStatementModel>>,
    r: int,
)
    requires
        0 <= at,
        stands(ts, at, Symbol::While),
        reads(grammar::test(ts, at + 1), condition, at, p, ts),
        reads(grammar::block(ts, p), body, p, q, ts),
        ends(grammar::optional_block(ts, q, Symbol::Else), orelse, r),
        q <= r <= ts.len(),
    ensures
        reads(
            grammar::while_statement(ts, at),
            StatementModel::While { test: condition, body, orelse },
            at,
            r,
            ts,
        ),
{
    reveal(grammar::while_statement);
    reveal(grammar::block);
    reveal(grammar::optional_block);
}

/// A `for` has targets, what is iterated over, a block, and an `else` block or none.
pub proof fn law_for(
    ts: Tokens,
    at: int,
    target: ExpressionModel,
    p: int,
    iter: ExpressionModel,
    q: int,
    body: Seq<LocatedStatementModel>,
    r: int,
    orelse: Option<Seq<LocatedStatementModel>>,
    s: int,
)
    requires
        0 <= at,
        stands(ts, at, Symbol::For),
        reads(grammar::testlist(ts, at + 1, true), target, at, p, ts),
    ensures
        !stands(ts, p, Symbol::In) ==> refuses(grammar::for_statement(ts, at), p),
        stands(ts, p, Symbol::In) && reads(
            grammar::testlist(ts, p + 1, false),
            iter,
            p,
            q,
            ts,
        ) && reads(grammar::block(ts, q), body, q, r, ts) && ends(
            grammar::optional_block(ts, r, Symbol::Else),
            orelse,
            s,
        ) && r <= s <= ts.len() ==> reads(
            grammar::for_statement(ts, at),
            StatementModel::For { target, iter, body, orelse },
            at,
            s,
            ts,
        ),
{
    reveal(grammar::for_statement);
    reveal(grammar::block);
    reveal(grammar::optional_block);
}

/// Handlers follow each other, in order. One has an exception type with a name or without, or
/// neither of the two.
pub proof fn law_handlers(
    ts: Tokens,
    at: int,
    before: Seq<ExceptHandlerModel>,
    typ: ExpressionModel,
    p: int,
    name: Option<Seq<char>>,
    q: int,
    body: Seq<LocatedStatementModel>,
    r: int,
)
    requires
        0 <= at,
    ensures
        !stands(ts, at, Symbol::Except) ==> ends(grammar::handlers(ts, at, before), before, at),
        stands(ts, at, Symbol::Except) && stands(ts, at + 1, Symbol::Colon) && reads(
            grammar::block(ts, at + 1),
            body,
            at,
            r,
            ts,
        ) ==> grammar::handlers(ts, at, before) == grammar::handlers(
            ts,
            r,
            before.push(ExceptHandlerModel { typ: None, name: None, body }),
        ),
        stands(ts, at, Symbol::Except) && !stands(ts, at + 1, Symbol::Colon) && reads(
            grammar::test(ts, at + 1),
            typ,
            at,
            p,
            ts,
        ) && ends(grammar::alias(ts, p), name, q) && p <= q <= ts.len() && reads(
            grammar::block(ts, q),
            body,
            q,
            r,
            ts,
        ) ==> grammar::handlers(ts, at, before) == grammar::handlers(
            ts,
            r,
            before.push(ExceptHandlerModel { typ: Some(typ), name, body }),
        ),
{
    reveal(grammar::handlers);
    reveal(grammar::block);
}

/// A `try` has a block and handlers, then an `else` block or none and a `finally` block or none.
/// Without handlers it has a `finally` block and no `else`.
pub proof fn law_try(
    ts: Tokens,
    at: int,
    body: Seq<LocatedStatementModel>,
    p: int,
    handlers: Seq<ExceptHandlerModel>,
    q: int,
    orelse: Option<Seq<LocatedStatementModel>>,
    r: int,
    finalbody: Option<Seq<LocatedStatementModel>>,
    s: int,
)
    requires
        0 <= at,
        stands(ts, at, Symbol::Try),
        reads(grammar::block(ts, at + 1), body, at, p, ts),
        ends(grammar::handlers(ts, p, seq![]), handlers, q),
        p <= q <= ts.len(),
    ensures
        handlers.len() > 0 && ends(grammar::optional_block(ts, q, Symbol::Else), orelse, r) && q
            <= r <= ts.len() && ends(
            grammar::optional_block(ts, r, Symbol::Finally),
            finalbody,
            s,
        ) && r <= s <= ts.len() ==> reads(
            grammar::try_statement(ts, at),
            StatementModel::Try { body, handlers, orelse, finalbody },
            at,
            s,
            ts,
        ),
        handlers.len() == 0 && !stands(ts, q, Symbol::Finally) ==> refuses(
            grammar::try_statement(ts, at),
            q,
        ),
        handlers.len() == 0 && stands(ts, q, Symbol::Finally) && finalbody is Some && reads(
            grammar::block(ts, q + 1),
            finalbody->0,
            q,
            s,
            ts,
        ) ==> reads(
            grammar::try_statement(ts, at),
            StatementModel::Try { body, handlers, orelse: None, finalbody },
            at,
            s,
            ts,
        ),
{
    reveal(grammar::try_statement);
    reveal(grammar::block);
    reveal(grammar::handlers);
    reveal(grammar::optional_block);
}

/// A `with` has context managers, in order, each with a target behind `as` or none, and a block.
pub proof fn law_with(
    ts: Tokens,
    at: int,
    before: Seq<WithItemModel>,
    item: WithItemModel,
    p: int,
    items: Seq<WithItemModel>,
    body: Seq<LocatedStatementModel>,
    q: int,
)
    requires
        0 <= at,
    ensures
        stands(ts, at, Symbol::With) && reads(
            grammar::with_items(ts, at + 1, seq![]),
            items,
            at,
            p,
            ts,
        ) && reads(grammar::block(ts, p), body, p, q, ts) ==> reads(
            grammar::with_statement(ts, at),
            StatementModel::With { items, body },
            at,
            q,
            ts,
        ),
        reads(grammar::with_item(ts, at), item, at, p, ts) ==> {
            &&& stands(ts, p, Symbol::Comma) ==> grammar::with_items(ts, at, before)
                == grammar::with_items(ts, p + 1, before.push(item))
            &&& !stands(ts, p, Symbol::Comma) ==> reads(
                grammar::with_items(ts, at, before),
                before.push(item),
                at,
                p,
                ts,
            )
        },
{
    reveal(grammar::with_statement);
    reveal(grammar::with_items);
    reveal(grammar::block);
}

/// A context manager is an expression, and its target holds no comparison.
pub proof fn law_with_item(
    ts: Tokens,
    at: int,
    context_expr: ExpressionModel,
    p: int,
    target: ExpressionModel,
    q: int,
)
    requires
        0 <= at,
        reads(grammar::test(ts, at), context_expr, at, p, ts),
    ensures
        !stands(ts, p, Symbol::As) ==> reads(
            grammar::with_item(ts, at),
            WithItemModel { context_expr, optional_vars: None },
            at,
            p,
            ts,
        ),
        stands(ts, p, Symbol::As) && reads(
            grammar::operation(ts, p + 1, 4),
            target,
            p,
            q,
            ts,
        ) ==> reads(
            grammar::with_item(ts, at),
            WithItemModel { context_expr, optional_vars: Some(target) },
            at,
            q,
            ts,
        ),
{
    reveal(grammar::with_item);
}

/// A function has a name, parameters and a block.
pub proof fn law_function(
    ts: Tokens,
    at: int,
    decorators: Seq<ExpressionModel>,
    name: Seq<char>,
    args: ParametersModel,
    q: int,
    body: Seq<LocatedStatementModel>,
    r: int,
)
    requires
        0 <= at,
        stands(ts, at, Symbol::Def),
        names(ts, at + 1, name),
        stands(ts, at + 2, Symbol::Lpar),
        ends(grammar::parameters(ts, at + 3, nothing_given()), args, q),
        at + 2 < q <= ts.len(),
    ensures
        !stands(ts, q, Symbol::Rpar) ==> refuses(grammar::definition(ts, at, decorators), q),
        stands(ts, q, Symbol::Rpar) && reads(grammar::block(ts, q + 1), body, q, r, ts) ==> reads(
            grammar::definition(ts, at, decorators),
            placed(
                ts,
                at,
                StatementModel::FunctionDef { name, args, body, decorator_list: decorators },
            ),
            at,
            r,
            ts,
        ),
{
    reveal(grammar::definition);
    reveal(grammar::block);
}

/// A class has a name, arguments or none, and a block.
pub proof fn law_class(
    ts: Tokens,
    at: int,
    decorators: Seq<ExpressionModel>,
    name: Seq<char>,
    args: Seq<ExpressionModel>,
    keywords: Seq<KeywordModel>,
    q: int,
    body: Seq<LocatedStatementModel>,
    r: int,
)
    requires
        0 <= at,
        stands(ts, at, Symbol::Class),
        names(ts, at + 1, name),
        reads(grammar::block(ts, q), body, q, r, ts),
        if stands(ts, at + 2, Symbol::Lpar) {
            reads(
                grammar::arguments(ts, at + 3, ArgumentsModel { args: seq![], keywords: seq![] }),
                ArgumentsModel { args, keywords },
                at + 2,
                q,
                ts,
            )
        } else {
            &&& q == at + 2
            &&& args == Seq::<ExpressionModel>::empty()
            &&& keywords == Seq::<KeywordModel>::empty()
        },
    ensures
        reads(
            grammar::definition(ts, at, decorators),
            placed(
                ts,
                at,
                StatementModel::ClassDef {
                    name,
                    body,
                    bases: args,
                    keywords,
                    decorator_list: decorators,
                },
            ),
            at,
            r,
            ts,
        ),
{
    reveal(grammar::definition);
    reveal(grammar::bases);
    reveal(grammar::block);
}

/// Decorators stand each on a line of its own above a function or a class, in order.
pub proof fn law_decorators(
    ts: Tokens,
    at: int,
    before: Seq<ExpressionModel>,
    decorator: ExpressionModel,
    p: int,
)
    requires
        0 <= at,
    ensures
        stands(ts, at, Symbol::At) && reads(
            grammar::atom_expression(ts, at + 1),
            decorator,
            at,
            p,
            ts,
        ) ==> {
            &&& stands(ts, p, Symbol::Newline) ==> grammar::decorated(ts, at, before)
                == grammar::decorated(ts, p + 1, before.push(decorator))
            &&& !stands(ts, p, Symbol::Newline) ==> refuses(grammar::decorated(ts, at, before), p)
        },
        !stands(ts, at, Symbol::At) ==> grammar::decorated(ts, at, before) == grammar::definition(
            ts,
            at,
            before,
        ),
{
    reveal(grammar::decorated);
    reveal(grammar::definition);
}

/// The word at the beginning says which statement it is. Its place is that of the word, and of a
/// decorated one that of `def` or `class`.
pub proof fn law_compound_statements(ts: Tokens, at: int, node: StatementModel, p: int)
    requires
        0 <= at,
        at < p <= ts.len(),
    ensures
        stands(ts, at, Symbol::If) && ends(grammar::if_statement(ts, at), node, p)
            || stands(ts, at, Symbol::While) && ends(grammar::while_statement(ts, at), node, p)
            || stands(ts, at, Symbol::For) && ends(grammar::for_statement(ts, at), node, p)
            || stands(ts, at, Symbol::Try) && ends(grammar::try_statement(ts, at), node, p)
            || stands(ts, at, Symbol::With) && ends(grammar::with_statement(ts, at), node, p)
            ==> reads(grammar::statement(ts, at), seq![placed(ts, at, node)], at, p, ts),
{
    reveal(grammar::if_statement);
    reveal(grammar::while_statement);
    reveal(grammar::for_statement);
    reveal(grammar::try_statement);
    reveal(grammar::with_statement);
    assert(stands(ts, at, Symbol::If) && ends(grammar::if_statement(ts, at), node, p)
        || stands(ts, at, Symbol::While) && ends(grammar::while_statement(ts, at), node, p)
        || stands(ts, at, Symbol::For) && ends(grammar::for_statement(ts, at), node, p)
        || stands(ts, at, Symbol::Try) && ends(grammar::try_statement(ts, at), node, p)
        || stands(ts, at, Symbol::With) && ends(grammar::with_statement(ts, at), node, p)
        ==> reads(grammar::compound(ts, at), placed(ts, at, node), at, p, ts)) by {
        reveal(grammar::compound);
    }
    reveal(grammar::compound);
    reveal(grammar::statement);
}

/// Functions and classes, decorated or not, are statements.
pub proof fn law_definitions_are_statements(
    ts: Tokens,
    at: int,
    found: LocatedStatementModel,
    p: int,
)
    requires
        0 <= at,
        stands(ts, at, Symbol::Def) || stands(ts, at, Symbol::Class) || stands(ts, at, Symbol::At),
        reads(grammar::decorated(ts, at, seq![]), found, at, p, ts),
    ensures
        reads(grammar::statement(ts, at), seq![found], at, p, ts),
{
    reveal(grammar::decorated);
    assert(reads(grammar::compound(ts, at), found, at, p, ts)) by {
        reveal(grammar::compound);
    }
    reveal(grammar::compound);
    reveal(grammar::statement);
}

/// What begins with none of the words for statements that hold others is a line.
pub proof fn law_other_statements_are_lines(ts: Tokens, at: int)
    requires
        !stands(ts, at, Symbol::If),
        !stands(ts, at, Symbol::While),
        !stands(ts, at, Symbol::For),
        !stands(ts, at, Symbol::Try),
        !stands(ts, at, Symbol::With),
        !stands(ts, at, Symbol::Def),
        !stands(ts, at, Symbol::Class),
        !stands(ts, at, Symbol::At),
    ensures
        grammar::statement(ts, at) == grammar::line(ts, at, seq![]),
{
    reveal(grammar::statement);
}

// ---------------------------------------------------------------------------------------------
// Whole texts.

/// A program is its statements, in order, up to the end of the tokens.
pub proof fn law_program(
    ts: Tokens,
    at: int,
    before: Seq<LocatedStatementModel>,
    next: Seq<LocatedStatementModel>,
    p: int,
    place: int,
)
    requires
        0 <= at,
    ensures
        at >= ts.len() ==> (grammar::program(ts, at, before) matches Ok(all) && all.statements
            == before),
        at < ts.len() && reads(grammar::statement(ts, at), next, at, p, ts) ==> grammar::program(
            ts,
            at,
            before,
        ) == grammar::program(ts, p, before + next),
        at < ts.len() && refuses(grammar::statement(ts, at), place) ==> (grammar::program(
            ts,
            at,
            before,
        ) matches Err(found) && found == place),
{
    reveal(grammar::program);
}

/// A text is parsed from its first token to its last: as a program of any number of statements, as
/// one statement, or as one list of expressions.
pub proof fn law_whole_texts(
    ts: Tokens,
    found: Seq<LocatedStatementModel>,
    value: ExpressionModel,
    p: int,
)
    ensures
        grammar::top(Start::Program, ts) == (match grammar::program(ts, 0, seq![]) {
            Ok(program) => Ok::<TopModel, int>(TopModel::Program(program)),
            Err(place) => Err::<TopModel, int>(place),
        }),
        ends(grammar::statement(ts, 0), found, p) ==> {
            &&& found.len() == 1 && p == ts.len() ==> grammar::top(Start::Statement, ts) == Ok::<
                TopModel,
                int,
            >(TopModel::Statement(found[0]))
            &&& found.len() != 1 || p != ts.len() ==> grammar::top(Start::Statement, ts) == Err::<
                TopModel,
                int,
            >(p)
        },
        refuses(grammar::statement(ts, 0), p) ==> grammar::top(Start::Statement, ts) == Err::<
            TopModel,
            int,
        >(p),
        ends(grammar::testlist(ts, 0, false), value, p) ==> {
            &&& p == ts.len() ==> grammar::top(Start::Expression, ts) == Ok::<TopModel, int>(
                TopModel::Expression(value),
            )
            &&& p != ts.len() ==> grammar::top(Start::Expression, ts) == Err::<TopModel, int>(p)
        },
        refuses(grammar::testlist(ts, 0, false), p) ==> grammar::top(Start::Expression, ts)
            == Err::<TopModel, int>(p),
{
    reveal(grammar::single);
    reveal(grammar::expression);
}

} // verus!
