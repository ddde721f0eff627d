//! What operators between operands are parsed as, told from the tokens alone.
//!
//! The signs of the operators, and how tightly they bind, are written down here once more, operator
//! by operator. The laws say that the parser goes by them.
use vstd::prelude::*;

use crate::ast::{BooleanOperator, Comparison, ExpressionModel, Operator, TopModel, UnaryOperator};
use crate::grammar;
use crate::grammar::{Infix, Parsed, Start, Tokens};
use crate::token::{Symbol, TokModel};

verus! {

/// Whether a symbol stands at a place.
pub open spec fn stands(ts: Tokens, at: int, symbol: Symbol) -> bool {
    0 <= at < ts.len() && ts[at].tok == TokModel::Symbol(symbol)
}

/// Whether a name stands at a place.
pub open spec fn names(ts: Tokens, at: int, name: Seq<char>) -> bool {
    0 <= at < ts.len() && ts[at].tok == (TokModel::Name { name })
}

/// Whether a value has been read from one place to another.
pub open spec fn reads<T>(parsed: Parsed<T>, value: T, at: int, end: int, ts: Tokens) -> bool {
    &&& parsed matches Ok((found, place)) && found == value && place == end
    &&& at < end <= ts.len()
}

/// Whether nothing can be read, because of the token at a place.
pub open spec fn refuses<T>(parsed: Parsed<T>, place: int) -> bool {
    parsed matches Err(found) && found == place
}

/// The expression of a name.
pub open spec fn identifier(name: Seq<char>) -> ExpressionModel {
    ExpressionModel::Identifier { name }
}

// ---------------------------------------------------------------------------------------------
// Signs.

/// The symbols that an operator is written with.
pub open spec fn written(infix: Infix) -> Seq<Symbol> {
    match infix {
        Infix::Boolean(BooleanOperator::Or) => seq![Symbol::Or],
        Infix::Boolean(BooleanOperator::And) => seq![Symbol::And],
        Infix::Comparison(Comparison::Equal) => seq![Symbol::EqEqual],
        Infix::Comparison(Comparison::NotEqual) => seq![Symbol::NotEqual],
        Infix::Comparison(Comparison::Less) => seq![Symbol::Less],
        Infix::Comparison(Comparison::LessOrEqual) => seq![Symbol::LessEqual],
        Infix::Comparison(Comparison::Greater) => seq![Symbol::Greater],
        Infix::Comparison(Comparison::GreaterOrEqual) => seq![Symbol::GreaterEqual],
        Infix::Comparison(Comparison::In) => seq![Symbol::In],
        Infix::Comparison(Comparison::NotIn) => seq![Symbol::Not, Symbol::In],
        Infix::Comparison(Comparison::Is) => seq![Symbol::Is],
        Infix::Comparison(Comparison::IsNot) => seq![Symbol::Is, Symbol::Not],
        Infix::Binary(Operator::BitOr) => seq![Symbol::Vbar],
        Infix::Binary(Operator::BitXor) => seq![Symbol::CircumFlex],
        Infix::Binary(Operator::BitAnd) => seq![Symbol::Amper],
        Infix::Binary(Operator::LShift) => seq![Symbol::LeftShift],
        Infix::Binary(Operator::RShift) => seq![Symbol::RightShift],
        Infix::Binary(Operator::Add) => seq![Symbol::Plus],
        Infix::Binary(Operator::Sub) => seq![Symbol::Minus],
        Infix::Binary(Operator::Mult) => seq![Symbol::Star],
        Infix::Binary(Operator::Div) => seq![Symbol::Slash],
        Infix::Binary(Operator::FloorDiv) => seq![Symbol::DoubleSlash],
        Infix::Binary(Operator::Mod) => seq![Symbol::Percent],
        Infix::Binary(Operator::MatMult) => seq![Symbol::At],
        Infix::Binary(Operator::Pow) => seq![Symbol::DoubleStar],
    }
}

/// How tightly an operator binds.
pub open spec fn tightness(infix: Infix) -> int {
    match infix {
        Infix::Boolean(BooleanOperator::Or) => 0,
        Infix::Boolean(BooleanOperator::And) => 1,
        Infix::Comparison(_) => 3,
        Infix::Binary(Operator::BitOr) => 4,
        Infix::Binary(Operator::BitXor) => 5,
        Infix::Binary(Operator::BitAnd) => 6,
        Infix::Binary(Operator::LShift) => 7,
        Infix::Binary(Operator::RShift) => 7,
        Infix::Binary(Operator::Add) => 8,
        Infix::Binary(Operator::Sub) => 8,
        Infix::Binary(Operator::Mult) => 9,
        Infix::Binary(Operator::Div) => 9,
        Infix::Binary(Operator::FloorDiv) => 9,
        Infix::Binary(Operator::Mod) => 9,
        Infix::Binary(Operator::MatMult) => 9,
        Infix::Binary(Operator::Pow) => 10,
    }
}

/// Whether an operator is written at a place. `is` is not where `is not` is.
pub open spec fn written_at(ts: Tokens, at: int, infix: Infix) -> bool {
    &&& forall|k: int|
        0 <= k < written(infix).len() ==> stands(ts, at + k, #[trigger] written(infix)[k])
    &&& infix == Infix::Comparison(Comparison::Is) ==> !stands(ts, at + 1, Symbol::Not)
}

/// The expression of two operands with an operator between them.
pub open spec fn joined(a: ExpressionModel, infix: Infix, b: ExpressionModel) -> ExpressionModel {
    match infix {
        Infix::Boolean(op) => ExpressionModel::BoolOp { a: Box::new(a), op, b: Box::new(b) },
        Infix::Binary(op) => ExpressionModel::Binop { a: Box::new(a), op, b: Box::new(b) },
        Infix::Comparison(op) => ExpressionModel::Compare { a: Box::new(a), op, b: Box::new(b) },
    }
}

/// Whether an operator that binds as tightly as a level or tighter is written at a place.
pub open spec fn operator_follows(ts: Tokens, at: int, level: int) -> bool {
    exists|infix: Infix| tightness(infix) >= level && #[trigger] written_at(ts, at, infix)
}

proof fn lemma_infix(ts: Tokens, at: int, infix: Infix)
    requires
        written_at(ts, at, infix),
        tightness(infix) < 10,
    ensures
        grammar::infix(ts, at, tightness(infix) as u8) == Some((infix, written(infix).len() as int)),
        forall|level: u8|
            level != tightness(infix) && level != grammar::NEGATION
                ==> #[trigger] grammar::infix(ts, at, level) is None,
        written(infix).len() >= 1,
        at + written(infix).len() <= ts.len(),
{
    assert(stands(ts, at, written(infix)[0]));
    if written(infix).len() == 2 {
        assert(stands(ts, at + 1, written(infix)[1]));
    }
}

proof fn lemma_found_infix(ts: Tokens, at: int, level: u8, infix: Infix, length: int)
    requires
        grammar::infix(ts, at, level) == Some((infix, length)),
        level < 10,
        level != 2,
    ensures
        written_at(ts, at, infix),
        tightness(infix) == level,
{
    assert(stands(ts, at, written(infix)[0]));
}

// ---------------------------------------------------------------------------------------------
// Operands and operators.

/// Above all levels stands an operand with its sign.
proof fn lemma_tightest(ts: Tokens, at: int)
    ensures
        grammar::operation(ts, at, 10) == grammar::factor(ts, at),
{
    reveal(grammar::operation);
    reveal(grammar::factor);
}

proof fn lemma_unsigned(ts: Tokens, at: int)
    requires
        !stands(ts, at, Symbol::Plus),
        !stands(ts, at, Symbol::Minus),
        !stands(ts, at, Symbol::Tilde),
    ensures
        grammar::operation(ts, at, 10) == grammar::power(ts, at),
{
    lemma_tightest(ts, at);
    reveal(grammar::factor);
    reveal(grammar::power);
}

proof fn lemma_next_level(ts: Tokens, at: int, level: u8, a: ExpressionModel, p: int)
    requires
        level < 10,
        reads(grammar::operation(ts, at, (level + 1) as u8), a, at, p, ts),
    ensures
        level != 2 ==> grammar::operation(ts, at, level) == grammar::more_operands(
            ts,
            p,
            level,
            a,
        ),
        level == 2 && !stands(ts, at, Symbol::Not) ==> reads(
            grammar::operation(ts, at, level),
            a,
            at,
            p,
            ts,
        ),
{
    reveal(grammar::operation);
    reveal(grammar::more_operands);
}

/// Operators of one level join operands that hold only tighter ones, from left to right.
pub proof fn law_operators_join_from_the_left(
    ts: Tokens,
    at: int,
    a: ExpressionModel,
    p: int,
    infix: Infix,
    b: ExpressionModel,
    q: int,
)
    requires
        0 <= at,
        tightness(infix) < 10,
        reads(grammar::operation(ts, at, (tightness(infix) + 1) as u8), a, at, p, ts),
        written_at(ts, p, infix),
        reads(
            grammar::operation(ts, p + written(infix).len(), (tightness(infix) + 1) as u8),
            b,
            p,
            q,
            ts,
        ),
    ensures
        grammar::operation(ts, at, tightness(infix) as u8) == grammar::more_operands(
            ts,
            p,
            tightness(infix) as u8,
            a,
        ),
        grammar::more_operands(ts, p, tightness(infix) as u8, a) == grammar::more_operands(
            ts,
            q,
            tightness(infix) as u8,
            joined(a, infix, b),
        ),
{
    lemma_next_level(ts, at, tightness(infix) as u8, a, p);
    lemma_infix(ts, p, infix);
    reveal(grammar::more_operands);
    reveal(grammar::operation);
}

/// Where no operator of a level follows, the operands end.
pub proof fn law_operands_end(ts: Tokens, at: int, a: ExpressionModel, level: u8)
    requires
        level < 10,
        level != 2,
        forall|infix: Infix| tightness(infix) == level ==> !#[trigger] written_at(ts, at, infix),
    ensures
        grammar::more_operands(ts, at, level, a) == Ok::<(ExpressionModel, int), int>((a, at)),
{
    reveal(grammar::more_operands);
    match grammar::infix(ts, at, level) {
        Some((infix, length)) => {
            lemma_found_infix(ts, at, level, infix, length);
        },
        None => {},
    }
}

/// `not` negates the operand behind it, which may hold comparisons and what binds tighter.
pub proof fn law_not_negates(ts: Tokens, at: int, a: ExpressionModel, p: int)
    requires
        0 <= at,
        stands(ts, at, Symbol::Not),
        reads(grammar::operation(ts, at + 1, 2), a, at, p, ts),
    ensures
        reads(
            grammar::operation(ts, at, 2),
            ExpressionModel::Unop { op: UnaryOperator::Not, a: Box::new(a) },
            at,
            p,
            ts,
        ),
{
    reveal(grammar::operation);
}

/// The symbol of a sign before an operand.
pub open spec fn sign_before(op: UnaryOperator) -> Symbol {
    match op {
        UnaryOperator::Pos => Symbol::Plus,
        UnaryOperator::Neg => Symbol::Minus,
        UnaryOperator::Inv => Symbol::Tilde,
        UnaryOperator::Not => Symbol::Not,
    }
}

/// A sign applies to the operand behind it, which may have a sign and an exponent of its own.
pub proof fn law_sign_applies(
    ts: Tokens,
    at: int,
    op: UnaryOperator,
    a: ExpressionModel,
    p: int,
)
    requires
        0 <= at,
        op != UnaryOperator::Not,
        stands(ts, at, sign_before(op)),
        reads(grammar::operation(ts, at + 1, 10), a, at, p, ts),
    ensures
        reads(
            grammar::operation(ts, at, 10),
            ExpressionModel::Unop { op, a: Box::new(a) },
            at,
            p,
            ts,
        ),
{
    lemma_tightest(ts, at);
    lemma_tightest(ts, at + 1);
    assert(reads(grammar::factor(ts, at + 1), a, at, p, ts));
    reveal(grammar::factor);
}

/// An exponent belongs to the operand before it, and may have a sign and an exponent of its own.
pub proof fn law_exponent_binds(
    ts: Tokens,
    at: int,
    a: ExpressionModel,
    p: int,
    b: ExpressionModel,
    q: int,
)
    requires
        0 <= at,
        !stands(ts, at, Symbol::Plus),
        !stands(ts, at, Symbol::Minus),
        !stands(ts, at, Symbol::Tilde),
        reads(grammar::atom_expression(ts, at), a, at, p, ts),
    ensures
        stands(ts, p, Symbol::DoubleStar) && reads(
            grammar::operation(ts, p + 1, 10),
            b,
            p,
            q,
            ts,
        ) ==> reads(
            grammar::operation(ts, at, 10),
            ExpressionModel::Binop { a: Box::new(a), op: Operator::Pow, b: Box::new(b) },
            at,
            q,
            ts,
        ),
        !stands(ts, p, Symbol::DoubleStar) ==> reads(
            grammar::operation(ts, at, 10),
            a,
            at,
            p,
            ts,
        ),
{
    lemma_unsigned(ts, at);
    lemma_tightest(ts, p + 1);
    reveal(grammar::power);
    reveal(grammar::atom_expression);
    reveal(grammar::factor);
}

// ---------------------------------------------------------------------------------------------
// Names.

/// Whether nothing follows that would belong to the operand before it.
pub open spec fn operand_ends(ts: Tokens, at: int) -> bool {
    &&& !stands(ts, at, Symbol::Lpar)
    &&& !stands(ts, at, Symbol::Lsqb)
    &&& !stands(ts, at, Symbol::Dot)
    &&& !stands(ts, at, Symbol::DoubleStar)
}

/// A name is an operand at every level whose operators do not follow it.
pub proof fn law_name_is_an_operand(ts: Tokens, at: int, name: Seq<char>, level: u8)
    requires
        names(ts, at, name),
        level <= 10,
        operand_ends(ts, at + 1),
        !operator_follows(ts, at + 1, level as int),
    ensures
        reads(grammar::operation(ts, at, level), identifier(name), at, at + 1, ts),
    decreases 10 - level,
{
    if level == 10 {
        lemma_name_atom(ts, at, name);
        law_exponent_binds(ts, at, identifier(name), at + 1, identifier(name), at + 1);
    } else {
        let next: u8 = (level + 1) as u8;
        assert(!operator_follows(ts, at + 1, next as int));
        law_name_is_an_operand(ts, at, name, next);
        lemma_next_level(ts, at, level, identifier(name), at + 1);
        if level != 2 {
            assert forall|infix: Infix| tightness(infix) == level implies !#[trigger] written_at(
                ts,
                at + 1,
                infix,
            ) by {}
            law_operands_end(ts, at + 1, identifier(name), level);
        }
    }
}

/// A lower level reads what a higher one reads, if no operator between the two follows.
pub proof fn lemma_climb(
    ts: Tokens,
    at: int,
    a: ExpressionModel,
    p: int,
    low: u8,
    high: u8,
)
    requires
        0 <= at,
        low <= high <= 10,
        reads(grammar::operation(ts, at, high), a, at, p, ts),
        !stands(ts, at, Symbol::Not),
        forall|infix: Infix|
            low <= tightness(infix) < high ==> !#[trigger] written_at(ts, p, infix),
    ensures
        reads(grammar::operation(ts, at, low), a, at, p, ts),
    decreases high - low,
{
    if low < high {
        let next: u8 = (low + 1) as u8;
        lemma_climb(ts, at, a, p, next, high);
        lemma_next_level(ts, at, low, a, p);
        if low != 2 {
            law_operands_end(ts, p, a, low);
        }
    }
}

/// Whether tokens are a name, an operator and a name, and nothing else.
pub open spec fn is_operation(ts: Tokens, a: Seq<char>, infix: Infix, b: Seq<char>) -> bool {
    &&& ts.len() == 2 + written(infix).len()
    &&& names(ts, 0, a)
    &&& written_at(ts, 1, infix)
    &&& names(ts, ts.len() - 1, b)
}

/// Two signs at one place are the same one.
proof fn lemma_one_sign(ts: Tokens, at: int, one: Infix, other: Infix)
    requires
        written_at(ts, at, one),
        written_at(ts, at, other),
    ensures
        one == other,
{
    assert(stands(ts, at, written(one)[0]));
    assert(stands(ts, at, written(other)[0]));
    if written(one).len() == 2 {
        assert(stands(ts, at + 1, written(one)[1]));
    }
    if written(other).len() == 2 {
        assert(stands(ts, at + 1, written(other)[1]));
    }
}

proof fn lemma_sign_ends_operand(ts: Tokens, at: int, infix: Infix)
    requires
        written_at(ts, at, infix),
        infix != Infix::Binary(Operator::Pow),
    ensures
        operand_ends(ts, at),
        forall|level: int| level > tightness(infix) ==> !#[trigger] operator_follows(ts, at, level),
{
    assert(stands(ts, at, written(infix)[0]));
    assert forall|level: int| level > tightness(infix) implies !#[trigger] operator_follows(
        ts,
        at,
        level,
    ) by {
        if operator_follows(ts, at, level) {
            let other = choose|other: Infix|
                tightness(other) >= level && #[trigger] written_at(ts, at, other);
            lemma_one_sign(ts, at, infix, other);
        }
    }
}

pub proof fn lemma_nothing_follows(ts: Tokens, at: int)
    requires
        at >= ts.len() || !(ts[at].tok is Symbol),
    ensures
        operand_ends(ts, at),
        forall|infix: Infix| !#[trigger] written_at(ts, at, infix),
        forall|level: int| !#[trigger] operator_follows(ts, at, level),
{
    assert forall|infix: Infix| !#[trigger] written_at(ts, at, infix) by {
        if written_at(ts, at, infix) {
            assert(stands(ts, at, written(infix)[0]));
        }
    }
}

/// Whether the tokens as a whole are parsed as an expression.
pub open spec fn is_parsed_as(ts: Tokens, expression: ExpressionModel) -> bool {
    grammar::top(Start::Expression, ts) == Ok::<TopModel, int>(TopModel::Expression(expression))
}

pub proof fn lemma_whole(ts: Tokens, expression: ExpressionModel)
    requires
        ts.len() > 0,
        !stands(ts, 0, Symbol::Star),
        !stands(ts, 0, Symbol::Lambda),
        reads(grammar::operation(ts, 0, 0), expression, 0, ts.len() as int, ts),
    ensures
        is_parsed_as(ts, expression),
{
    let end = ts.len() as int;
    assert(reads(grammar::test(ts, 0), expression, 0, end, ts)) by {
        reveal(grammar::test);
        reveal(grammar::operation);
    }
    assert(reads(grammar::element(ts, 0, false), expression, 0, end, ts)) by {
        reveal(grammar::element);
        reveal(grammar::test);
    }
    assert(reads(grammar::testlist(ts, 0, false), expression, 0, end, ts)) by {
        reveal(grammar::testlist);
        reveal(grammar::element);
    }
    reveal(grammar::expression);
}

/// Two names with an operator between them are parsed as that operation on those names: `a == b`
/// as the comparison for equality, and likewise for every other operator.
pub proof fn law_names_with_operator(ts: Tokens, a: Seq<char>, infix: Infix, b: Seq<char>)
    requires
        is_operation(ts, a, infix, b),
    ensures
        is_parsed_as(ts, joined(identifier(a), infix, identifier(b))),
{
    let last = ts.len() - 1;
    let level = tightness(infix);
    let whole = joined(identifier(a), infix, identifier(b));
    lemma_nothing_follows(ts, last + 1);
    assert(stands(ts, 1, written(infix)[0]));
    if infix == Infix::Binary(Operator::Pow) {
        law_name_is_an_operand(ts, last, b, 10);
        lemma_name_atom(ts, 0, a);
        law_exponent_binds(ts, 0, identifier(a), 1, identifier(b), ts.len() as int);
        lemma_climb(ts, 0, whole, ts.len() as int, 0, 10);
    } else {
        let next: u8 = (level + 1) as u8;
        lemma_sign_ends_operand(ts, 1, infix);
        law_name_is_an_operand(ts, 0, a, next);
        law_name_is_an_operand(ts, last, b, next);
        law_operators_join_from_the_left(
            ts,
            0,
            identifier(a),
            1,
            infix,
            identifier(b),
            ts.len() as int,
        );
        law_operands_end(ts, ts.len() as int, whole, level as u8);
        lemma_climb(ts, 0, whole, ts.len() as int, 0, level as u8);
    }
    lemma_whole(ts, whole);
}

/// A name that nothing else belongs to is an operand of a power.
proof fn lemma_name_atom(ts: Tokens, at: int, name: Seq<char>)
    requires
        names(ts, at, name),
        !stands(ts, at + 1, Symbol::Lpar),
        !stands(ts, at + 1, Symbol::Lsqb),
        !stands(ts, at + 1, Symbol::Dot),
    ensures
        reads(grammar::atom_expression(ts, at), identifier(name), at, at + 1, ts),
{
    assert(reads(grammar::literal(ts, at), identifier(name), at, at + 1, ts)) by {
        reveal(grammar::literal);
    }
    assert(reads(grammar::atom(ts, at), identifier(name), at, at + 1, ts)) by {
        reveal(grammar::atom);
    }
    assert(grammar::trailers(ts, at + 1, identifier(name)) == Ok::<(ExpressionModel, int), int>(
        (identifier(name), at + 1),
    )) by {
        reveal(grammar::trailers);
    }
    reveal(grammar::trailers);
    reveal(grammar::atom);
    reveal(grammar::atom_expression);
}

/// Different operators between the same names never give the same tree.
pub proof fn law_operators_are_told_apart(
    one: Tokens,
    other: Tokens,
    a: Seq<char>,
    b: Seq<char>,
    infix: Infix,
    other_infix: Infix,
)
    requires
        is_operation(one, a, infix, b),
        is_operation(other, a, other_infix, b),
        grammar::top(Start::Expression, one) == grammar::top(Start::Expression, other),
    ensures
        infix == other_infix,
{
    law_names_with_operator(one, a, infix, b);
    law_names_with_operator(other, a, other_infix, b);
}

/// Whether tokens are three names with two operators between them, and nothing else.
pub open spec fn is_chain(
    ts: Tokens,
    a: Seq<char>,
    first: Infix,
    b: Seq<char>,
    second: Infix,
    c: Seq<char>,
) -> bool {
    let middle: int = 1 + written(first).len() as int;
    &&& ts.len() == 3 + written(first).len() + written(second).len()
    &&& names(ts, 0, a)
    &&& written_at(ts, 1, first)
    &&& names(ts, middle, b)
    &&& written_at(ts, middle + 1, second)
    &&& names(ts, ts.len() - 1, c)
}

/// Of two operators the tighter one is applied first, and of two equally tight ones the left one,
/// but for exponents, where the right one is.
#[verifier::spinoff_prover]
pub proof fn law_tighter_operator_is_applied_first(
    ts: Tokens,
    a: Seq<char>,
    first: Infix,
    b: Seq<char>,
    second: Infix,
    c: Seq<char>,
)
    requires
        is_chain(ts, a, first, b, second, c),
    ensures
        is_parsed_as(
            ts,
            if tightness(first) < tightness(second) || tightness(second) == 10 {
                joined(identifier(a), first, joined(identifier(b), second, identifier(c)))
            } else {
                joined(joined(identifier(a), first, identifier(b)), second, identifier(c))
            },
        ),
{
    let middle: int = 1 + written(first).len() as int;
    let last = ts.len() - 1;
    let end = ts.len() as int;
    let one = tightness(first);
    let two = tightness(second);
    lemma_nothing_follows(ts, end);
    assert(stands(ts, 1, written(first)[0]));
    assert(stands(ts, middle + 1, written(second)[0]));
    if one < two || two == 10 {
        let inner = joined(identifier(b), second, identifier(c));
        let whole = joined(identifier(a), first, inner);
        if two == 10 {
            law_name_is_an_operand(ts, last, c, 10);
            lemma_name_atom(ts, middle, b);
            law_exponent_binds(ts, middle, identifier(b), middle + 1, identifier(c), end);
        } else {
            let next: u8 = (two + 1) as u8;
            lemma_sign_ends_operand(ts, middle + 1, second);
            law_name_is_an_operand(ts, middle, b, next);
            law_name_is_an_operand(ts, last, c, next);
            law_operators_join_from_the_left(
                ts,
                middle,
                identifier(b),
                middle + 1,
                second,
                identifier(c),
                end,
            );
            law_operands_end(ts, end, inner, two as u8);
        }
        assert(reads(grammar::operation(ts, middle, two as u8), inner, middle, end, ts));
        if one == 10 {
            lemma_name_atom(ts, 0, a);
            law_exponent_binds(ts, 0, identifier(a), 1, inner, end);
            lemma_climb(ts, 0, whole, end, 0, 10);
        } else {
            let next: u8 = (one + 1) as u8;
            lemma_climb(ts, middle, inner, end, next, two as u8);
            lemma_sign_ends_operand(ts, 1, first);
            law_name_is_an_operand(ts, 0, a, next);
            law_operators_join_from_the_left(ts, 0, identifier(a), 1, first, inner, end);
            law_operands_end(ts, end, whole, one as u8);
            lemma_climb(ts, 0, whole, end, 0, one as u8);
        }
        lemma_whole(ts, whole);
    } else {
        let inner = joined(identifier(a), first, identifier(b));
        let whole = joined(inner, second, identifier(c));
        let next: u8 = (two + 1) as u8;
        lemma_sign_ends_operand(ts, middle + 1, second);
        law_name_is_an_operand(ts, last, c, next);
        if one == 10 {
            law_name_is_an_operand(ts, middle, b, 10);
            lemma_name_atom(ts, 0, a);
            law_exponent_binds(ts, 0, identifier(a), 1, identifier(b), middle + 1);
            assert(reads(grammar::operation(ts, 0, 10), inner, 0, middle + 1, ts));
        } else {
            let above: u8 = (one + 1) as u8;
            lemma_sign_ends_operand(ts, 1, first);
            law_name_is_an_operand(ts, 0, a, above);
            law_name_is_an_operand(ts, middle, b, above);
            law_operators_join_from_the_left(
                ts,
                0,
                identifier(a),
                1,
                first,
                identifier(b),
                middle + 1,
            );
        }
        if one == two {
            assert(grammar::operation(ts, 0, two as u8) == grammar::more_operands(
                ts,
                middle + 1,
                two as u8,
                inner,
            ));
            reveal(grammar::more_operands);
            lemma_infix(ts, middle + 1, second);
            assert(grammar::more_operands(ts, middle + 1, two as u8, inner)
                == grammar::more_operands(ts, end, two as u8, whole));
        } else {
            assert forall|infix: Infix| two < tightness(infix) implies !#[trigger] written_at(
                ts,
                middle + 1,
                infix,
            ) by {
                if written_at(ts, middle + 1, infix) {
                    lemma_one_sign(ts, middle + 1, second, infix);
                }
            }
            if one < 10 {
                law_operands_end(ts, middle + 1, inner, one as u8);
            }
            lemma_climb(ts, 0, inner, middle + 1, next, one as u8);
            law_operators_join_from_the_left(
                ts,
                0,
                inner,
                middle + 1,
                second,
                identifier(c),
                end,
            );
        }
        law_operands_end(ts, end, whole, two as u8);
        lemma_climb(ts, 0, whole, end, 0, two as u8);
        lemma_whole(ts, whole);
    }
}

/// Whether tokens are `not` and names with an operator between them, and nothing else.
pub open spec fn is_negation(ts: Tokens, a: Seq<char>, infix: Infix, b: Seq<char>) -> bool {
    &&& ts.len() == 3 + written(infix).len()
    &&& stands(ts, 0, Symbol::Not)
    &&& names(ts, 1, a)
    &&& written_at(ts, 2, infix)
    &&& names(ts, ts.len() - 1, b)
}

/// `not` applies to a comparison as a whole, and to one operand of `and` and `or`.
#[verifier::spinoff_prover]
pub proof fn law_not_takes_comparisons(ts: Tokens, a: Seq<char>, infix: Infix, b: Seq<char>)
    requires
        is_negation(ts, a, infix, b),
        infix is Comparison || infix is Boolean,
    ensures
        is_parsed_as(
            ts,
            if infix is Comparison {
                ExpressionModel::Unop {
                    op: UnaryOperator::Not,
                    a: Box::new(joined(identifier(a), infix, identifier(b))),
                }
            } else {
                joined(
                    ExpressionModel::Unop {
                        op: UnaryOperator::Not,
                        a: Box::new(identifier(a)),
                    },
                    infix,
                    identifier(b),
                )
            },
        ),
{
    let last = ts.len() - 1;
    let end = ts.len() as int;
    let level = tightness(infix);
    let next: u8 = (level + 1) as u8;
    lemma_nothing_follows(ts, end);
    assert(stands(ts, 2, written(infix)[0]));
    lemma_sign_ends_operand(ts, 2, infix);
    law_name_is_an_operand(ts, last, b, next);
    if infix is Comparison {
        let inner = joined(identifier(a), infix, identifier(b));
        let whole = ExpressionModel::Unop { op: UnaryOperator::Not, a: Box::new(inner) };
        law_name_is_an_operand(ts, 1, a, next);
        law_operators_join_from_the_left(ts, 1, identifier(a), 2, infix, identifier(b), end);
        law_operands_end(ts, end, inner, level as u8);
        lemma_climb(ts, 1, inner, end, 2, 3);
        law_not_negates(ts, 0, inner, end);
        lemma_next_level(ts, 0, 1, whole, end);
        law_operands_end(ts, end, whole, 1);
        lemma_next_level(ts, 0, 0, whole, end);
        assert(reads(grammar::operation(ts, 0, 1), whole, 0, end, ts));
        law_operands_end(ts, end, whole, 0);
        assert(reads(grammar::operation(ts, 0, 0), whole, 0, end, ts));
        lemma_whole(ts, whole);
    } else {
        let negated = ExpressionModel::Unop {
            op: UnaryOperator::Not,
            a: Box::new(identifier(a)),
        };
        let whole = joined(negated, infix, identifier(b));
        law_name_is_an_operand(ts, 1, a, 2);
        law_not_negates(ts, 0, identifier(a), 2);
        if level == 0 {
            assert forall|other: Infix| tightness(other) == 1 implies !#[trigger] written_at(
                ts,
                2,
                other,
            ) by {
                if written_at(ts, 2, other) {
                    lemma_one_sign(ts, 2, infix, other);
                }
            }
            lemma_next_level(ts, 0, 1, negated, 2);
            law_operands_end(ts, 2, negated, 1);
            assert(reads(grammar::operation(ts, 0, 1), negated, 0, 2, ts));
        }
        law_operators_join_from_the_left(ts, 0, negated, 2, infix, identifier(b), end);
        law_operands_end(ts, end, whole, level as u8);
        assert(reads(grammar::operation(ts, 0, level as u8), whole, 0, end, ts));
        if level == 1 {
            lemma_next_level(ts, 0, 0, whole, end);
            law_operands_end(ts, end, whole, 0);
            assert(reads(grammar::operation(ts, 0, 0), whole, 0, end, ts));
        }
        lemma_whole(ts, whole);
    }
}

} // verus!
