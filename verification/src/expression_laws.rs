//! What expressions are parsed as, told from the tokens and from what their parts are parsed as.
use vstd::prelude::*;

use crate::ast::{
    ComprehensionKindModel, ComprehensionModel, ExpressionModel, KeywordModel, NumberModel,
    ParametersModel,
};
use crate::grammar;
use crate::grammar::{ArgumentsModel, Parsed, Tokens};
use crate::operator_laws::{identifier, names, reads, refuses, stands};
use crate::token::{Symbol, TokModel};

verus! {

/// Whether a value has been read up to a place, which may be where the reading began.
pub open spec fn ends<T>(parsed: Parsed<T>, value: T, end: int) -> bool {
    parsed matches Ok((found, place)) && found == value && place == end
}

/// Whether a token stands at a place with which an expression can begin.
pub open spec fn may_begin(ts: Tokens, at: int) -> bool {
    0 <= at < ts.len() && match ts[at].tok {
        TokModel::Symbol(symbol) => {
            ||| symbol == Symbol::Lpar
            ||| symbol == Symbol::Lsqb
            ||| symbol == Symbol::Lbrace
            ||| symbol == Symbol::Plus
            ||| symbol == Symbol::Minus
            ||| symbol == Symbol::Tilde
            ||| symbol == Symbol::Star
            ||| symbol == Symbol::Not
            ||| symbol == Symbol::Lambda
            ||| symbol == Symbol::True
            ||| symbol == Symbol::False
            ||| symbol == Symbol::NoneWord
        },
        _ => true,
    }
}

// ---------------------------------------------------------------------------------------------
// Atoms.

/// Names, numbers, bytes and the constant words are what they are written as.
pub proof fn law_atoms(ts: Tokens, at: int)
    requires
        0 <= at < ts.len(),
    ensures
        ({
            let parsed = grammar::atom(ts, at);
            match ts[at].tok {
                TokModel::Name { name } => reads(parsed, identifier(name), at, at + 1, ts),
                TokModel::Int { value } => reads(
                    parsed,
                    ExpressionModel::Number { value: NumberModel::Integer { value } },
                    at,
                    at + 1,
                    ts,
                ),
                TokModel::Float { literal } => reads(
                    parsed,
                    ExpressionModel::Number { value: NumberModel::Float { literal } },
                    at,
                    at + 1,
                    ts,
                ),
                TokModel::Bytes { value } => reads(
                    parsed,
                    ExpressionModel::Bytes { value },
                    at,
                    at + 1,
                    ts,
                ),
                TokModel::String { .. } => true,
                TokModel::Symbol(symbol) => {
                    if symbol == Symbol::True {
                        reads(parsed, ExpressionModel::True, at, at + 1, ts)
                    } else if symbol == Symbol::False {
                        reads(parsed, ExpressionModel::False, at, at + 1, ts)
                    } else if symbol == Symbol::NoneWord {
                        reads(parsed, ExpressionModel::NoneValue, at, at + 1, ts)
                    } else {
                        symbol != Symbol::Lpar && symbol != Symbol::Lsqb && symbol
                            != Symbol::Lbrace ==> refuses(parsed, at)
                    }
                },
            }
        }),
{
    reveal(grammar::atom);
    reveal(grammar::literal);
}

/// Where the tokens end, no atom begins.
pub proof fn law_no_atom_at_the_end(ts: Tokens)
    ensures
        refuses(grammar::atom(ts, ts.len() as int), ts.len() as int),
{
    reveal(grammar::atom);
    reveal(grammar::literal);
}

proof fn lemma_strings(ts: Tokens, at: int, text: Seq<char>)
    requires
        0 <= at,
    ensures
        ({
            let alone = grammar::strings(ts, at, Seq::empty());
            let behind = grammar::strings(ts, at, text);
            &&& alone matches Ok((rest, end)) && behind matches Ok((all, place)) && all == text
                + rest && place == end && at <= end && (at <= ts.len() ==> end <= ts.len())
        }),
    decreases ts.len() - at,
{
    reveal(grammar::strings);
    if at < ts.len() {
        match ts[at].tok {
            TokModel::String { value } => {
                lemma_strings(ts, at + 1, text + value);
                lemma_strings(ts, at + 1, Seq::<char>::empty() + value);
                assert(Seq::<char>::empty() + value =~= value);
                let rest = grammar::strings(ts, at + 1, Seq::empty());
                assert(grammar::strings(ts, at, Seq::empty()) == grammar::strings(
                    ts,
                    at + 1,
                    Seq::<char>::empty() + value,
                ));
                assert(grammar::strings(ts, at, text) == grammar::strings(
                    ts,
                    at + 1,
                    text + value,
                ));
                match rest {
                    Ok((tail, _)) => {
                        assert((text + value) + tail =~= text + (value + tail));
                    },
                    Err(_) => {},
                }
            },
            _ => {
                assert(text + Seq::<char>::empty() =~= text);
            },
        }
    } else {
        assert(text + Seq::<char>::empty() =~= text);
    }
}

/// A string is its text; strings one behind the other are one string, in the order in which they
/// stand.
pub proof fn law_strings_are_joined(ts: Tokens, at: int, value: Seq<char>)
    requires
        0 <= at < ts.len(),
        ts[at].tok == (TokModel::String { value }),
    ensures
        at + 1 < ts.len() && ts[at + 1].tok is String ==> {
            &&& grammar::atom(ts, at + 1) matches Ok((ExpressionModel::String { value: rest }, end))
            &&& reads(
                grammar::atom(ts, at),
                ExpressionModel::String { value: value + rest },
                at,
                end,
                ts,
            )
        },
        !(at + 1 < ts.len() && ts[at + 1].tok is String) ==> reads(
            grammar::atom(ts, at),
            ExpressionModel::String { value },
            at,
            at + 1,
            ts,
        ),
{
    reveal(grammar::atom);
    reveal(grammar::literal);
    reveal(grammar::strings);
    if at + 1 < ts.len() {
        match ts[at + 1].tok {
            TokModel::String { value: second } => {
                lemma_strings(ts, at + 2, value + second);
                lemma_strings(ts, at + 2, second);
                match grammar::strings(ts, at + 2, Seq::empty()) {
                    Ok((tail, _)) => {
                        assert((value + second) + tail =~= value + (second + tail));
                    },
                    Err(_) => {},
                }
                assert(grammar::strings(ts, at + 1, value) == grammar::strings(
                    ts,
                    at + 2,
                    value + second,
                ));
            },
            _ => {},
        }
    }
}

// ---------------------------------------------------------------------------------------------
// Calls, subscripts and attributes.

/// What stands behind an atom belongs to it, from left to right: arguments make a call, brackets a
/// subscript, and a name behind a dot an attribute.
pub proof fn law_trailers_belong_to_the_left(ts: Tokens, at: int, a: ExpressionModel, p: int)
    requires
        0 <= at,
    ensures
        reads(grammar::atom(ts, at), a, at, p, ts) ==> grammar::atom_expression(ts, at)
            == grammar::trailers(ts, p, a),
        !stands(ts, at, Symbol::Lpar) && !stands(ts, at, Symbol::Lsqb) && !stands(
            ts,
            at,
            Symbol::Dot,
        ) ==> ends(grammar::trailers(ts, at, a), a, at),
{
    reveal(grammar::atom_expression);
    reveal(grammar::trailers);
    reveal(grammar::atom);
}

/// Arguments between parentheses make a call of what stands before them.
pub proof fn law_arguments_make_a_call(
    ts: Tokens,
    at: int,
    a: ExpressionModel,
    args: Seq<ExpressionModel>,
    keywords: Seq<KeywordModel>,
    p: int,
)
    requires
        0 <= at,
        stands(ts, at, Symbol::Lpar),
        reads(
            grammar::arguments(ts, at + 1, ArgumentsModel { args: seq![], keywords: seq![] }),
            ArgumentsModel { args, keywords },
            at,
            p,
            ts,
        ),
    ensures
        grammar::trailers(ts, at, a) == grammar::trailers(
            ts,
            p,
            ExpressionModel::Call { function: Box::new(a), args, keywords },
        ),
{
    reveal(grammar::trailers);
    reveal(grammar::arguments);
}

/// Brackets make a subscript of what stands before them, if they are closed.
pub proof fn law_brackets_make_a_subscript(
    ts: Tokens,
    at: int,
    a: ExpressionModel,
    b: ExpressionModel,
    p: int,
)
    requires
        0 <= at,
        stands(ts, at, Symbol::Lsqb),
        reads(grammar::subscripts(ts, at + 1), b, at, p, ts),
    ensures
        stands(ts, p, Symbol::Rsqb) ==> grammar::trailers(ts, at, a) == grammar::trailers(
            ts,
            p + 1,
            ExpressionModel::Subscript { a: Box::new(a), b: Box::new(b) },
        ),
        !stands(ts, p, Symbol::Rsqb) ==> refuses(grammar::trailers(ts, at, a), p),
{
    reveal(grammar::trailers);
    reveal(grammar::subscripts);
}

/// A name behind a dot makes an attribute of what stands before it.
pub proof fn law_dot_makes_an_attribute(ts: Tokens, at: int, a: ExpressionModel, name: Seq<char>)
    requires
        0 <= at,
        stands(ts, at, Symbol::Dot),
    ensures
        names(ts, at + 1, name) ==> grammar::trailers(ts, at, a) == grammar::trailers(
            ts,
            at + 2,
            ExpressionModel::Attribute { value: Box::new(a), name },
        ),
        !(at + 1 < ts.len() && ts[at + 1].tok is Name) ==> refuses(
            grammar::trailers(ts, at, a),
            at + 1,
        ),
{
    reveal(grammar::trailers);
}

/// Arguments are separated by commas and end with a parenthesis.
pub proof fn law_arguments_are_separated(
    ts: Tokens,
    at: int,
    given: ArgumentsModel,
    more: ArgumentsModel,
    p: int,
)
    requires
        0 <= at,
    ensures
        stands(ts, at, Symbol::Rpar) ==> ends(grammar::arguments(ts, at, given), given, at + 1),
        !stands(ts, at, Symbol::Rpar) && reads(
            grammar::argument(ts, at, given),
            more,
            at,
            p,
            ts,
        ) ==> {
            &&& stands(ts, p, Symbol::Comma) ==> grammar::arguments(ts, at, given)
                == grammar::arguments(ts, p + 1, more)
            &&& stands(ts, p, Symbol::Rpar) ==> ends(
                grammar::arguments(ts, at, given),
                more,
                p + 1,
            )
            &&& !stands(ts, p, Symbol::Comma) && !stands(ts, p, Symbol::Rpar) ==> refuses(
                grammar::arguments(ts, at, given),
                p,
            )
        },
{
    reveal(grammar::arguments);
    reveal(grammar::argument);
}

/// An argument comes behind those before it: a plain or a starred one among the positional ones,
/// a named or a double-starred one among the keywords.
pub proof fn law_argument_is_added(
    ts: Tokens,
    at: int,
    given: ArgumentsModel,
    name: Seq<char>,
    value: ExpressionModel,
    p: int,
)
    requires
        0 <= at,
    ensures
        stands(ts, at, Symbol::Star) && reads(grammar::test(ts, at + 1), value, at, p, ts) ==> reads(
            grammar::argument(ts, at, given),
            ArgumentsModel {
                args: given.args.push(ExpressionModel::Starred { value: Box::new(value) }),
                keywords: given.keywords,
            },
            at,
            p,
            ts,
        ),
        stands(ts, at, Symbol::DoubleStar) && reads(
            grammar::test(ts, at + 1),
            value,
            at,
            p,
            ts,
        ) ==> reads(
            grammar::argument(ts, at, given),
            ArgumentsModel {
                args: given.args,
                keywords: given.keywords.push(KeywordModel { name: None, value }),
            },
            at,
            p,
            ts,
        ),
        names(ts, at, name) && stands(ts, at + 1, Symbol::Equal) && reads(
            grammar::test(ts, at + 2),
            value,
            at,
            p,
            ts,
        ) ==> reads(
            grammar::argument(ts, at, given),
            ArgumentsModel {
                args: given.args,
                keywords: given.keywords.push(KeywordModel { name: Some(name), value }),
            },
            at,
            p,
            ts,
        ),
        !stands(ts, at, Symbol::Star) && !stands(ts, at, Symbol::DoubleStar) && !(0 <= at
            < ts.len() && ts[at].tok is Name && stands(ts, at + 1, Symbol::Equal)) && reads(
            grammar::test(ts, at),
            value,
            at,
            p,
            ts,
        ) && !stands(ts, p, Symbol::For) ==> reads(
            grammar::argument(ts, at, given),
            ArgumentsModel { args: given.args.push(value), keywords: given.keywords },
            at,
            p,
            ts,
        ),
{
    reveal(grammar::argument);
    reveal(grammar::test);
}

/// An argument with `for` behind it is a generator.
pub proof fn law_argument_can_be_a_generator(
    ts: Tokens,
    at: int,
    given: ArgumentsModel,
    element: ExpressionModel,
    p: int,
    generators: Seq<ComprehensionModel>,
    q: int,
)
    requires
        0 <= at,
        !stands(ts, at, Symbol::Star),
        !stands(ts, at, Symbol::DoubleStar),
        !(at < ts.len() && ts[at].tok is Name && stands(ts, at + 1, Symbol::Equal)),
        reads(grammar::test(ts, at), element, at, p, ts),
        stands(ts, p, Symbol::For),
        reads(grammar::generators(ts, p, seq![]), generators, p, q, ts),
    ensures
        reads(
            grammar::argument(ts, at, given),
            ArgumentsModel {
                args: given.args.push(
                    ExpressionModel::Comprehension {
                        kind: Box::new(ComprehensionKindModel::GeneratorExpression { element }),
                        generators,
                    },
                ),
                keywords: given.keywords,
            },
            at,
            q,
            ts,
        ),
{
    reveal(grammar::argument);
    reveal(grammar::test);
    reveal(grammar::generators);
}

// ---------------------------------------------------------------------------------------------
// Lists of expressions.

/// An element of a list may be starred. What is starred, and a target, holds no comparison and
/// nothing that binds looser.
pub proof fn law_elements(ts: Tokens, at: int, targets: bool, value: ExpressionModel, p: int)
    requires
        0 <= at,
    ensures
        stands(ts, at, Symbol::Star) && reads(
            grammar::operation(ts, at + 1, 4),
            value,
            at,
            p,
            ts,
        ) ==> reads(
            grammar::element(ts, at, targets),
            ExpressionModel::Starred { value: Box::new(value) },
            at,
            p,
            ts,
        ),
        !stands(ts, at, Symbol::Star) ==> grammar::element(ts, at, true) == grammar::operation(
            ts,
            at,
            4,
        ),
        !stands(ts, at, Symbol::Star) ==> grammar::element(ts, at, false) == grammar::test(ts, at),
{
    reveal(grammar::element);
    reveal(grammar::operation);
    reveal(grammar::test);
}

/// A comma makes a tuple, and without one an element stands for itself.
pub proof fn law_comma_makes_a_tuple(
    ts: Tokens,
    at: int,
    targets: bool,
    first: ExpressionModel,
    p: int,
    elements: Seq<ExpressionModel>,
    q: int,
)
    requires
        0 <= at,
        reads(grammar::element(ts, at, targets), first, at, p, ts),
    ensures
        !stands(ts, p, Symbol::Comma) ==> reads(
            grammar::testlist(ts, at, targets),
            first,
            at,
            p,
            ts,
        ),
        stands(ts, p, Symbol::Comma) && reads(
            grammar::more_elements(ts, p, seq![first], targets),
            elements,
            p,
            q,
            ts,
        ) ==> reads(
            grammar::testlist(ts, at, targets),
            ExpressionModel::Tuple { elements },
            at,
            q,
            ts,
        ),
{
    reveal(grammar::testlist);
    reveal(grammar::element);
    reveal(grammar::more_elements);
}

/// Elements follow each other behind commas, in order. A last comma may stand alone.
pub proof fn law_elements_follow(
    ts: Tokens,
    at: int,
    before: Seq<ExpressionModel>,
    targets: bool,
    next: ExpressionModel,
    p: int,
)
    requires
        0 <= at,
    ensures
        !stands(ts, at, Symbol::Comma) ==> ends(
            grammar::more_elements(ts, at, before, targets),
            before,
            at,
        ),
        stands(ts, at, Symbol::Comma) && !may_begin(ts, at + 1) ==> ends(
            grammar::more_elements(ts, at, before, targets),
            before,
            at + 1,
        ),
        stands(ts, at, Symbol::Comma) && may_begin(ts, at + 1) && reads(
            grammar::element(ts, at + 1, targets),
            next,
            at,
            p,
            ts,
        ) ==> grammar::more_elements(ts, at, before, targets) == grammar::more_elements(
            ts,
            p,
            before.push(next),
            targets,
        ),
{
    reveal(grammar::more_elements);
    reveal(grammar::element);
}

// ---------------------------------------------------------------------------------------------
// Brackets.

/// Brackets with nothing between them are an empty tuple, list or dictionary.
pub proof fn law_empty_brackets(ts: Tokens, at: int)
    requires
        0 <= at,
    ensures
        stands(ts, at, Symbol::Lpar) && stands(ts, at + 1, Symbol::Rpar) ==> reads(
            grammar::atom(ts, at),
            ExpressionModel::Tuple { elements: seq![] },
            at,
            at + 2,
            ts,
        ),
        stands(ts, at, Symbol::Lsqb) && stands(ts, at + 1, Symbol::Rsqb) ==> reads(
            grammar::atom(ts, at),
            ExpressionModel::List { elements: seq![] },
            at,
            at + 2,
            ts,
        ),
        stands(ts, at, Symbol::Lbrace) && stands(ts, at + 1, Symbol::Rbrace) ==> reads(
            grammar::atom(ts, at),
            ExpressionModel::Dict { elements: seq![] },
            at,
            at + 2,
            ts,
        ),
{
    reveal(grammar::atom);
    reveal(grammar::parentheses);
    reveal(grammar::brackets);
    reveal(grammar::braces);
}

/// The symbol that closes what another one opens.
pub open spec fn closing(opening: Symbol) -> Symbol {
    match opening {
        Symbol::Lpar => Symbol::Rpar,
        Symbol::Lsqb => Symbol::Rsqb,
        _ => Symbol::Rbrace,
    }
}

proof fn lemma_bracketed(ts: Tokens, at: int)
    requires
        0 <= at,
    ensures
        stands(ts, at, Symbol::Lpar) ==> grammar::atom(ts, at) == grammar::parentheses(ts, at),
        stands(ts, at, Symbol::Lsqb) ==> grammar::atom(ts, at) == grammar::brackets(ts, at),
        stands(ts, at, Symbol::Lbrace) ==> grammar::atom(ts, at) == grammar::braces(ts, at),
{
    reveal(grammar::atom);
    reveal(grammar::parentheses);
    reveal(grammar::brackets);
    reveal(grammar::braces);
}

/// Elements between brackets are a list, between braces a set, and between parentheses a tuple. An
/// element alone between parentheses stands for itself.
pub proof fn law_elements_between_brackets(
    ts: Tokens,
    at: int,
    opening: Symbol,
    first: ExpressionModel,
    p: int,
    elements: Seq<ExpressionModel>,
    q: int,
)
    requires
        0 <= at,
        opening == Symbol::Lpar || opening == Symbol::Lsqb || opening == Symbol::Lbrace,
        stands(ts, at, opening),
        !stands(ts, at + 1, closing(opening)),
        opening == Symbol::Lpar ==> !stands(ts, at + 1, Symbol::Yield),
        reads(grammar::element(ts, at + 1, false), first, at, p, ts),
        !stands(ts, p, Symbol::For),
        opening == Symbol::Lbrace ==> !stands(ts, p, Symbol::Colon) || stands(
            ts,
            at + 1,
            Symbol::Star,
        ),
    ensures
        opening == Symbol::Lpar && stands(ts, p, Symbol::Rpar) ==> reads(
            grammar::atom(ts, at),
            first,
            at,
            p + 1,
            ts,
        ),
        (opening == Symbol::Lpar ==> stands(ts, p, Symbol::Comma)) && ends(
            grammar::more_elements(ts, p, seq![first], false),
            elements,
            q,
        ) && p <= q <= ts.len() ==> {
            &&& stands(ts, q, closing(opening)) ==> reads(
                grammar::atom(ts, at),
                match opening {
                    Symbol::Lpar => ExpressionModel::Tuple { elements },
                    Symbol::Lsqb => ExpressionModel::List { elements },
                    _ => ExpressionModel::SetLiteral { elements },
                },
                at,
                q + 1,
                ts,
            )
            &&& !stands(ts, q, closing(opening)) ==> refuses(grammar::atom(ts, at), q)
        },
{
    lemma_bracketed(ts, at);
    reveal(grammar::element);
    reveal(grammar::more_elements);
    match opening {
        Symbol::Lpar => {
            reveal(grammar::parentheses);
        },
        Symbol::Lsqb => {
            reveal(grammar::brackets);
        },
        _ => {
            reveal(grammar::braces);
        },
    }
}

/// An element with `for` behind it is a comprehension of the kind that the brackets say.
pub proof fn law_comprehensions(
    ts: Tokens,
    at: int,
    opening: Symbol,
    element: ExpressionModel,
    p: int,
    generators: Seq<ComprehensionModel>,
    q: int,
)
    requires
        0 <= at,
        opening == Symbol::Lpar || opening == Symbol::Lsqb || opening == Symbol::Lbrace,
        stands(ts, at, opening),
        !stands(ts, at + 1, closing(opening)),
        opening == Symbol::Lpar ==> !stands(ts, at + 1, Symbol::Yield),
        reads(grammar::element(ts, at + 1, false), element, at, p, ts),
        stands(ts, p, Symbol::For),
        reads(grammar::generators(ts, p, seq![]), generators, p, q, ts),
    ensures
        stands(ts, q, closing(opening)) ==> reads(
            grammar::atom(ts, at),
            ExpressionModel::Comprehension {
                kind: Box::new(
                    match opening {
                        Symbol::Lpar => ComprehensionKindModel::GeneratorExpression { element },
                        Symbol::Lsqb => ComprehensionKindModel::List { element },
                        _ => ComprehensionKindModel::SetBuilder { element },
                    },
                ),
                generators,
            },
            at,
            q + 1,
            ts,
        ),
        !stands(ts, q, closing(opening)) ==> refuses(grammar::atom(ts, at), q),
{
    lemma_bracketed(ts, at);
    reveal(grammar::element);
    reveal(grammar::generators);
    match opening {
        Symbol::Lpar => {
            reveal(grammar::parentheses);
        },
        Symbol::Lsqb => {
            reveal(grammar::brackets);
        },
        _ => {
            reveal(grammar::braces);
        },
    }
}

/// Pairs of key and value between braces are a dictionary, and a pair with `for` behind it is a
/// comprehension of one.
pub proof fn law_pairs_between_braces(
    ts: Tokens,
    at: int,
    key: ExpressionModel,
    p: int,
    value: ExpressionModel,
    q: int,
    elements: Seq<(ExpressionModel, ExpressionModel)>,
    generators: Seq<ComprehensionModel>,
    r: int,
)
    requires
        0 <= at,
        stands(ts, at, Symbol::Lbrace),
        !stands(ts, at + 1, Symbol::Rbrace),
        !stands(ts, at + 1, Symbol::Star),
        reads(grammar::element(ts, at + 1, false), key, at, p, ts),
        stands(ts, p, Symbol::Colon),
        reads(grammar::test(ts, p + 1), value, p, q, ts),
    ensures
        stands(ts, q, Symbol::For) && reads(
            grammar::generators(ts, q, seq![]),
            generators,
            q,
            r,
            ts,
        ) && stands(ts, r, Symbol::Rbrace) ==> reads(
            grammar::atom(ts, at),
            ExpressionModel::Comprehension {
                kind: Box::new(ComprehensionKindModel::Dict { key, value }),
                generators,
            },
            at,
            r + 1,
            ts,
        ),
        !stands(ts, q, Symbol::For) && ends(
            grammar::more_pairs(ts, q, seq![(key, value)]),
            elements,
            r,
        ) && q <= r && stands(ts, r, Symbol::Rbrace) ==> reads(
            grammar::atom(ts, at),
            ExpressionModel::Dict { elements },
            at,
            r + 1,
            ts,
        ),
{
    lemma_bracketed(ts, at);
    reveal(grammar::element);
    reveal(grammar::test);
    reveal(grammar::generators);
    reveal(grammar::more_pairs);
    reveal(grammar::braces);
}

/// Pairs follow each other behind commas, in order. A last comma may stand alone.
pub proof fn law_pairs_follow(
    ts: Tokens,
    at: int,
    before: Seq<(ExpressionModel, ExpressionModel)>,
    key: ExpressionModel,
    p: int,
    value: ExpressionModel,
    q: int,
)
    requires
        0 <= at,
    ensures
        !stands(ts, at, Symbol::Comma) ==> ends(
            grammar::more_pairs(ts, at, before),
            before,
            at,
        ),
        stands(ts, at, Symbol::Comma) && !may_begin(ts, at + 1) ==> ends(
            grammar::more_pairs(ts, at, before),
            before,
            at + 1,
        ),
        stands(ts, at, Symbol::Comma) && may_begin(ts, at + 1) && reads(
            grammar::test(ts, at + 1),
            key,
            at,
            p,
            ts,
        ) ==> {
            &&& stands(ts, p, Symbol::Colon) && reads(
                grammar::test(ts, p + 1),
                value,
                p,
                q,
                ts,
            ) ==> grammar::more_pairs(ts, at, before) == grammar::more_pairs(
                ts,
                q,
                before.push((key, value)),
            )
            &&& !stands(ts, p, Symbol::Colon) ==> refuses(grammar::more_pairs(ts, at, before), p)
        },
{
    reveal(grammar::more_pairs);
    reveal(grammar::test);
}

/// A `for` clause has a target, what is iterated over, and conditions. Clauses follow each other
/// in order.
pub proof fn law_for_clauses(
    ts: Tokens,
    at: int,
    before: Seq<ComprehensionModel>,
    target: ExpressionModel,
    p: int,
    iter: ExpressionModel,
    q: int,
    ifs: Seq<ExpressionModel>,
    r: int,
)
    requires
        0 <= at,
        stands(ts, at, Symbol::For),
        reads(grammar::testlist(ts, at + 1, true), target, at, p, ts),
        stands(ts, p, Symbol::In),
        reads(grammar::operation(ts, p + 1, 0), iter, p, q, ts),
        ends(grammar::conditions(ts, q, seq![]), ifs, r),
        q <= r <= ts.len(),
    ensures
        ({
            let all = before.push(ComprehensionModel { target, iter, ifs });
            &&& stands(ts, r, Symbol::For) ==> grammar::generators(ts, at, before)
                == grammar::generators(ts, r, all)
            &&& !stands(ts, r, Symbol::For) ==> ends(
                grammar::generators(ts, at, before),
                all,
                r,
            )
        }),
{
    reveal(grammar::generators);
    reveal(grammar::testlist);
    reveal(grammar::operation);
    reveal(grammar::conditions);
}

/// Conditions follow each other behind `if`, in order.
pub proof fn law_conditions_follow(
    ts: Tokens,
    at: int,
    before: Seq<ExpressionModel>,
    condition: ExpressionModel,
    p: int,
)
    requires
        0 <= at,
    ensures
        !stands(ts, at, Symbol::If) ==> ends(grammar::conditions(ts, at, before), before, at),
        stands(ts, at, Symbol::If) && reads(
            grammar::operation(ts, at + 1, 0),
            condition,
            at,
            p,
            ts,
        ) ==> grammar::conditions(ts, at, before) == grammar::conditions(
            ts,
            p,
            before.push(condition),
        ),
{
    reveal(grammar::conditions);
    reveal(grammar::operation);
}

/// A `yield` hands out nothing, a list of expressions, or what another generator hands out. It may
/// stand between parentheses.
pub proof fn law_yields(ts: Tokens, at: int, value: ExpressionModel, p: int)
    requires
        0 <= at,
    ensures
        stands(ts, at, Symbol::Yield) && stands(ts, at + 1, Symbol::From) && reads(
            grammar::test(ts, at + 2),
            value,
            at,
            p,
            ts,
        ) ==> reads(
            grammar::yield_expression(ts, at),
            ExpressionModel::YieldFrom { expression: Box::new(value) },
            at,
            p,
            ts,
        ),
        stands(ts, at, Symbol::Yield) && may_begin(ts, at + 1) && reads(
            grammar::testlist(ts, at + 1, false),
            value,
            at,
            p,
            ts,
        ) ==> reads(
            grammar::yield_expression(ts, at),
            ExpressionModel::Yield { expression: Some(Box::new(value)) },
            at,
            p,
            ts,
        ),
        stands(ts, at, Symbol::Yield) && !stands(ts, at + 1, Symbol::From) && !may_begin(
            ts,
            at + 1,
        ) ==> reads(
            grammar::yield_expression(ts, at),
            ExpressionModel::Yield { expression: None },
            at,
            at + 1,
            ts,
        ),
        stands(ts, at, Symbol::Lpar) && stands(ts, at + 1, Symbol::Yield) && reads(
            grammar::yield_expression(ts, at + 1),
            value,
            at,
            p,
            ts,
        ) && stands(ts, p, Symbol::Rpar) ==> reads(grammar::atom(ts, at), value, at, p + 1, ts),
{
    lemma_bracketed(ts, at);
    reveal(grammar::yield_expression);
    reveal(grammar::test);
    reveal(grammar::testlist);
    reveal(grammar::parentheses);
}

// ---------------------------------------------------------------------------------------------
// Subscripts.

/// A comma makes a tuple of subscripts, and without one a subscript stands for itself.
pub proof fn law_subscripts(
    ts: Tokens,
    at: int,
    first: ExpressionModel,
    p: int,
    elements: Seq<ExpressionModel>,
    q: int,
)
    requires
        0 <= at,
        reads(grammar::subscript(ts, at), first, at, p, ts),
    ensures
        !stands(ts, p, Symbol::Comma) ==> reads(grammar::subscripts(ts, at), first, at, p, ts),
        stands(ts, p, Symbol::Comma) && reads(
            grammar::more_subscripts(ts, p, seq![first]),
            elements,
            p,
            q,
            ts,
        ) ==> reads(
            grammar::subscripts(ts, at),
            ExpressionModel::Tuple { elements },
            at,
            q,
            ts,
        ),
{
    reveal(grammar::subscripts);
    reveal(grammar::subscript);
    reveal(grammar::more_subscripts);
}

/// Subscripts follow each other behind commas, in order. A last comma may stand alone.
pub proof fn law_subscripts_follow(
    ts: Tokens,
    at: int,
    before: Seq<ExpressionModel>,
    next: ExpressionModel,
    p: int,
)
    requires
        0 <= at,
    ensures
        !stands(ts, at, Symbol::Comma) ==> ends(
            grammar::more_subscripts(ts, at, before),
            before,
            at,
        ),
        stands(ts, at, Symbol::Comma) && !may_begin(ts, at + 1) && !stands(
            ts,
            at + 1,
            Symbol::Colon,
        ) ==> ends(grammar::more_subscripts(ts, at, before), before, at + 1),
        stands(ts, at, Symbol::Comma) && (may_begin(ts, at + 1) || stands(
            ts,
            at + 1,
            Symbol::Colon,
        )) && reads(grammar::subscript(ts, at + 1), next, at, p, ts) ==> grammar::more_subscripts(
            ts,
            at,
            before,
        ) == grammar::more_subscripts(ts, p, before.push(next)),
{
    reveal(grammar::more_subscripts);
    reveal(grammar::subscript);
}

/// A colon makes a slice of a lower bound, an upper bound and a step, each `None` where it is not
/// written.
pub proof fn law_colon_makes_a_slice(
    ts: Tokens,
    at: int,
    lower: ExpressionModel,
    p: int,
    upper: ExpressionModel,
    q: int,
    step: ExpressionModel,
    r: int,
)
    requires
        0 <= at,
        ends(grammar::bound(ts, at), lower, p),
        at <= p < ts.len(),
        stands(ts, p, Symbol::Colon),
        ends(grammar::bound(ts, p + 1), upper, q),
        p < q <= ts.len(),
        may_begin(ts, at) || at == p,
    ensures
        !stands(ts, q, Symbol::Colon) ==> reads(
            grammar::subscript(ts, at),
            ExpressionModel::Slice { elements: seq![lower, upper, ExpressionModel::NoneValue] },
            at,
            q,
            ts,
        ),
        stands(ts, q, Symbol::Colon) && ends(grammar::bound(ts, q + 1), step, r) && q < r
            <= ts.len() ==> reads(
            grammar::subscript(ts, at),
            ExpressionModel::Slice { elements: seq![lower, upper, step] },
            at,
            r,
            ts,
        ),
{
    reveal(grammar::bound);
    reveal(grammar::test);
    assert(stands(ts, at, Symbol::Colon) ==> !may_begin(ts, at));
    if at == p {
        assert(lower == ExpressionModel::NoneValue);
    } else {
        assert(reads(grammar::test(ts, at), lower, at, p, ts));
    }
    assert(grammar::subscript(ts, at) == grammar::slice(ts, p, lower)) by {
        reveal(grammar::subscript);
        reveal(grammar::slice);
    }
    reveal(grammar::slice);
}

/// A bound is an expression, or `None` where no expression can begin.
pub proof fn law_bounds(ts: Tokens, at: int)
    requires
        0 <= at,
    ensures
        may_begin(ts, at) ==> grammar::bound(ts, at) == grammar::test(ts, at),
        !may_begin(ts, at) ==> ends(grammar::bound(ts, at), ExpressionModel::NoneValue, at),
{
    reveal(grammar::bound);
    reveal(grammar::test);
}

/// Without a colon a subscript is an expression.
pub proof fn law_plain_subscript(ts: Tokens, at: int, value: ExpressionModel, p: int)
    requires
        0 <= at,
        !stands(ts, at, Symbol::Colon),
        reads(grammar::test(ts, at), value, at, p, ts),
        !stands(ts, p, Symbol::Colon),
    ensures
        reads(grammar::subscript(ts, at), value, at, p, ts),
{
    reveal(grammar::subscript);
    reveal(grammar::test);
}

// ---------------------------------------------------------------------------------------------
// Choices and functions.

/// `a if b else c` is a choice by `b` between `a` and `c`.
pub proof fn law_choice(
    ts: Tokens,
    at: int,
    body: ExpressionModel,
    p: int,
    condition: ExpressionModel,
    q: int,
    orelse: ExpressionModel,
    r: int,
)
    requires
        0 <= at,
        !stands(ts, at, Symbol::Lambda),
        reads(grammar::operation(ts, at, 0), body, at, p, ts),
    ensures
        !stands(ts, p, Symbol::If) ==> reads(grammar::test(ts, at), body, at, p, ts),
        stands(ts, p, Symbol::If) && reads(
            grammar::operation(ts, p + 1, 0),
            condition,
            p,
            q,
            ts,
        ) ==> {
            &&& stands(ts, q, Symbol::Else) && reads(
                grammar::test(ts, q + 1),
                orelse,
                q,
                r,
                ts,
            ) ==> reads(
                grammar::test(ts, at),
                ExpressionModel::IfExpression {
                    test: Box::new(condition),
                    body: Box::new(body),
                    orelse: Box::new(orelse),
                },
                at,
                r,
                ts,
            )
            &&& !stands(ts, q, Symbol::Else) ==> refuses(grammar::test(ts, at), q)
        },
{
    reveal(grammar::test);
    reveal(grammar::operation);
}

/// The parameters of a function without any.
pub open spec fn nothing_given() -> ParametersModel {
    ParametersModel {
        args: seq![],
        kwonlyargs: seq![],
        vararg: None,
        kwarg: None,
        defaults: seq![],
        kw_defaults: seq![],
    }
}

/// A function is its parameters and the expression behind the colon.
pub proof fn law_lambda(
    ts: Tokens,
    at: int,
    args: ParametersModel,
    p: int,
    body: ExpressionModel,
    q: int,
)
    requires
        0 <= at,
        stands(ts, at, Symbol::Lambda),
        ends(grammar::parameters(ts, at + 1, nothing_given()), args, p),
        at < p <= ts.len(),
    ensures
        stands(ts, p, Symbol::Colon) && reads(grammar::test(ts, p + 1), body, p, q, ts) ==> reads(
            grammar::test(ts, at),
            ExpressionModel::Lambda { args, body: Box::new(body) },
            at,
            q,
            ts,
        ),
        !stands(ts, p, Symbol::Colon) ==> refuses(grammar::test(ts, at), p),
{
    reveal(grammar::test);
    reveal(grammar::parameters);
}

/// Parameters are separated by commas. One with two stars is the last.
pub proof fn law_parameters_are_separated(
    ts: Tokens,
    at: int,
    given: ParametersModel,
    more: ParametersModel,
    p: int,
    name: Seq<char>,
)
    requires
        0 <= at,
    ensures
        (at < ts.len() && ts[at].tok is Name || stands(ts, at, Symbol::Star)) && reads(
            grammar::parameter(ts, at, given),
            more,
            at,
            p,
            ts,
        ) ==> {
            &&& stands(ts, p, Symbol::Comma) ==> grammar::parameters(ts, at, given)
                == grammar::parameters(ts, p + 1, more)
            &&& !stands(ts, p, Symbol::Comma) ==> ends(
                grammar::parameters(ts, at, given),
                more,
                p,
            )
        },
        stands(ts, at, Symbol::DoubleStar) && names(ts, at + 1, name) ==> ends(
            grammar::parameters(ts, at, given),
            ParametersModel { kwarg: Some(Some(name)), ..given },
            at + 2,
        ),
        !(at < ts.len() && ts[at].tok is Name) && !stands(ts, at, Symbol::Star) && !stands(
            ts,
            at,
            Symbol::DoubleStar,
        ) ==> ends(grammar::parameters(ts, at, given), given, at),
{
    reveal(grammar::parameters);
    reveal(grammar::parameter);
}

/// A starred parameter takes the other positional arguments, and occurs once at most. Those behind
/// it are given by name only. Before it none without a default follows one with a default.
pub proof fn law_parameter_is_added(
    ts: Tokens,
    at: int,
    given: ParametersModel,
    name: Seq<char>,
    value: ExpressionModel,
    p: int,
)
    requires
        0 <= at,
    ensures
        stands(ts, at, Symbol::Star) && given.vararg is Some ==> refuses(
            grammar::parameter(ts, at, given),
            at,
        ),
        stands(ts, at, Symbol::Star) && given.vararg is None && names(ts, at + 1, name) ==> reads(
            grammar::parameter(ts, at, given),
            ParametersModel { vararg: Some(Some(name)), ..given },
            at,
            at + 2,
            ts,
        ),
        stands(ts, at, Symbol::Star) && given.vararg is None && !(at + 1 < ts.len()
            && ts[at + 1].tok is Name) ==> reads(
            grammar::parameter(ts, at, given),
            ParametersModel { vararg: Some(None), ..given },
            at,
            at + 1,
            ts,
        ),
        names(ts, at, name) && stands(ts, at + 1, Symbol::Equal) && reads(
            grammar::test(ts, at + 2),
            value,
            at,
            p,
            ts,
        ) ==> reads(
            grammar::parameter(ts, at, given),
            if given.vararg is Some {
                ParametersModel {
                    kwonlyargs: given.kwonlyargs.push(name),
                    kw_defaults: given.kw_defaults.push(Some(value)),
                    ..given
                }
            } else {
                ParametersModel {
                    args: given.args.push(name),
                    defaults: given.defaults.push(value),
                    ..given
                }
            },
            at,
            p,
            ts,
        ),
        names(ts, at, name) && !stands(ts, at + 1, Symbol::Equal) ==> {
            &&& given.vararg is Some ==> reads(
                grammar::parameter(ts, at, given),
                ParametersModel {
                    kwonlyargs: given.kwonlyargs.push(name),
                    kw_defaults: given.kw_defaults.push(None),
                    ..given
                },
                at,
                at + 1,
                ts,
            )
            &&& given.vararg is None && given.defaults.len() == 0 ==> reads(
                grammar::parameter(ts, at, given),
                ParametersModel { args: given.args.push(name), ..given },
                at,
                at + 1,
                ts,
            )
            &&& given.vararg is None && given.defaults.len() > 0 ==> refuses(
                grammar::parameter(ts, at, given),
                at,
            )
        },
{
    reveal(grammar::parameter);
    reveal(grammar::test);
}

} // verus!
