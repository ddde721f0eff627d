//! The parser: reads tokens as the grammar says.
use vstd::prelude::*;

use crate::ast;
use crate::ast::{
    BooleanOperator, Comparison, Comprehension, ComprehensionKind, ExceptHandler, Expression,
    ExpressionModel, Keyword, LocatedStatement, Number, Operator, Parameters, Program,
    SingleImport, Statement, Top, UnaryOperator, WithItem,
};
use crate::grammar;
use crate::grammar::{
    ArgumentsModel, Infix, Parsed, Start, Tokens, BITWISE, LEVELS, NEGATION,
};
use crate::token;
use crate::token::{Symbol, Tok, Token};

verus! {

broadcast use crate::ast::group_models;

/// What has been read with the place after it, or the place that does not fit.
type Read<T> = Result<(T, usize), usize>;

/// The arguments of a call.
struct Arguments {
    args: Vec<Expression>,
    keywords: Vec<Keyword>,
}

impl Arguments {
    spec fn model(self) -> ArgumentsModel {
        ArgumentsModel {
            args: ast::expression_models(self.args@),
            keywords: ast::keyword_models(self.keywords@),
        }
    }
}

spec fn models(ts: &Vec<Token>) -> Tokens {
    token::token_models(ts@)
}

spec fn block_model(
    body: Option<Vec<LocatedStatement>>,
) -> Option<Seq<ast::LocatedStatementModel>> {
    match body {
        Some(body) => Some(ast::statement_models(body@)),
        None => None,
    }
}

/// Whether what was read is, by its model, what the grammar says, and stops at a place or beyond.
spec fn reads<T, M>(
    parsed: Read<T>,
    model: spec_fn(T) -> M,
    expected: Parsed<M>,
    least: int,
    length: int,
) -> bool {
    match (parsed, expected) {
        (Ok((value, next)), Ok((value_model, next_model))) => {
            &&& model(value) == value_model
            &&& next == next_model
            &&& least <= next <= length
        },
        (Err(place), Err(place_model)) => place == place_model && place <= length,
        _ => false,
    }
}

/// What has been read where the value went into another one.
spec fn read_into<T>(parsed: Result<usize, usize>, value: T) -> Read<T> {
    match parsed {
        Ok(next) => Ok((value, next)),
        Err(place) => Err(place),
    }
}

// ---------------------------------------------------------------------------------------------
// Tokens.

#[verifier::spinoff_prover]
fn is_symbol(ts: &Vec<Token>, at: usize, symbol: Symbol) -> (yes: bool)
    ensures
        yes == grammar::is_symbol(models(ts), at as int, symbol),
{
    at < ts.len() && match &ts[at].tok {
        Tok::Symbol(found) => *found == symbol,
        _ => false,
    }
}

#[verifier::spinoff_prover]
fn symbol_at(ts: &Vec<Token>, at: usize) -> (symbol: Option<Symbol>)
    ensures
        symbol == grammar::symbol_at(models(ts), at as int),
{
    if at < ts.len() {
        match &ts[at].tok {
            Tok::Symbol(symbol) => Some(*symbol),
            _ => None,
        }
    } else {
        None
    }
}

#[verifier::spinoff_prover]
fn name(ts: &Vec<Token>, at: usize) -> (parsed: Read<String>)
    requires
        at <= ts.len(),
    ensures
        reads(
            parsed,
            |value: String| value@,
            grammar::name(models(ts), at as int),
            at + 1,
            ts.len() as int,
        ),
{
    if at < ts.len() {
        match &ts[at].tok {
            Tok::Name { name } => Ok((name.clone(), at + 1)),
            _ => Err(at),
        }
    } else {
        Err(at)
    }
}

#[verifier::spinoff_prover]
fn is_name(ts: &Vec<Token>, at: usize) -> (yes: bool)
    ensures
        yes == grammar::is_name(models(ts), at as int),
{
    at < ts.len() && match &ts[at].tok {
        Tok::Name { name: _ } => true,
        _ => false,
    }
}

#[verifier::spinoff_prover]
fn starts(ts: &Vec<Token>, at: usize) -> (yes: bool)
    ensures
        yes == grammar::starts(models(ts), at as int),
        yes ==> at < ts.len(),
{
    at < ts.len() && match &ts[at].tok {
        Tok::Symbol(symbol) => starts_with(*symbol),
        _ => true,
    }
}

#[verifier::spinoff_prover]
fn starts_with(symbol: Symbol) -> (yes: bool)
    ensures
        yes == grammar::starts_with(symbol),
{
    match symbol {
        Symbol::Lpar => true,
        Symbol::Lsqb => true,
        Symbol::Lbrace => true,
        Symbol::Plus => true,
        Symbol::Minus => true,
        Symbol::Tilde => true,
        Symbol::Star => true,
        Symbol::Not => true,
        Symbol::Lambda => true,
        Symbol::True => true,
        Symbol::False => true,
        Symbol::NoneWord => true,
        _ => false,
    }
}

// ---------------------------------------------------------------------------------------------
// Operators.

#[verifier::spinoff_prover]
fn join(a: Expression, infix: Infix, b: Expression) -> (joined: Expression)
    ensures
        joined.model() == grammar::join(a.model(), infix, b.model()),
{
    match infix {
        Infix::Boolean(op) => Expression::BoolOp { a: Box::new(a), op, b: Box::new(b) },
        Infix::Binary(op) => Expression::Binop { a: Box::new(a), op, b: Box::new(b) },
        Infix::Comparison(op) => Expression::Compare { a: Box::new(a), op, b: Box::new(b) },
    }
}

/// Whether an operator was found as the grammar says, and ends within the tokens.
spec fn finds(
    found: Option<(Infix, usize)>,
    expected: Option<(Infix, int)>,
    at: int,
    length: int,
) -> bool {
    match (found, expected) {
        (Some((infix, tokens)), Some((infix_model, tokens_model))) => {
            &&& infix == infix_model
            &&& tokens == tokens_model
            &&& 0 < tokens <= length - at
        },
        (None, None) => true,
        _ => false,
    }
}

#[verifier::spinoff_prover]
fn infix(ts: &Vec<Token>, at: usize, level: u8) -> (found: Option<(Infix, usize)>)
    requires
        at <= ts.len(),
    ensures
        finds(found, grammar::infix(models(ts), at as int, level), at as int, ts.len() as int),
{
    match symbol_at(ts, at) {
        None => None,
        Some(symbol) => if level == 0 {
            if symbol == Symbol::Or {
                Some((Infix::Boolean(BooleanOperator::Or), 1))
            } else {
                None
            }
        } else if level == 1 {
            if symbol == Symbol::And {
                Some((Infix::Boolean(BooleanOperator::And), 1))
            } else {
                None
            }
        } else if level == 3 {
            comparison(ts, at, symbol)
        } else {
            match binary(symbol, level) {
                Some(op) => Some((Infix::Binary(op), 1)),
                None => None,
            }
        },
    }
}

#[verifier::spinoff_prover]
fn comparison(ts: &Vec<Token>, at: usize, symbol: Symbol) -> (found: Option<(Infix, usize)>)
    requires
        at < ts.len(),
    ensures
        finds(
            found,
            grammar::comparison(models(ts), at as int, symbol),
            at as int,
            ts.len() as int,
        ),
{
    match symbol {
        Symbol::EqEqual => Some((Infix::Comparison(Comparison::Equal), 1)),
        Symbol::NotEqual => Some((Infix::Comparison(Comparison::NotEqual), 1)),
        Symbol::Less => Some((Infix::Comparison(Comparison::Less), 1)),
        Symbol::LessEqual => Some((Infix::Comparison(Comparison::LessOrEqual), 1)),
        Symbol::Greater => Some((Infix::Comparison(Comparison::Greater), 1)),
        Symbol::GreaterEqual => Some((Infix::Comparison(Comparison::GreaterOrEqual), 1)),
        Symbol::In => Some((Infix::Comparison(Comparison::In), 1)),
        Symbol::Is => if is_symbol(ts, at + 1, Symbol::Not) {
            Some((Infix::Comparison(Comparison::IsNot), 2))
        } else {
            Some((Infix::Comparison(Comparison::Is), 1))
        },
        Symbol::Not => if is_symbol(ts, at + 1, Symbol::In) {
            Some((Infix::Comparison(Comparison::NotIn), 2))
        } else {
            None
        },
        _ => None,
    }
}

#[verifier::spinoff_prover]
fn binary(symbol: Symbol, level: u8) -> (op: Option<Operator>)
    ensures
        op == grammar::binary(symbol, level),
{
    let found: Option<(Operator, u8)> = match symbol {
        Symbol::Vbar => Some((Operator::BitOr, 4)),
        Symbol::CircumFlex => Some((Operator::BitXor, 5)),
        Symbol::Amper => Some((Operator::BitAnd, 6)),
        Symbol::LeftShift => Some((Operator::LShift, 7)),
        Symbol::RightShift => Some((Operator::RShift, 7)),
        Symbol::Plus => Some((Operator::Add, 8)),
        Symbol::Minus => Some((Operator::Sub, 8)),
        Symbol::Star => Some((Operator::Mult, 9)),
        Symbol::Slash => Some((Operator::Div, 9)),
        Symbol::DoubleSlash => Some((Operator::FloorDiv, 9)),
        Symbol::Percent => Some((Operator::Mod, 9)),
        Symbol::At => Some((Operator::MatMult, 9)),
        _ => None,
    };
    match found {
        Some((op, of)) => if of == level {
            Some(op)
        } else {
            None
        },
        None => None,
    }
}

#[verifier::spinoff_prover]
fn prefix(ts: &Vec<Token>, at: usize) -> (op: Option<UnaryOperator>)
    ensures
        op == grammar::prefix(models(ts), at as int),
        op is Some ==> at < ts.len(),
{
    match symbol_at(ts, at) {
        Some(Symbol::Plus) => Some(UnaryOperator::Pos),
        Some(Symbol::Minus) => Some(UnaryOperator::Neg),
        Some(Symbol::Tilde) => Some(UnaryOperator::Inv),
        _ => None,
    }
}

#[verifier::spinoff_prover]
fn augmented(ts: &Vec<Token>, at: usize) -> (op: Option<Operator>)
    ensures
        op == grammar::augmented(models(ts), at as int),
        op is Some ==> at < ts.len(),
{
    match symbol_at(ts, at) {
        Some(Symbol::PlusEqual) => Some(Operator::Add),
        Some(Symbol::MinusEqual) => Some(Operator::Sub),
        Some(Symbol::StarEqual) => Some(Operator::Mult),
        Some(Symbol::AtEqual) => Some(Operator::MatMult),
        Some(Symbol::SlashEqual) => Some(Operator::Div),
        Some(Symbol::DoubleSlashEqual) => Some(Operator::FloorDiv),
        Some(Symbol::PercentEqual) => Some(Operator::Mod),
        Some(Symbol::AmperEqual) => Some(Operator::BitAnd),
        Some(Symbol::VbarEqual) => Some(Operator::BitOr),
        Some(Symbol::CircumflexEqual) => Some(Operator::BitXor),
        Some(Symbol::LeftShiftEqual) => Some(Operator::LShift),
        Some(Symbol::RightShiftEqual) => Some(Operator::RShift),
        Some(Symbol::DoubleStarEqual) => Some(Operator::Pow),
        _ => None,
    }
}

// ---------------------------------------------------------------------------------------------
// Expressions.

#[verifier::loop_isolation(false)]
#[verifier::spinoff_prover]
fn strings(ts: &Vec<Token>, at: usize, text: String) -> (parsed: Read<String>)
    requires
        at <= ts.len(),
    ensures
        reads(
            parsed,
            |value: String| value@,
            grammar::strings(models(ts), at as int, text@),
            at as int,
            ts.len() as int,
        ),
{
    reveal(grammar::strings);
    let ghost expected = grammar::strings(models(ts), at as int, text@);
    let mut text: String = text;
    let mut here: usize = at;
    while here < ts.len()
        invariant
            at <= here <= ts.len(),
            expected == grammar::strings(models(ts), here as int, text@),
        decreases ts.len() - here,
    {
        match &ts[here].tok {
            Tok::String { value } => {
                text.append(value.as_str());
            },
            _ => {
                return Ok((text, here));
            },
        }
        here += 1;
    }
    Ok((text, here))
}

#[verifier::spinoff_prover]
fn literal(ts: &Vec<Token>, at: usize) -> (parsed: Read<Expression>)
    requires
        at <= ts.len(),
    ensures
        reads(
            parsed,
            |value: Expression| value.model(),
            grammar::literal(models(ts), at as int),
            at + 1,
            ts.len() as int,
        ),
{
    reveal(grammar::literal);
    if at >= ts.len() {
        return Err(at);
    }
    match &ts[at].tok {
        Tok::Name { name } => Ok((Expression::Identifier { name: name.clone() }, at + 1)),
        Tok::Int { value } => Ok(
            (Expression::Number { value: Number::Integer { value: *value } }, at + 1),
        ),
        Tok::Float { literal } => Ok(
            (Expression::Number { value: Number::Float { literal: literal.clone() } }, at + 1),
        ),
        Tok::String { value } => {
            let (value, next) = match strings(ts, at + 1, value.clone()) {
                Ok(parsed) => parsed,
                Err(place) => {
                    return Err(place);
                },
            };
            Ok((Expression::String { value }, next))
        },
        Tok::Bytes { value } => Ok((Expression::Bytes { value: copy_bytes(value) }, at + 1)),
        Tok::Symbol(symbol) => if *symbol == Symbol::True {
            Ok((Expression::True, at + 1))
        } else if *symbol == Symbol::False {
            Ok((Expression::False, at + 1))
        } else if *symbol == Symbol::NoneWord {
            Ok((Expression::NoneValue, at + 1))
        } else {
            Err(at)
        },
    }
}

#[verifier::loop_isolation(false)]
#[verifier::spinoff_prover]
fn copy_bytes(bytes: &Vec<u8>) -> (copy: Vec<u8>)
    ensures
        copy@ == bytes@,
{
    let mut copy: Vec<u8> = Vec::new();
    let mut at: usize = 0;
    while at < bytes.len()
        invariant
            at <= bytes.len(),
            copy@ == bytes@.take(at as int),
        decreases bytes.len() - at,
    {
        copy.push(bytes[at]);
        at += 1;
    }
    copy
}

#[verifier::spinoff_prover]
fn testlist(ts: &Vec<Token>, at: usize, targets: bool) -> (parsed: Read<Expression>)
    requires
        at <= ts.len(),
    ensures
        reads(
            parsed,
            |value: Expression| value.model(),
            grammar::testlist(models(ts), at as int, targets),
            at + 1,
            ts.len() as int,
        ),
    decreases ts.len() - at, 35nat,
{
    reveal(grammar::testlist);
    let (first, p) = match element(ts, at, targets) {
        Ok(parsed) => parsed,
        Err(place) => {
            return Err(place);
        },
    };
    if is_symbol(ts, p, Symbol::Comma) {
        let mut elements: Vec<Expression> = Vec::new();
        elements.push(first);
        let (elements, q) = match more_elements(ts, p, elements, targets) {
            Ok(parsed) => parsed,
            Err(place) => {
                return Err(place);
            },
        };
        Ok((Expression::Tuple { elements }, q))
    } else {
        Ok((first, p))
    }
}

#[verifier::spinoff_prover]
fn element(ts: &Vec<Token>, at: usize, targets: bool) -> (parsed: Read<Expression>)
    requires
        at <= ts.len(),
    ensures
        reads(
            parsed,
            |value: Expression| value.model(),
            grammar::element(models(ts), at as int, targets),
            at + 1,
            ts.len() as int,
        ),
    decreases ts.len() - at, 31nat,
{
    reveal(grammar::element);
    if is_symbol(ts, at, Symbol::Star) {
        let (value, p) = match operation(ts, at + 1, BITWISE) {
            Ok(parsed) => parsed,
            Err(place) => {
                return Err(place);
            },
        };
        Ok((Expression::Starred { value: Box::new(value) }, p))
    } else if targets {
        operation(ts, at, BITWISE)
    } else {
        test(ts, at)
    }
}

#[verifier::loop_isolation(false)]
#[verifier::spinoff_prover]
fn more_elements(
    ts: &Vec<Token>,
    at: usize,
    elements: Vec<Expression>,
    targets: bool,
) -> (parsed: Read<Vec<Expression>>)
    requires
        at <= ts.len(),
    ensures
        reads(
            parsed,
            |value: Vec<Expression>| ast::expression_models(value@),
            grammar::more_elements(
                models(ts),
                at as int,
                ast::expression_models(elements@),
                targets,
            ),
            at as int,
            ts.len() as int,
        ),
    decreases ts.len() - at, 0nat,
{
    reveal(grammar::more_elements);
    let ghost expected = grammar::more_elements(
        models(ts),
        at as int,
        ast::expression_models(elements@),
        targets,
    );
    let mut elements: Vec<Expression> = elements;
    let mut here: usize = at;
    while is_symbol(ts, here, Symbol::Comma) && starts(ts, here + 1)
        invariant
            at <= here <= ts.len(),
            expected == grammar::more_elements(
                models(ts),
                here as int,
                ast::expression_models(elements@),
                targets,
            ),
        decreases ts.len() - here,
    {
        let (next, p) = match element(ts, here + 1, targets) {
            Ok(parsed) => parsed,
            Err(place) => {
                return Err(place);
            },
        };
        elements.push(next);
        here = p;
    }
    if is_symbol(ts, here, Symbol::Comma) {
        Ok((elements, here + 1))
    } else {
        Ok((elements, here))
    }
}

#[verifier::spinoff_prover]
fn test(ts: &Vec<Token>, at: usize) -> (parsed: Read<Expression>)
    requires
        at <= ts.len(),
    ensures
        reads(
            parsed,
            |value: Expression| value.model(),
            grammar::test(models(ts), at as int),
            at + 1,
            ts.len() as int,
        ),
    decreases ts.len() - at, 30nat,
{
    reveal(grammar::test);
    if is_symbol(ts, at, Symbol::Lambda) {
        let (args, p) = match parameters(ts, at + 1) {
            Ok(parsed) => parsed,
            Err(place) => {
                return Err(place);
            },
        };
        if !is_symbol(ts, p, Symbol::Colon) {
            return Err(p);
        }
        let (body, q) = match test(ts, p + 1) {
            Ok(parsed) => parsed,
            Err(place) => {
                return Err(place);
            },
        };
        Ok((Expression::Lambda { args, body: Box::new(body) }, q))
    } else {
        let (body, p) = match operation(ts, at, 0) {
            Ok(parsed) => parsed,
            Err(place) => {
                return Err(place);
            },
        };
        if is_symbol(ts, p, Symbol::If) {
            let (condition, q) = match operation(ts, p + 1, 0) {
                Ok(parsed) => parsed,
                Err(place) => {
                    return Err(place);
                },
            };
            if !is_symbol(ts, q, Symbol::Else) {
                return Err(q);
            }
            let (orelse, r) = match test(ts, q + 1) {
                Ok(parsed) => parsed,
                Err(place) => {
                    return Err(place);
                },
            };
            let choice = Expression::IfExpression {
                test: Box::new(condition),
                body: Box::new(body),
                orelse: Box::new(orelse),
            };
            Ok((choice, r))
        } else {
            Ok((body, p))
        }
    }
}

#[verifier::spinoff_prover]
fn operation(ts: &Vec<Token>, at: usize, level: u8) -> (parsed: Read<Expression>)
    requires
        at <= ts.len(),
    ensures
        reads(
            parsed,
            |value: Expression| value.model(),
            grammar::operation(models(ts), at as int, level),
            at + 1,
            ts.len() as int,
        ),
    decreases
            ts.len() - at,
            if level < LEVELS {
                (20 - level) as nat
            } else {
                10nat
            },
{
    reveal(grammar::operation);
    if level >= LEVELS {
        factor(ts, at)
    } else if level == NEGATION {
        if is_symbol(ts, at, Symbol::Not) {
            let (a, p) = match operation(ts, at + 1, NEGATION) {
                Ok(parsed) => parsed,
                Err(place) => {
                    return Err(place);
                },
            };
            Ok((Expression::Unop { op: UnaryOperator::Not, a: Box::new(a) }, p))
        } else {
            operation(ts, at, level + 1)
        }
    } else {
        let (a, p) = match operation(ts, at, level + 1) {
            Ok(parsed) => parsed,
            Err(place) => {
                return Err(place);
            },
        };
        more_operands(ts, p, level, a)
    }
}

#[verifier::loop_isolation(false)]
#[verifier::spinoff_prover]
fn more_operands(ts: &Vec<Token>, at: usize, level: u8, a: Expression) -> (parsed: Read<
    Expression,
>)
    requires
        at <= ts.len(),
        level < LEVELS,
    ensures
        reads(
            parsed,
            |value: Expression| value.model(),
            grammar::more_operands(models(ts), at as int, level, a.model()),
            at as int,
            ts.len() as int,
        ),
    decreases ts.len() - at, 0nat,
{
    reveal(grammar::more_operands);
    let ghost expected = grammar::more_operands(models(ts), at as int, level, a.model());
    let mut a: Expression = a;
    let mut here: usize = at;
    loop
        invariant
            at <= here <= ts.len(),
            level < LEVELS,
            expected == grammar::more_operands(models(ts), here as int, level, a.model()),
        decreases ts.len() - here,
    {
        match infix(ts, here, level) {
            Some((infix, length)) => {
                let (b, p) = match operation(ts, here + length, level + 1) {
                    Ok(parsed) => parsed,
                    Err(place) => {
                        return Err(place);
                    },
                };
                a = join(a, infix, b);
                here = p;
            },
            None => {
                return Ok((a, here));
            },
        }
    }
}

#[verifier::spinoff_prover]
fn factor(ts: &Vec<Token>, at: usize) -> (parsed: Read<Expression>)
    requires
        at <= ts.len(),
    ensures
        reads(
            parsed,
            |value: Expression| value.model(),
            grammar::factor(models(ts), at as int),
            at + 1,
            ts.len() as int,
        ),
    decreases ts.len() - at, 9nat,
{
    reveal(grammar::factor);
    match prefix(ts, at) {
        Some(op) => {
            let (a, p) = match factor(ts, at + 1) {
                Ok(parsed) => parsed,
                Err(place) => {
                    return Err(place);
                },
            };
            Ok((Expression::Unop { op, a: Box::new(a) }, p))
        },
        None => power(ts, at),
    }
}

#[verifier::spinoff_prover]
fn power(ts: &Vec<Token>, at: usize) -> (parsed: Read<Expression>)
    requires
        at <= ts.len(),
    ensures
        reads(
            parsed,
            |value: Expression| value.model(),
            grammar::power(models(ts), at as int),
            at + 1,
            ts.len() as int,
        ),
    decreases ts.len() - at, 8nat,
{
    reveal(grammar::power);
    let (a, p) = match atom_expression(ts, at) {
        Ok(parsed) => parsed,
        Err(place) => {
            return Err(place);
        },
    };
    if is_symbol(ts, p, Symbol::DoubleStar) {
        let (b, q) = match factor(ts, p + 1) {
            Ok(parsed) => parsed,
            Err(place) => {
                return Err(place);
            },
        };
        Ok((Expression::Binop { a: Box::new(a), op: Operator::Pow, b: Box::new(b) }, q))
    } else {
        Ok((a, p))
    }
}

#[verifier::spinoff_prover]
fn atom_expression(ts: &Vec<Token>, at: usize) -> (parsed: Read<Expression>)
    requires
        at <= ts.len(),
    ensures
        reads(
            parsed,
            |value: Expression| value.model(),
            grammar::atom_expression(models(ts), at as int),
            at + 1,
            ts.len() as int,
        ),
    decreases ts.len() - at, 7nat,
{
    reveal(grammar::atom_expression);
    let (a, p) = match atom(ts, at) {
        Ok(parsed) => parsed,
        Err(place) => {
            return Err(place);
        },
    };
    trailers(ts, p, a)
}

#[verifier::loop_isolation(false)]
#[verifier::spinoff_prover]
fn trailers(ts: &Vec<Token>, at: usize, a: Expression) -> (parsed: Read<Expression>)
    requires
        at <= ts.len(),
    ensures
        reads(
            parsed,
            |value: Expression| value.model(),
            grammar::trailers(models(ts), at as int, a.model()),
            at as int,
            ts.len() as int,
        ),
    decreases ts.len() - at, 0nat,
{
    reveal(grammar::trailers);
    let ghost expected = grammar::trailers(models(ts), at as int, a.model());
    let mut a: Expression = a;
    let mut here: usize = at;
    loop
        invariant
            at <= here <= ts.len(),
            expected == grammar::trailers(models(ts), here as int, a.model()),
        decreases ts.len() - here,
    {
        if is_symbol(ts, here, Symbol::Lpar) {
            let (given, p) = match arguments(ts, here + 1) {
                Ok(parsed) => parsed,
                Err(place) => {
                    return Err(place);
                },
            };
            a = Expression::Call {
                function: Box::new(a),
                args: given.args,
                keywords: given.keywords,
            };
            here = p;
        } else if is_symbol(ts, here, Symbol::Lsqb) {
            let (b, p) = match subscripts(ts, here + 1) {
                Ok(parsed) => parsed,
                Err(place) => {
                    return Err(place);
                },
            };
            if !is_symbol(ts, p, Symbol::Rsqb) {
                return Err(p);
            }
            a = Expression::Subscript { a: Box::new(a), b: Box::new(b) };
            here = p + 1;
        } else if is_symbol(ts, here, Symbol::Dot) {
            let (name, p) = match name(ts, here + 1) {
                Ok(parsed) => parsed,
                Err(place) => {
                    return Err(place);
                },
            };
            a = Expression::Attribute { value: Box::new(a), name };
            here = p;
        } else {
            return Ok((a, here));
        }
    }
}

#[verifier::spinoff_prover]
fn comprehension(kind: ComprehensionKind, generators: Vec<Comprehension>) -> (built: Expression)
    ensures
        built.model() == (ExpressionModel::Comprehension {
            kind: Box::new(kind.model()),
            generators: ast::comprehension_models(generators@),
        }),
{
    Expression::Comprehension { kind: Box::new(kind), generators }
}

#[verifier::spinoff_prover]
fn atom(ts: &Vec<Token>, at: usize) -> (parsed: Read<Expression>)
    requires
        at <= ts.len(),
    ensures
        reads(
            parsed,
            |value: Expression| value.model(),
            grammar::atom(models(ts), at as int),
            at + 1,
            ts.len() as int,
        ),
    decreases ts.len() - at, 5nat,
{
    reveal(grammar::atom);
    if is_symbol(ts, at, Symbol::Lpar) {
        parentheses(ts, at)
    } else if is_symbol(ts, at, Symbol::Lsqb) {
        brackets(ts, at)
    } else if is_symbol(ts, at, Symbol::Lbrace) {
        braces(ts, at)
    } else {
        literal(ts, at)
    }
}

#[verifier::spinoff_prover]
fn parentheses(ts: &Vec<Token>, at: usize) -> (parsed: Read<Expression>)
    requires
        at <= ts.len(),
    ensures
        reads(
            parsed,
            |value: Expression| value.model(),
            grammar::parentheses(models(ts), at as int),
            at + 1,
            ts.len() as int,
        ),
    decreases ts.len() - at, 4nat,
{
    reveal(grammar::parentheses);
    if !is_symbol(ts, at, Symbol::Lpar) {
        return Err(at);
    }
    if is_symbol(ts, at + 1, Symbol::Rpar) {
        let elements: Vec<Expression> = Vec::new();
        assert(ast::expression_models(elements@) =~= Seq::empty());
        return Ok((Expression::Tuple { elements }, at + 2));
    }
    if is_symbol(ts, at + 1, Symbol::Yield) {
        let (value, p) = match yield_expression(ts, at + 1) {
            Ok(parsed) => parsed,
            Err(place) => {
                return Err(place);
            },
        };
        if !is_symbol(ts, p, Symbol::Rpar) {
            return Err(p);
        }
        return Ok((value, p + 1));
    }
    let (first, p) = match element(ts, at + 1, false) {
        Ok(parsed) => parsed,
        Err(place) => {
            return Err(place);
        },
    };
    if is_symbol(ts, p, Symbol::For) {
        let (generators, q) = match generators(ts, p) {
            Ok(parsed) => parsed,
            Err(place) => {
                return Err(place);
            },
        };
        if !is_symbol(ts, q, Symbol::Rpar) {
            return Err(q);
        }
        let kind = ComprehensionKind::GeneratorExpression { element: first };
        return Ok((comprehension(kind, generators), q + 1));
    }
    if is_symbol(ts, p, Symbol::Comma) {
        let mut elements: Vec<Expression> = Vec::new();
        elements.push(first);
        let (elements, q) = match more_elements(ts, p, elements, false) {
            Ok(parsed) => parsed,
            Err(place) => {
                return Err(place);
            },
        };
        if !is_symbol(ts, q, Symbol::Rpar) {
            return Err(q);
        }
        return Ok((Expression::Tuple { elements }, q + 1));
    }
    if !is_symbol(ts, p, Symbol::Rpar) {
        return Err(p);
    }
    Ok((first, p + 1))
}

#[verifier::spinoff_prover]
fn brackets(ts: &Vec<Token>, at: usize) -> (parsed: Read<Expression>)
    requires
        at <= ts.len(),
    ensures
        reads(
            parsed,
            |value: Expression| value.model(),
            grammar::brackets(models(ts), at as int),
            at + 1,
            ts.len() as int,
        ),
    decreases ts.len() - at, 4nat,
{
    reveal(grammar::brackets);
    if !is_symbol(ts, at, Symbol::Lsqb) {
        return Err(at);
    }
    let mut elements: Vec<Expression> = Vec::new();
    if is_symbol(ts, at + 1, Symbol::Rsqb) {
        assert(ast::expression_models(elements@) =~= Seq::empty());
        return Ok((Expression::List { elements }, at + 2));
    }
    let (first, p) = match element(ts, at + 1, false) {
        Ok(parsed) => parsed,
        Err(place) => {
            return Err(place);
        },
    };
    if is_symbol(ts, p, Symbol::For) {
        let (generators, q) = match generators(ts, p) {
            Ok(parsed) => parsed,
            Err(place) => {
                return Err(place);
            },
        };
        if !is_symbol(ts, q, Symbol::Rsqb) {
            return Err(q);
        }
        let kind = ComprehensionKind::List { element: first };
        return Ok((comprehension(kind, generators), q + 1));
    }
    elements.push(first);
    let (elements, q) = match more_elements(ts, p, elements, false) {
        Ok(parsed) => parsed,
        Err(place) => {
            return Err(place);
        },
    };
    if !is_symbol(ts, q, Symbol::Rsqb) {
        return Err(q);
    }
    Ok((Expression::List { elements }, q + 1))
}

#[verifier::spinoff_prover]
fn braces(ts: &Vec<Token>, at: usize) -> (parsed: Read<Expression>)
    requires
        at <= ts.len(),
    ensures
        reads(
            parsed,
            |value: Expression| value.model(),
            grammar::braces(models(ts), at as int),
            at + 1,
            ts.len() as int,
        ),
    decreases ts.len() - at, 4nat,
{
    reveal(grammar::braces);
    if !is_symbol(ts, at, Symbol::Lbrace) {
        return Err(at);
    }
    if is_symbol(ts, at + 1, Symbol::Rbrace) {
        let elements: Vec<(Expression, Expression)> = Vec::new();
        assert(ast::pair_models(elements@) =~= Seq::empty());
        return Ok((Expression::Dict { elements }, at + 2));
    }
    let (first, p) = match element(ts, at + 1, false) {
        Ok(parsed) => parsed,
        Err(place) => {
            return Err(place);
        },
    };
    if is_symbol(ts, p, Symbol::Colon) && !is_symbol(ts, at + 1, Symbol::Star) {
        let (value, q) = match test(ts, p + 1) {
            Ok(parsed) => parsed,
            Err(place) => {
                return Err(place);
            },
        };
        if is_symbol(ts, q, Symbol::For) {
            let (generators, r) = match generators(ts, q) {
                Ok(parsed) => parsed,
                Err(place) => {
                    return Err(place);
                },
            };
            if !is_symbol(ts, r, Symbol::Rbrace) {
                return Err(r);
            }
            let kind = ComprehensionKind::Dict { key: first, value };
            return Ok((comprehension(kind, generators), r + 1));
        }
        let mut pairs: Vec<(Expression, Expression)> = Vec::new();
        pairs.push((first, value));
        let (elements, r) = match more_pairs(ts, q, pairs) {
            Ok(parsed) => parsed,
            Err(place) => {
                return Err(place);
            },
        };
        if !is_symbol(ts, r, Symbol::Rbrace) {
            return Err(r);
        }
        return Ok((Expression::Dict { elements }, r + 1));
    }
    if is_symbol(ts, p, Symbol::For) {
        let (generators, q) = match generators(ts, p) {
            Ok(parsed) => parsed,
            Err(place) => {
                return Err(place);
            },
        };
        if !is_symbol(ts, q, Symbol::Rbrace) {
            return Err(q);
        }
        let kind = ComprehensionKind::SetBuilder { element: first };
        return Ok((comprehension(kind, generators), q + 1));
    }
    let mut elements: Vec<Expression> = Vec::new();
    elements.push(first);
    let (elements, q) = match more_elements(ts, p, elements, false) {
        Ok(parsed) => parsed,
        Err(place) => {
            return Err(place);
        },
    };
    if !is_symbol(ts, q, Symbol::Rbrace) {
        return Err(q);
    }
    Ok((Expression::SetLiteral { elements }, q + 1))
}

#[verifier::loop_isolation(false)]
#[verifier::spinoff_prover]
fn more_pairs(ts: &Vec<Token>, at: usize, pairs: Vec<(Expression, Expression)>) -> (parsed: Read<
    Vec<(Expression, Expression)>,
>)
    requires
        at <= ts.len(),
    ensures
        reads(
            parsed,
            |value: Vec<(Expression, Expression)>| ast::pair_models(value@),
            grammar::more_pairs(models(ts), at as int, ast::pair_models(pairs@)),
            at as int,
            ts.len() as int,
        ),
    decreases ts.len() - at, 0nat,
{
    reveal(grammar::more_pairs);
    let ghost expected = grammar::more_pairs(models(ts), at as int, ast::pair_models(pairs@));
    let mut pairs: Vec<(Expression, Expression)> = pairs;
    let mut here: usize = at;
    while is_symbol(ts, here, Symbol::Comma) && starts(ts, here + 1)
        invariant
            at <= here <= ts.len(),
            expected == grammar::more_pairs(models(ts), here as int, ast::pair_models(pairs@)),
        decreases ts.len() - here,
    {
        let (key, p) = match test(ts, here + 1) {
            Ok(parsed) => parsed,
            Err(place) => {
                return Err(place);
            },
        };
        if !is_symbol(ts, p, Symbol::Colon) {
            return Err(p);
        }
        let (value, q) = match test(ts, p + 1) {
            Ok(parsed) => parsed,
            Err(place) => {
                return Err(place);
            },
        };
        pairs.push((key, value));
        here = q;
    }
    if is_symbol(ts, here, Symbol::Comma) {
        Ok((pairs, here + 1))
    } else {
        Ok((pairs, here))
    }
}

#[verifier::loop_isolation(false)]
#[verifier::spinoff_prover]
fn generators(ts: &Vec<Token>, at: usize) -> (parsed: Read<Vec<Comprehension>>)
    requires
        at <= ts.len(),
    ensures
        reads(
            parsed,
            |value: Vec<Comprehension>| ast::comprehension_models(value@),
            grammar::generators(models(ts), at as int, seq![]),
            at + 1,
            ts.len() as int,
        ),
    decreases ts.len() - at, 0nat,
{
    reveal(grammar::generators);
    let ghost expected = grammar::generators(models(ts), at as int, seq![]);
    let mut clauses: Vec<Comprehension> = Vec::new();
    let mut here: usize = at;
    assert(ast::comprehension_models(clauses@) =~= seq![]);
    loop
        invariant
            at <= here <= ts.len(),
            expected == grammar::generators(
                models(ts),
                here as int,
                ast::comprehension_models(clauses@),
            ),
        decreases ts.len() - here,
    {
        if !is_symbol(ts, here, Symbol::For) {
            return Err(here);
        }
        let (target, p) = match testlist(ts, here + 1, true) {
            Ok(parsed) => parsed,
            Err(place) => {
                return Err(place);
            },
        };
        if !is_symbol(ts, p, Symbol::In) {
            return Err(p);
        }
        let (iter, q) = match operation(ts, p + 1, 0) {
            Ok(parsed) => parsed,
            Err(place) => {
                return Err(place);
            },
        };
        let (ifs, r) = match conditions(ts, q) {
            Ok(parsed) => parsed,
            Err(place) => {
                return Err(place);
            },
        };
        clauses.push(Comprehension { target, iter, ifs });
        if !is_symbol(ts, r, Symbol::For) {
            return Ok((clauses, r));
        }
        here = r;
    }
}

#[verifier::loop_isolation(false)]
#[verifier::spinoff_prover]
fn conditions(ts: &Vec<Token>, at: usize) -> (parsed: Read<Vec<Expression>>)
    requires
        at <= ts.len(),
    ensures
        reads(
            parsed,
            |value: Vec<Expression>| ast::expression_models(value@),
            grammar::conditions(models(ts), at as int, seq![]),
            at as int,
            ts.len() as int,
        ),
    decreases ts.len() - at, 0nat,
{
    reveal(grammar::conditions);
    let ghost expected = grammar::conditions(models(ts), at as int, seq![]);
    let mut ifs: Vec<Expression> = Vec::new();
    let mut here: usize = at;
    assert(ast::expression_models(ifs@) =~= seq![]);
    while is_symbol(ts, here, Symbol::If)
        invariant
            at <= here <= ts.len(),
            expected == grammar::conditions(models(ts), here as int, ast::expression_models(ifs@)),
        decreases ts.len() - here,
    {
        let (condition, p) = match operation(ts, here + 1, 0) {
            Ok(parsed) => parsed,
            Err(place) => {
                return Err(place);
            },
        };
        ifs.push(condition);
        here = p;
    }
    Ok((ifs, here))
}

#[verifier::spinoff_prover]
fn yield_expression(ts: &Vec<Token>, at: usize) -> (parsed: Read<Expression>)
    requires
        at <= ts.len(),
    ensures
        reads(
            parsed,
            |value: Expression| value.model(),
            grammar::yield_expression(models(ts), at as int),
            at + 1,
            ts.len() as int,
        ),
    decreases ts.len() - at, 3nat,
{
    reveal(grammar::yield_expression);
    if !is_symbol(ts, at, Symbol::Yield) {
        return Err(at);
    }
    if is_symbol(ts, at + 1, Symbol::From) {
        let (value, p) = match test(ts, at + 2) {
            Ok(parsed) => parsed,
            Err(place) => {
                return Err(place);
            },
        };
        Ok((Expression::YieldFrom { expression: Box::new(value) }, p))
    } else if starts(ts, at + 1) {
        let (value, p) = match testlist(ts, at + 1, false) {
            Ok(parsed) => parsed,
            Err(place) => {
                return Err(place);
            },
        };
        Ok((Expression::Yield { expression: Some(Box::new(value)) }, p))
    } else {
        Ok((Expression::Yield { expression: None }, at + 1))
    }
}

#[verifier::spinoff_prover]
fn subscripts(ts: &Vec<Token>, at: usize) -> (parsed: Read<Expression>)
    requires
        at <= ts.len(),
    ensures
        reads(
            parsed,
            |value: Expression| value.model(),
            grammar::subscripts(models(ts), at as int),
            at + 1,
            ts.len() as int,
        ),
    decreases ts.len() - at, 35nat,
{
    reveal(grammar::subscripts);
    let (first, p) = match subscript(ts, at) {
        Ok(parsed) => parsed,
        Err(place) => {
            return Err(place);
        },
    };
    if is_symbol(ts, p, Symbol::Comma) {
        let mut elements: Vec<Expression> = Vec::new();
        elements.push(first);
        let (elements, q) = match more_subscripts(ts, p, elements) {
            Ok(parsed) => parsed,
            Err(place) => {
                return Err(place);
            },
        };
        Ok((Expression::Tuple { elements }, q))
    } else {
        Ok((first, p))
    }
}

#[verifier::loop_isolation(false)]
#[verifier::spinoff_prover]
fn more_subscripts(ts: &Vec<Token>, at: usize, elements: Vec<Expression>) -> (parsed: Read<
    Vec<Expression>,
>)
    requires
        at <= ts.len(),
    ensures
        reads(
            parsed,
            |value: Vec<Expression>| ast::expression_models(value@),
            grammar::more_subscripts(models(ts), at as int, ast::expression_models(elements@)),
            at as int,
            ts.len() as int,
        ),
    decreases ts.len() - at, 0nat,
{
    reveal(grammar::more_subscripts);
    let ghost expected = grammar::more_subscripts(
        models(ts),
        at as int,
        ast::expression_models(elements@),
    );
    let mut elements: Vec<Expression> = elements;
    let mut here: usize = at;
    while is_symbol(ts, here, Symbol::Comma) && (starts(ts, here + 1) || is_symbol(
        ts,
        here + 1,
        Symbol::Colon,
    ))
        invariant
            at <= here <= ts.len(),
            expected == grammar::more_subscripts(
                models(ts),
                here as int,
                ast::expression_models(elements@),
            ),
        decreases ts.len() - here,
    {
        let (next, p) = match subscript(ts, here + 1) {
            Ok(parsed) => parsed,
            Err(place) => {
                return Err(place);
            },
        };
        elements.push(next);
        here = p;
    }
    if is_symbol(ts, here, Symbol::Comma) {
        Ok((elements, here + 1))
    } else {
        Ok((elements, here))
    }
}

#[verifier::spinoff_prover]
fn subscript(ts: &Vec<Token>, at: usize) -> (parsed: Read<Expression>)
    requires
        at <= ts.len(),
    ensures
        reads(
            parsed,
            |value: Expression| value.model(),
            grammar::subscript(models(ts), at as int),
            at + 1,
            ts.len() as int,
        ),
    decreases ts.len() - at, 33nat,
{
    reveal(grammar::subscript);
    if is_symbol(ts, at, Symbol::Colon) {
        slice(ts, at, Expression::NoneValue)
    } else {
        let (first, p) = match test(ts, at) {
            Ok(parsed) => parsed,
            Err(place) => {
                return Err(place);
            },
        };
        if is_symbol(ts, p, Symbol::Colon) {
            slice(ts, p, first)
        } else {
            Ok((first, p))
        }
    }
}

#[verifier::spinoff_prover]
fn slice(ts: &Vec<Token>, at: usize, lower: Expression) -> (parsed: Read<Expression>)
    requires
        at <= ts.len(),
    ensures
        reads(
            parsed,
            |value: Expression| value.model(),
            grammar::slice(models(ts), at as int, lower.model()),
            at + 1,
            ts.len() as int,
        ),
    decreases ts.len() - at, 1nat,
{
    reveal(grammar::slice);
    if !is_symbol(ts, at, Symbol::Colon) {
        return Err(at);
    }
    let (upper, p) = match bound(ts, at + 1) {
        Ok(parsed) => parsed,
        Err(place) => {
            return Err(place);
        },
    };
    let ghost lower_model = lower.model();
    let ghost upper_model = upper.model();
    let mut elements: Vec<Expression> = Vec::new();
    elements.push(lower);
    elements.push(upper);
    if is_symbol(ts, p, Symbol::Colon) {
        let (step, q) = match bound(ts, p + 1) {
            Ok(parsed) => parsed,
            Err(place) => {
                return Err(place);
            },
        };
        let ghost parts = seq![lower_model, upper_model, step.model()];
        elements.push(step);
        assert(ast::expression_models(elements@) == parts);
        Ok((Expression::Slice { elements }, q))
    } else {
        let ghost parts = seq![lower_model, upper_model, ExpressionModel::NoneValue];
        elements.push(Expression::NoneValue);
        assert(ast::expression_models(elements@) == parts);
        Ok((Expression::Slice { elements }, p))
    }
}

#[verifier::spinoff_prover]
fn bound(ts: &Vec<Token>, at: usize) -> (parsed: Read<Expression>)
    requires
        at <= ts.len(),
    ensures
        reads(
            parsed,
            |value: Expression| value.model(),
            grammar::bound(models(ts), at as int),
            at as int,
            ts.len() as int,
        ),
    decreases ts.len() - at, 31nat,
{
    reveal(grammar::bound);
    if starts(ts, at) {
        test(ts, at)
    } else {
        Ok((Expression::NoneValue, at))
    }
}

#[verifier::spinoff_prover]
fn no_arguments() -> (given: Arguments)
    ensures
        given.model() == grammar::no_arguments(),
{
    let given = Arguments { args: Vec::new(), keywords: Vec::new() };
    assert(given.model() =~= grammar::no_arguments());
    given
}

#[verifier::loop_isolation(false)]
#[verifier::spinoff_prover]
fn arguments(ts: &Vec<Token>, at: usize) -> (parsed: Read<Arguments>)
    requires
        at <= ts.len(),
    ensures
        reads(
            parsed,
            |value: Arguments| value.model(),
            grammar::arguments(models(ts), at as int, grammar::no_arguments()),
            at + 1,
            ts.len() as int,
        ),
    decreases ts.len() - at, 34nat,
{
    reveal(grammar::arguments);
    let ghost expected = grammar::arguments(models(ts), at as int, grammar::no_arguments());
    let mut given = no_arguments();
    let mut here: usize = at;
    while !is_symbol(ts, here, Symbol::Rpar)
        invariant
            at <= here <= ts.len(),
            expected == grammar::arguments(models(ts), here as int, given.model()),
        decreases ts.len() - here,
    {
        let ghost before = given.model();
        let p: usize = match argument(ts, here, &mut given) {
            Ok(p) => p,
            Err(place) => {
                return Err(place);
            },
        };
        if !is_symbol(ts, p, Symbol::Comma) {
            if !is_symbol(ts, p, Symbol::Rpar) {
                return Err(p);
            }
            return Ok((given, p + 1));
        }
        here = p + 1;
    }
    Ok((given, here + 1))
}

/// Reads one argument, and adds it to those before it.
#[verifier::spinoff_prover]
fn argument(ts: &Vec<Token>, at: usize, given: &mut Arguments) -> (parsed: Result<usize, usize>)
    requires
        at <= ts.len(),
    ensures
        reads(
            read_into(parsed, *final(given)),
            |value: Arguments| value.model(),
            grammar::argument(models(ts), at as int, old(given).model()),
            at + 1,
            ts.len() as int,
        ),
    decreases ts.len() - at, 33nat,
{
    reveal(grammar::argument);
    if is_symbol(ts, at, Symbol::Star) {
        let (value, p) = match test(ts, at + 1) {
            Ok(parsed) => parsed,
            Err(place) => {
                return Err(place);
            },
        };
        given.args.push(Expression::Starred { value: Box::new(value) });
        Ok(p)
    } else if is_symbol(ts, at, Symbol::DoubleStar) {
        let (value, p) = match test(ts, at + 1) {
            Ok(parsed) => parsed,
            Err(place) => {
                return Err(place);
            },
        };
        given.keywords.push(Keyword { name: None, value });
        Ok(p)
    } else if is_name(ts, at) && is_symbol(ts, at + 1, Symbol::Equal) {
        let (name, p) = match name(ts, at) {
            Ok(parsed) => parsed,
            Err(place) => {
                return Err(place);
            },
        };
        let (value, q) = match test(ts, at + 2) {
            Ok(parsed) => parsed,
            Err(place) => {
                return Err(place);
            },
        };
        given.keywords.push(Keyword { name: Some(name), value });
        Ok(q)
    } else {
        let (value, p) = match test(ts, at) {
            Ok(parsed) => parsed,
            Err(place) => {
                return Err(place);
            },
        };
        if is_symbol(ts, p, Symbol::For) {
            let (generators, q) = match generators(ts, p) {
                Ok(parsed) => parsed,
                Err(place) => {
                    return Err(place);
                },
            };
            let kind = ComprehensionKind::GeneratorExpression { element: value };
            given.args.push(comprehension(kind, generators));
            Ok(q)
        } else {
            given.args.push(value);
            Ok(p)
        }
    }
}

#[verifier::loop_isolation(false)]
#[verifier::spinoff_prover]
fn parameters(ts: &Vec<Token>, at: usize) -> (parsed: Read<Parameters>)
    requires
        at <= ts.len(),
    ensures
        reads(
            parsed,
            |value: Parameters| value.model(),
            grammar::parameters(models(ts), at as int, grammar::no_parameters()),
            at as int,
            ts.len() as int,
        ),
    decreases ts.len() - at, 34nat,
{
    reveal(grammar::parameters);
    let ghost expected = grammar::parameters(models(ts), at as int, grammar::no_parameters());
    let mut given = Parameters {
        args: Vec::new(),
        kwonlyargs: Vec::new(),
        vararg: None,
        kwarg: None,
        defaults: Vec::new(),
        kw_defaults: Vec::new(),
    };
    assert(ast::expression_models(given.defaults@) =~= seq![]);
    assert(ast::optional_models(given.kw_defaults@) =~= seq![]);
    assert(given.model() =~= grammar::no_parameters());
    let mut here: usize = at;
    while is_name(ts, here) || is_symbol(ts, here, Symbol::Star)
        invariant
            at <= here <= ts.len(),
            expected == grammar::parameters(models(ts), here as int, given.model()),
        decreases ts.len() - here,
    {
        let p: usize = match parameter(ts, here, &mut given) {
            Ok(p) => p,
            Err(place) => {
                return Err(place);
            },
        };
        if !is_symbol(ts, p, Symbol::Comma) {
            return Ok((given, p));
        }
        here = p + 1;
    }
    if is_symbol(ts, here, Symbol::DoubleStar) {
        let (name, p) = match name(ts, here + 1) {
            Ok(parsed) => parsed,
            Err(place) => {
                return Err(place);
            },
        };
        given.kwarg = Some(Some(name));
        Ok((given, p))
    } else {
        Ok((given, here))
    }
}

/// Reads one parameter, and adds it to those before it.
#[verifier::spinoff_prover]
fn parameter(ts: &Vec<Token>, at: usize, given: &mut Parameters) -> (parsed: Result<usize, usize>)
    requires
        at <= ts.len(),
    ensures
        reads(
            read_into(parsed, *final(given)),
            |value: Parameters| value.model(),
            grammar::parameter(models(ts), at as int, old(given).model()),
            at + 1,
            ts.len() as int,
        ),
    decreases ts.len() - at, 33nat,
{
    reveal(grammar::parameter);
    if is_symbol(ts, at, Symbol::Star) {
        if given.vararg.is_some() {
            Err(at)
        } else if is_name(ts, at + 1) {
            let (name, p) = match name(ts, at + 1) {
                Ok(parsed) => parsed,
                Err(place) => {
                    return Err(place);
                },
            };
            given.vararg = Some(Some(name));
            Ok(p)
        } else {
            given.vararg = Some(None);
            Ok(at + 1)
        }
    } else {
        let (name, p) = match name(ts, at) {
            Ok(parsed) => parsed,
            Err(place) => {
                return Err(place);
            },
        };
        if is_symbol(ts, p, Symbol::Equal) {
            let (value, q) = match test(ts, p + 1) {
                Ok(parsed) => parsed,
                Err(place) => {
                    return Err(place);
                },
            };
            let ghost model = value.model();
            if given.vararg.is_some() {
                given.kwonlyargs.push(name);
                given.kw_defaults.push(Some(value));
                assert(ast::optional_models(given.kw_defaults@) == ast::optional_models(
                    old(given).kw_defaults@,
                ).push(Some(model)));
            } else {
                given.args.push(name);
                given.defaults.push(value);
                assert(ast::expression_models(given.defaults@) == ast::expression_models(
                    old(given).defaults@,
                ).push(model));
            }
            Ok(q)
        } else if given.vararg.is_some() {
            given.kwonlyargs.push(name);
            given.kw_defaults.push(None);
            assert(ast::optional_models(given.kw_defaults@) == ast::optional_models(
                old(given).kw_defaults@,
            ).push(None));
            Ok(p)
        } else if given.defaults.len() > 0 {
            assert(ast::expression_models(given.defaults@).len() > 0);
            Err(at)
        } else {
            given.args.push(name);
            Ok(p)
        }
    }
}

// ---------------------------------------------------------------------------------------------
// Statements of one line.

#[verifier::spinoff_prover]
fn assigned(ts: &Vec<Token>, at: usize) -> (parsed: Read<Expression>)
    requires
        at <= ts.len(),
    ensures
        reads(
            parsed,
            |value: Expression| value.model(),
            grammar::assigned(models(ts), at as int),
            at + 1,
            ts.len() as int,
        ),
{
    reveal(grammar::assigned);
    if is_symbol(ts, at, Symbol::Yield) {
        yield_expression(ts, at)
    } else {
        testlist(ts, at, false)
    }
}

#[verifier::loop_isolation(false)]
#[verifier::spinoff_prover]
fn assignment(ts: &Vec<Token>, at: usize, first: Expression) -> (parsed: Read<Statement>)
    requires
        at <= ts.len(),
    ensures
        reads(
            parsed,
            |value: Statement| value.model(),
            grammar::assignment(models(ts), at as int, seq![], first.model()),
            at as int,
            ts.len() as int,
        ),
{
    reveal(grammar::assignment);
    let ghost expected = grammar::assignment(models(ts), at as int, seq![], first.model());
    let mut targets: Vec<Expression> = Vec::new();
    let mut value: Expression = first;
    let mut here: usize = at;
    assert(ast::expression_models(targets@) =~= seq![]);
    while is_symbol(ts, here, Symbol::Equal)
        invariant
            at <= here <= ts.len(),
            expected == grammar::assignment(
                models(ts),
                here as int,
                ast::expression_models(targets@),
                value.model(),
            ),
        decreases ts.len() - here,
    {
        let (next, p) = match assigned(ts, here + 1) {
            Ok(parsed) => parsed,
            Err(place) => {
                return Err(place);
            },
        };
        targets.push(value);
        value = next;
        here = p;
    }
    Ok((Statement::Assign { targets, value }, here))
}

#[verifier::spinoff_prover]
fn expression_statement(ts: &Vec<Token>, at: usize) -> (parsed: Read<Statement>)
    requires
        at <= ts.len(),
    ensures
        reads(
            parsed,
            |value: Statement| value.model(),
            grammar::expression_statement(models(ts), at as int),
            at + 1,
            ts.len() as int,
        ),
{
    reveal(grammar::expression_statement);
    let (first, p) = match assigned(ts, at) {
        Ok(parsed) => parsed,
        Err(place) => {
            return Err(place);
        },
    };
    match augmented(ts, p) {
        Some(op) => {
            let (value, q) = match assigned(ts, p + 1) {
                Ok(parsed) => parsed,
                Err(place) => {
                    return Err(place);
                },
            };
            Ok((Statement::AugAssign { target: first, op, value }, q))
        },
        None => if is_symbol(ts, p, Symbol::Equal) {
            assignment(ts, p, first)
        } else {
            Ok((Statement::Expression { expression: first }, p))
        },
    }
}

#[verifier::loop_isolation(false)]
#[verifier::spinoff_prover]
fn names(ts: &Vec<Token>, at: usize) -> (parsed: Read<Vec<String>>)
    requires
        at <= ts.len(),
    ensures
        reads(
            parsed,
            |value: Vec<String>| ast::name_models(value@),
            grammar::names(models(ts), at as int, seq![]),
            at + 1,
            ts.len() as int,
        ),
{
    reveal(grammar::names);
    let ghost expected = grammar::names(models(ts), at as int, seq![]);
    let mut found: Vec<String> = Vec::new();
    let mut here: usize = at;
    assert(ast::name_models(found@) =~= seq![]);
    loop
        invariant
            at <= here <= ts.len(),
            expected == grammar::names(models(ts), here as int, ast::name_models(found@)),
        decreases ts.len() - here,
    {
        let (name, p) = match name(ts, here) {
            Ok(parsed) => parsed,
            Err(place) => {
                return Err(place);
            },
        };
        found.push(name);
        if !is_symbol(ts, p, Symbol::Comma) {
            return Ok((found, p));
        }
        here = p + 1;
    }
}

#[verifier::loop_isolation(false)]
#[verifier::spinoff_prover]
fn dotted(ts: &Vec<Token>, at: usize) -> (parsed: Read<String>)
    requires
        at <= ts.len(),
    ensures
        reads(
            parsed,
            |value: String| value@,
            grammar::dotted(models(ts), at as int),
            at + 1,
            ts.len() as int,
        ),
{
    reveal(grammar::dotted);
    reveal(grammar::more_dotted);
    let (first, p) = match name(ts, at) {
        Ok(parsed) => parsed,
        Err(place) => {
            return Err(place);
        },
    };
    let ghost expected = grammar::more_dotted(models(ts), p as int, first@);
    let mut text: String = first;
    let mut here: usize = p;
    while is_symbol(ts, here, Symbol::Dot)
        invariant
            at < here <= ts.len(),
            expected == grammar::dotted(models(ts), at as int),
            expected == grammar::more_dotted(models(ts), here as int, text@),
        decreases ts.len() - here,
    {
        let (part, q) = match name(ts, here + 1) {
            Ok(parsed) => parsed,
            Err(place) => {
                return Err(place);
            },
        };
        text.push('.');
        text.append(part.as_str());
        here = q;
    }
    Ok((text, here))
}

#[verifier::spinoff_prover]
fn alias(ts: &Vec<Token>, at: usize) -> (parsed: Read<Option<String>>)
    requires
        at <= ts.len(),
    ensures
        reads(
            parsed,
            |value: Option<String>| ast::name_model(value),
            grammar::alias(models(ts), at as int),
            at as int,
            ts.len() as int,
        ),
{
    reveal(grammar::alias);
    if is_symbol(ts, at, Symbol::As) {
        let (name, p) = match name(ts, at + 1) {
            Ok(parsed) => parsed,
            Err(place) => {
                return Err(place);
            },
        };
        Ok((Some(name), p))
    } else {
        Ok((None, at))
    }
}

#[verifier::loop_isolation(false)]
#[verifier::spinoff_prover]
fn modules(ts: &Vec<Token>, at: usize) -> (parsed: Read<Vec<SingleImport>>)
    requires
        at <= ts.len(),
    ensures
        reads(
            parsed,
            |value: Vec<SingleImport>| ast::import_models(value@),
            grammar::modules(models(ts), at as int, seq![]),
            at + 1,
            ts.len() as int,
        ),
{
    reveal(grammar::modules);
    let ghost expected = grammar::modules(models(ts), at as int, seq![]);
    let mut found: Vec<SingleImport> = Vec::new();
    let mut here: usize = at;
    assert(ast::import_models(found@) =~= seq![]);
    loop
        invariant
            at <= here <= ts.len(),
            expected == grammar::modules(models(ts), here as int, ast::import_models(found@)),
        decreases ts.len() - here,
    {
        let (module, p) = match dotted(ts, here) {
            Ok(parsed) => parsed,
            Err(place) => {
                return Err(place);
            },
        };
        let (alias, q) = match alias(ts, p) {
            Ok(parsed) => parsed,
            Err(place) => {
                return Err(place);
            },
        };
        found.push(SingleImport { module, symbol: None, alias });
        if !is_symbol(ts, q, Symbol::Comma) {
            return Ok((found, q));
        }
        here = q + 1;
    }
}

#[verifier::loop_isolation(false)]
#[verifier::spinoff_prover]
fn symbols(ts: &Vec<Token>, at: usize, module: &String) -> (parsed: Read<Vec<SingleImport>>)
    requires
        at <= ts.len(),
    ensures
        reads(
            parsed,
            |value: Vec<SingleImport>| ast::import_models(value@),
            grammar::symbols(models(ts), at as int, module@, seq![]),
            at + 1,
            ts.len() as int,
        ),
{
    reveal(grammar::symbols);
    let ghost expected = grammar::symbols(models(ts), at as int, module@, seq![]);
    let mut found: Vec<SingleImport> = Vec::new();
    let mut here: usize = at;
    assert(ast::import_models(found@) =~= seq![]);
    loop
        invariant
            at <= here <= ts.len(),
            expected == grammar::symbols(
                models(ts),
                here as int,
                module@,
                ast::import_models(found@),
            ),
        decreases ts.len() - here,
    {
        let (symbol, p) = match name(ts, here) {
            Ok(parsed) => parsed,
            Err(place) => {
                return Err(place);
            },
        };
        let (alias, q) = match alias(ts, p) {
            Ok(parsed) => parsed,
            Err(place) => {
                return Err(place);
            },
        };
        found.push(SingleImport { module: module.clone(), symbol: Some(symbol), alias });
        if !(is_symbol(ts, q, Symbol::Comma) && is_name(ts, q + 1)) {
            return Ok((found, q));
        }
        here = q + 1;
    }
}

#[verifier::spinoff_prover]
fn from_import(ts: &Vec<Token>, at: usize) -> (parsed: Read<Statement>)
    requires
        at < ts.len(),
    ensures
        reads(
            parsed,
            |value: Statement| value.model(),
            grammar::from_import(models(ts), at as int),
            at + 1,
            ts.len() as int,
        ),
{
    reveal(grammar::from_import);
    let (module, p) = match dotted(ts, at + 1) {
        Ok(parsed) => parsed,
        Err(place) => {
            return Err(place);
        },
    };
    if !is_symbol(ts, p, Symbol::Import) {
        return Err(p);
    }
    if is_symbol(ts, p + 1, Symbol::Star) {
        let mut import_parts: Vec<SingleImport> = Vec::new();
        let symbol = Some("*".to_owned());
        import_parts.push(SingleImport { module, symbol, alias: None });
        Ok((Statement::Import { import_parts }, p + 2))
    } else if is_symbol(ts, p + 1, Symbol::Lpar) {
        let (import_parts, q) = match symbols(ts, p + 2, &module) {
            Ok(parsed) => parsed,
            Err(place) => {
                return Err(place);
            },
        };
        let q: usize = if is_symbol(ts, q, Symbol::Comma) {
            q + 1
        } else {
            q
        };
        if !is_symbol(ts, q, Symbol::Rpar) {
            return Err(q);
        }
        Ok((Statement::Import { import_parts }, q + 1))
    } else {
        let (import_parts, q) = match symbols(ts, p + 1, &module) {
            Ok(parsed) => parsed,
            Err(place) => {
                return Err(place);
            },
        };
        Ok((Statement::Import { import_parts }, q))
    }
}

#[verifier::spinoff_prover]
fn return_statement(ts: &Vec<Token>, at: usize) -> (parsed: Read<Statement>)
    requires
        at < ts.len(),
    ensures
        reads(
            parsed,
            |value: Statement| value.model(),
            grammar::return_statement(models(ts), at as int),
            at + 1,
            ts.len() as int,
        ),
{
    reveal(grammar::return_statement);
    if starts(ts, at + 1) {
        let (value, p) = match testlist(ts, at + 1, false) {
            Ok(parsed) => parsed,
            Err(place) => {
                return Err(place);
            },
        };
        Ok((Statement::Return { value: Some(value) }, p))
    } else {
        Ok((Statement::Return { value: None }, at + 1))
    }
}

#[verifier::spinoff_prover]
fn raise_statement(ts: &Vec<Token>, at: usize) -> (parsed: Read<Statement>)
    requires
        at < ts.len(),
    ensures
        reads(
            parsed,
            |value: Statement| value.model(),
            grammar::raise_statement(models(ts), at as int),
            at + 1,
            ts.len() as int,
        ),
{
    reveal(grammar::raise_statement);
    if starts(ts, at + 1) {
        let (exception, p) = match test(ts, at + 1) {
            Ok(parsed) => parsed,
            Err(place) => {
                return Err(place);
            },
        };
        if is_symbol(ts, p, Symbol::From) {
            let (cause, q) = match test(ts, p + 1) {
                Ok(parsed) => parsed,
                Err(place) => {
                    return Err(place);
                },
            };
            Ok((Statement::Raise { exception: Some(exception), cause: Some(cause) }, q))
        } else {
            Ok((Statement::Raise { exception: Some(exception), cause: None }, p))
        }
    } else {
        Ok((Statement::Raise { exception: None, cause: None }, at + 1))
    }
}

#[verifier::spinoff_prover]
fn assert_statement(ts: &Vec<Token>, at: usize) -> (parsed: Read<Statement>)
    requires
        at < ts.len(),
    ensures
        reads(
            parsed,
            |value: Statement| value.model(),
            grammar::assert_statement(models(ts), at as int),
            at + 1,
            ts.len() as int,
        ),
{
    reveal(grammar::assert_statement);
    let (condition, p) = match test(ts, at + 1) {
        Ok(parsed) => parsed,
        Err(place) => {
            return Err(place);
        },
    };
    if is_symbol(ts, p, Symbol::Comma) {
        let (msg, q) = match test(ts, p + 1) {
            Ok(parsed) => parsed,
            Err(place) => {
                return Err(place);
            },
        };
        Ok((Statement::Assert { test: condition, msg: Some(msg) }, q))
    } else {
        Ok((Statement::Assert { test: condition, msg: None }, p))
    }
}

#[verifier::spinoff_prover]
fn delete_statement(ts: &Vec<Token>, at: usize) -> (parsed: Read<Statement>)
    requires
        at < ts.len(),
    ensures
        reads(
            parsed,
            |value: Statement| value.model(),
            grammar::delete_statement(models(ts), at as int),
            at + 1,
            ts.len() as int,
        ),
{
    reveal(grammar::delete_statement);
    let (first, p) = match element(ts, at + 1, true) {
        Ok(parsed) => parsed,
        Err(place) => {
            return Err(place);
        },
    };
    let mut targets: Vec<Expression> = Vec::new();
    targets.push(first);
    let (targets, q) = match more_elements(ts, p, targets, true) {
        Ok(parsed) => parsed,
        Err(place) => {
            return Err(place);
        },
    };
    Ok((Statement::Delete { targets }, q))
}

#[verifier::spinoff_prover]
fn small_statement(ts: &Vec<Token>, at: usize) -> (parsed: Read<Statement>)
    requires
        at <= ts.len(),
    ensures
        reads(
            parsed,
            |value: Statement| value.model(),
            grammar::small_statement(models(ts), at as int),
            at + 1,
            ts.len() as int,
        ),
{
    reveal(grammar::small_statement);
    match symbol_at(ts, at) {
        Some(Symbol::Pass) => Ok((Statement::Pass, at + 1)),
        Some(Symbol::Break) => Ok((Statement::Break, at + 1)),
        Some(Symbol::Continue) => Ok((Statement::Continue, at + 1)),
        Some(Symbol::Return) => return_statement(ts, at),
        Some(Symbol::Raise) => raise_statement(ts, at),
        Some(Symbol::Assert) => assert_statement(ts, at),
        Some(Symbol::Del) => delete_statement(ts, at),
        Some(Symbol::Global) => {
            let (names, p) = match names(ts, at + 1) {
                Ok(parsed) => parsed,
                Err(place) => {
                    return Err(place);
                },
            };
            Ok((Statement::Global { names }, p))
        },
        Some(Symbol::Nonlocal) => {
            let (names, p) = match names(ts, at + 1) {
                Ok(parsed) => parsed,
                Err(place) => {
                    return Err(place);
                },
            };
            Ok((Statement::Nonlocal { names }, p))
        },
        Some(Symbol::Import) => {
            let (import_parts, p) = match modules(ts, at + 1) {
                Ok(parsed) => parsed,
                Err(place) => {
                    return Err(place);
                },
            };
            Ok((Statement::Import { import_parts }, p))
        },
        Some(Symbol::From) => from_import(ts, at),
        _ => expression_statement(ts, at),
    }
}

#[verifier::spinoff_prover]
fn located(ts: &Vec<Token>, at: usize, node: Statement) -> (statement: LocatedStatement)
    requires
        at < ts.len(),
    ensures
        statement.model() == grammar::located(models(ts), at as int, node.model()),
{
    LocatedStatement { location: ts[at].start, node }
}

#[verifier::loop_isolation(false)]
#[verifier::spinoff_prover]
fn line(ts: &Vec<Token>, at: usize) -> (parsed: Read<Vec<LocatedStatement>>)
    requires
        at <= ts.len(),
    ensures
        reads(
            parsed,
            |value: Vec<LocatedStatement>| ast::statement_models(value@),
            grammar::line(models(ts), at as int, seq![]),
            at + 1,
            ts.len() as int,
        ),
{
    reveal(grammar::line);
    let ghost expected = grammar::line(models(ts), at as int, seq![]);
    let mut found: Vec<LocatedStatement> = Vec::new();
    let mut here: usize = at;
    assert(ast::statement_models(found@) =~= seq![]);
    loop
        invariant
            at <= here <= ts.len(),
            expected == grammar::line(models(ts), here as int, ast::statement_models(found@)),
        decreases ts.len() - here,
    {
        let (node, p) = match small_statement(ts, here) {
            Ok(parsed) => parsed,
            Err(place) => {
                return Err(place);
            },
        };
        found.push(located(ts, here, node));
        if !is_symbol(ts, p, Symbol::Semi) {
            if !is_symbol(ts, p, Symbol::Newline) {
                return Err(p);
            }
            return Ok((found, p + 1));
        }
        if is_symbol(ts, p + 1, Symbol::Newline) {
            return Ok((found, p + 2));
        }
        here = p + 1;
    }
}

// ---------------------------------------------------------------------------------------------
// Statements that hold others.

#[verifier::loop_isolation(false)]
#[verifier::spinoff_prover]
fn block(ts: &Vec<Token>, at: usize) -> (parsed: Read<Vec<LocatedStatement>>)
    requires
        at <= ts.len(),
    ensures
        reads(
            parsed,
            |value: Vec<LocatedStatement>| ast::statement_models(value@),
            grammar::block(models(ts), at as int),
            at + 1,
            ts.len() as int,
        ),
    decreases ts.len() - at, 1nat,
{
    reveal(grammar::block);
    reveal(grammar::more_statements);
    if !is_symbol(ts, at, Symbol::Colon) {
        return Err(at);
    }
    if !is_symbol(ts, at + 1, Symbol::Newline) {
        return line(ts, at + 1);
    }
    if !is_symbol(ts, at + 2, Symbol::Indent) {
        return Err(at + 2);
    }
    let (first, p) = match statement(ts, at + 3) {
        Ok(parsed) => parsed,
        Err(place) => {
            return Err(place);
        },
    };
    let ghost expected = grammar::more_statements(
        models(ts),
        p as int,
        ast::statement_models(first@),
    );
    let mut found: Vec<LocatedStatement> = first;
    let mut here: usize = p;
    while !is_symbol(ts, here, Symbol::Dedent)
        invariant
            at < here <= ts.len(),
            expected == grammar::block(models(ts), at as int),
            expected == grammar::more_statements(
                models(ts),
                here as int,
                ast::statement_models(found@),
            ),
        decreases ts.len() - here,
    {
        let (next, q) = match statement(ts, here) {
            Ok(parsed) => parsed,
            Err(place) => {
                return Err(place);
            },
        };
        let mut next: Vec<LocatedStatement> = next;
        found.append(&mut next);
        here = q;
    }
    Ok((found, here + 1))
}

#[verifier::spinoff_prover]
fn optional_block(ts: &Vec<Token>, at: usize, keyword: Symbol) -> (parsed: Read<
    Option<Vec<LocatedStatement>>,
>)
    requires
        at <= ts.len(),
    ensures
        reads(
            parsed,
            |value: Option<Vec<LocatedStatement>>| block_model(value),
            grammar::optional_block(models(ts), at as int, keyword),
            at as int,
            ts.len() as int,
        ),
    decreases ts.len() - at, 2nat,
{
    reveal(grammar::optional_block);
    if is_symbol(ts, at, keyword) {
        let (body, p) = match block(ts, at + 1) {
            Ok(parsed) => parsed,
            Err(place) => {
                return Err(place);
            },
        };
        Ok((Some(body), p))
    } else {
        Ok((None, at))
    }
}

#[verifier::spinoff_prover]
fn if_statement(ts: &Vec<Token>, at: usize) -> (parsed: Read<Statement>)
    requires
        at < ts.len(),
    ensures
        reads(
            parsed,
            |value: Statement| value.model(),
            grammar::if_statement(models(ts), at as int),
            at + 1,
            ts.len() as int,
        ),
    decreases ts.len() - at, 3nat,
{
    reveal(grammar::if_statement);
    let (condition, p) = match test(ts, at + 1) {
        Ok(parsed) => parsed,
        Err(place) => {
            return Err(place);
        },
    };
    let (body, q) = match block(ts, p) {
        Ok(parsed) => parsed,
        Err(place) => {
            return Err(place);
        },
    };
    if is_symbol(ts, q, Symbol::Elif) {
        let (nested, r) = match if_statement(ts, q) {
            Ok(parsed) => parsed,
            Err(place) => {
                return Err(place);
            },
        };
        let mut orelse: Vec<LocatedStatement> = Vec::new();
        let nested = located(ts, q, nested);
        let ghost models = seq![nested.model()];
        orelse.push(nested);
        assert(ast::statement_models(orelse@) == models);
        Ok((Statement::If { test: condition, body, orelse: Some(orelse) }, r))
    } else {
        let (orelse, r) = match optional_block(ts, q, Symbol::Else) {
            Ok(parsed) => parsed,
            Err(place) => {
                return Err(place);
            },
        };
        Ok((Statement::If { test: condition, body, orelse }, r))
    }
}

#[verifier::spinoff_prover]
fn while_statement(ts: &Vec<Token>, at: usize) -> (parsed: Read<Statement>)
    requires
        at < ts.len(),
    ensures
        reads(
            parsed,
            |value: Statement| value.model(),
            grammar::while_statement(models(ts), at as int),
            at + 1,
            ts.len() as int,
        ),
    decreases ts.len() - at, 3nat,
{
    reveal(grammar::while_statement);
    let (condition, p) = match test(ts, at + 1) {
        Ok(parsed) => parsed,
        Err(place) => {
            return Err(place);
        },
    };
    let (body, q) = match block(ts, p) {
        Ok(parsed) => parsed,
        Err(place) => {
            return Err(place);
        },
    };
    let (orelse, r) = match optional_block(ts, q, Symbol::Else) {
        Ok(parsed) => parsed,
        Err(place) => {
            return Err(place);
        },
    };
    Ok((Statement::While { test: condition, body, orelse }, r))
}

#[verifier::spinoff_prover]
fn for_statement(ts: &Vec<Token>, at: usize) -> (parsed: Read<Statement>)
    requires
        at < ts.len(),
    ensures
        reads(
            parsed,
            |value: Statement| value.model(),
            grammar::for_statement(models(ts), at as int),
            at + 1,
            ts.len() as int,
        ),
    decreases ts.len() - at, 3nat,
{
    reveal(grammar::for_statement);
    let (target, p) = match testlist(ts, at + 1, true) {
        Ok(parsed) => parsed,
        Err(place) => {
            return Err(place);
        },
    };
    if !is_symbol(ts, p, Symbol::In) {
        return Err(p);
    }
    let (iter, q) = match testlist(ts, p + 1, false) {
        Ok(parsed) => parsed,
        Err(place) => {
            return Err(place);
        },
    };
    let (body, r) = match block(ts, q) {
        Ok(parsed) => parsed,
        Err(place) => {
            return Err(place);
        },
    };
    let (orelse, s) = match optional_block(ts, r, Symbol::Else) {
        Ok(parsed) => parsed,
        Err(place) => {
            return Err(place);
        },
    };
    Ok((Statement::For { target, iter, body, orelse }, s))
}

#[verifier::loop_isolation(false)]
#[verifier::spinoff_prover]
fn handlers(ts: &Vec<Token>, at: usize) -> (parsed: Read<Vec<ExceptHandler>>)
    requires
        at <= ts.len(),
    ensures
        reads(
            parsed,
            |value: Vec<ExceptHandler>| ast::handler_models(value@),
            grammar::handlers(models(ts), at as int, seq![]),
            at as int,
            ts.len() as int,
        ),
    decreases ts.len() - at, 2nat,
{
    reveal(grammar::handlers);
    let ghost expected = grammar::handlers(models(ts), at as int, seq![]);
    let mut found: Vec<ExceptHandler> = Vec::new();
    let mut here: usize = at;
    assert(ast::handler_models(found@) =~= seq![]);
    while is_symbol(ts, here, Symbol::Except)
        invariant
            at <= here <= ts.len(),
            expected == grammar::handlers(models(ts), here as int, ast::handler_models(found@)),
        decreases ts.len() - here,
    {
        if is_symbol(ts, here + 1, Symbol::Colon) {
            let (body, p) = match block(ts, here + 1) {
                Ok(parsed) => parsed,
                Err(place) => {
                    return Err(place);
                },
            };
            found.push(ExceptHandler { typ: None, name: None, body });
            here = p;
        } else {
            let (typ, p) = match test(ts, here + 1) {
                Ok(parsed) => parsed,
                Err(place) => {
                    return Err(place);
                },
            };
            let (name, q) = match alias(ts, p) {
                Ok(parsed) => parsed,
                Err(place) => {
                    return Err(place);
                },
            };
            let (body, r) = match block(ts, q) {
                Ok(parsed) => parsed,
                Err(place) => {
                    return Err(place);
                },
            };
            found.push(ExceptHandler { typ: Some(typ), name, body });
            here = r;
        }
    }
    Ok((found, here))
}

#[verifier::spinoff_prover]
fn try_statement(ts: &Vec<Token>, at: usize) -> (parsed: Read<Statement>)
    requires
        at < ts.len(),
    ensures
        reads(
            parsed,
            |value: Statement| value.model(),
            grammar::try_statement(models(ts), at as int),
            at + 1,
            ts.len() as int,
        ),
    decreases ts.len() - at, 3nat,
{
    reveal(grammar::try_statement);
    if !is_symbol(ts, at, Symbol::Try) {
        return Err(at);
    }
    let (body, p) = match block(ts, at + 1) {
        Ok(parsed) => parsed,
        Err(place) => {
            return Err(place);
        },
    };
    let (handlers, q) = match handlers(ts, p) {
        Ok(parsed) => parsed,
        Err(place) => {
            return Err(place);
        },
    };
    assert(ast::handler_models(handlers@).len() == handlers.len());
    if handlers.len() == 0 {
        if !is_symbol(ts, q, Symbol::Finally) {
            return Err(q);
        }
        let (finalbody, r) = match block(ts, q + 1) {
            Ok(parsed) => parsed,
            Err(place) => {
                return Err(place);
            },
        };
        let finalbody = Some(finalbody);
        Ok((Statement::Try { body, handlers, orelse: None, finalbody }, r))
    } else {
        let (orelse, r) = match optional_block(ts, q, Symbol::Else) {
            Ok(parsed) => parsed,
            Err(place) => {
                return Err(place);
            },
        };
        let (finalbody, s) = match optional_block(ts, r, Symbol::Finally) {
            Ok(parsed) => parsed,
            Err(place) => {
                return Err(place);
            },
        };
        Ok((Statement::Try { body, handlers, orelse, finalbody }, s))
    }
}

#[verifier::loop_isolation(false)]
#[verifier::spinoff_prover]
fn with_items(ts: &Vec<Token>, at: usize) -> (parsed: Read<Vec<WithItem>>)
    requires
        at <= ts.len(),
    ensures
        reads(
            parsed,
            |value: Vec<WithItem>| ast::item_models(value@),
            grammar::with_items(models(ts), at as int, seq![]),
            at + 1,
            ts.len() as int,
        ),
{
    reveal(grammar::with_items);
    let ghost expected = grammar::with_items(models(ts), at as int, seq![]);
    let mut found: Vec<WithItem> = Vec::new();
    let mut here: usize = at;
    assert(ast::item_models(found@) =~= seq![]);
    loop
        invariant
            at <= here <= ts.len(),
            expected == grammar::with_items(models(ts), here as int, ast::item_models(found@)),
        decreases ts.len() - here,
    {
        let (item, p) = match with_item(ts, here) {
            Ok(parsed) => parsed,
            Err(place) => {
                return Err(place);
            },
        };
        found.push(item);
        if !is_symbol(ts, p, Symbol::Comma) {
            return Ok((found, p));
        }
        here = p + 1;
    }
}

#[verifier::spinoff_prover]
fn with_item(ts: &Vec<Token>, at: usize) -> (parsed: Read<WithItem>)
    requires
        at <= ts.len(),
    ensures
        reads(
            parsed,
            |value: WithItem| value.model(),
            grammar::with_item(models(ts), at as int),
            at + 1,
            ts.len() as int,
        ),
{
    reveal(grammar::with_item);
    let (context_expr, p) = match test(ts, at) {
        Ok(parsed) => parsed,
        Err(place) => {
            return Err(place);
        },
    };
    if is_symbol(ts, p, Symbol::As) {
        let (target, q) = match operation(ts, p + 1, BITWISE) {
            Ok(parsed) => parsed,
            Err(place) => {
                return Err(place);
            },
        };
        Ok((WithItem { context_expr, optional_vars: Some(target) }, q))
    } else {
        Ok((WithItem { context_expr, optional_vars: None }, p))
    }
}

#[verifier::spinoff_prover]
fn with_statement(ts: &Vec<Token>, at: usize) -> (parsed: Read<Statement>)
    requires
        at < ts.len(),
    ensures
        reads(
            parsed,
            |value: Statement| value.model(),
            grammar::with_statement(models(ts), at as int),
            at + 1,
            ts.len() as int,
        ),
    decreases ts.len() - at, 3nat,
{
    reveal(grammar::with_statement);
    let (items, p) = match with_items(ts, at + 1) {
        Ok(parsed) => parsed,
        Err(place) => {
            return Err(place);
        },
    };
    let (body, q) = match block(ts, p) {
        Ok(parsed) => parsed,
        Err(place) => {
            return Err(place);
        },
    };
    Ok((Statement::With { items, body }, q))
}

#[verifier::spinoff_prover]
fn definition(ts: &Vec<Token>, at: usize, decorators: Vec<Expression>) -> (parsed: Read<
    LocatedStatement,
>)
    requires
        at <= ts.len(),
    ensures
        reads(
            parsed,
            |value: LocatedStatement| value.model(),
            grammar::definition(models(ts), at as int, ast::expression_models(decorators@)),
            at + 1,
            ts.len() as int,
        ),
    decreases ts.len() - at, 3nat,
{
    reveal(grammar::definition);
    if is_symbol(ts, at, Symbol::Def) {
        let (name, p) = match name(ts, at + 1) {
            Ok(parsed) => parsed,
            Err(place) => {
                return Err(place);
            },
        };
        if !is_symbol(ts, p, Symbol::Lpar) {
            return Err(p);
        }
        let (args, q) = match parameters(ts, p + 1) {
            Ok(parsed) => parsed,
            Err(place) => {
                return Err(place);
            },
        };
        if !is_symbol(ts, q, Symbol::Rpar) {
            return Err(q);
        }
        let (body, r) = match block(ts, q + 1) {
            Ok(parsed) => parsed,
            Err(place) => {
                return Err(place);
            },
        };
        let node = Statement::FunctionDef { name, args, body, decorator_list: decorators };
        Ok((located(ts, at, node), r))
    } else {
        if !is_symbol(ts, at, Symbol::Class) {
            return Err(at);
        }
        let (name, p) = match name(ts, at + 1) {
            Ok(parsed) => parsed,
            Err(place) => {
                return Err(place);
            },
        };
        let (given, q) = match bases(ts, p) {
            Ok(parsed) => parsed,
            Err(place) => {
                return Err(place);
            },
        };
        let (body, r) = match block(ts, q) {
            Ok(parsed) => parsed,
            Err(place) => {
                return Err(place);
            },
        };
        let node = Statement::ClassDef {
            name,
            body,
            bases: given.args,
            keywords: given.keywords,
            decorator_list: decorators,
        };
        Ok((located(ts, at, node), r))
    }
}

#[verifier::spinoff_prover]
fn bases(ts: &Vec<Token>, at: usize) -> (parsed: Read<Arguments>)
    requires
        at <= ts.len(),
    ensures
        reads(
            parsed,
            |value: Arguments| value.model(),
            grammar::bases(models(ts), at as int),
            at as int,
            ts.len() as int,
        ),
{
    reveal(grammar::bases);
    if is_symbol(ts, at, Symbol::Lpar) {
        arguments(ts, at + 1)
    } else {
        Ok((no_arguments(), at))
    }
}

#[verifier::loop_isolation(false)]
#[verifier::spinoff_prover]
fn decorated(ts: &Vec<Token>, at: usize) -> (parsed: Read<LocatedStatement>)
    requires
        at <= ts.len(),
    ensures
        reads(
            parsed,
            |value: LocatedStatement| value.model(),
            grammar::decorated(models(ts), at as int, seq![]),
            at + 1,
            ts.len() as int,
        ),
    decreases ts.len() - at, 4nat,
{
    reveal(grammar::decorated);
    let ghost expected = grammar::decorated(models(ts), at as int, seq![]);
    let mut decorators: Vec<Expression> = Vec::new();
    let mut here: usize = at;
    assert(ast::expression_models(decorators@) =~= seq![]);
    while is_symbol(ts, here, Symbol::At)
        invariant
            at <= here <= ts.len(),
            expected == grammar::decorated(
                models(ts),
                here as int,
                ast::expression_models(decorators@),
            ),
        decreases ts.len() - here,
    {
        let (decorator, p) = match atom_expression(ts, here + 1) {
            Ok(parsed) => parsed,
            Err(place) => {
                return Err(place);
            },
        };
        if !is_symbol(ts, p, Symbol::Newline) {
            return Err(p);
        }
        decorators.push(decorator);
        here = p + 1;
    }
    definition(ts, here, decorators)
}

#[verifier::spinoff_prover]
fn is_compound(ts: &Vec<Token>, at: usize) -> (yes: bool)
    ensures
        yes == grammar::is_compound(models(ts), at as int),
{
    match symbol_at(ts, at) {
        Some(Symbol::If) => true,
        Some(Symbol::While) => true,
        Some(Symbol::For) => true,
        Some(Symbol::Try) => true,
        Some(Symbol::With) => true,
        Some(Symbol::Def) => true,
        Some(Symbol::Class) => true,
        Some(Symbol::At) => true,
        _ => false,
    }
}

#[verifier::spinoff_prover]
fn compound(ts: &Vec<Token>, at: usize) -> (parsed: Read<LocatedStatement>)
    requires
        at <= ts.len(),
    ensures
        reads(
            parsed,
            |value: LocatedStatement| value.model(),
            grammar::compound(models(ts), at as int),
            at + 1,
            ts.len() as int,
        ),
    decreases ts.len() - at, 5nat,
{
    reveal(grammar::compound);
    if is_symbol(ts, at, Symbol::If) {
        let (node, p) = match if_statement(ts, at) {
            Ok(parsed) => parsed,
            Err(place) => {
                return Err(place);
            },
        };
        Ok((located(ts, at, node), p))
    } else if is_symbol(ts, at, Symbol::While) {
        let (node, p) = match while_statement(ts, at) {
            Ok(parsed) => parsed,
            Err(place) => {
                return Err(place);
            },
        };
        Ok((located(ts, at, node), p))
    } else if is_symbol(ts, at, Symbol::For) {
        let (node, p) = match for_statement(ts, at) {
            Ok(parsed) => parsed,
            Err(place) => {
                return Err(place);
            },
        };
        Ok((located(ts, at, node), p))
    } else if is_symbol(ts, at, Symbol::Try) {
        let (node, p) = match try_statement(ts, at) {
            Ok(parsed) => parsed,
            Err(place) => {
                return Err(place);
            },
        };
        Ok((located(ts, at, node), p))
    } else if is_symbol(ts, at, Symbol::With) {
        let (node, p) = match with_statement(ts, at) {
            Ok(parsed) => parsed,
            Err(place) => {
                return Err(place);
            },
        };
        Ok((located(ts, at, node), p))
    } else {
        decorated(ts, at)
    }
}

#[verifier::spinoff_prover]
fn statement(ts: &Vec<Token>, at: usize) -> (parsed: Read<Vec<LocatedStatement>>)
    requires
        at <= ts.len(),
    ensures
        reads(
            parsed,
            |value: Vec<LocatedStatement>| ast::statement_models(value@),
            grammar::statement(models(ts), at as int),
            at + 1,
            ts.len() as int,
        ),
    decreases ts.len() - at, 6nat,
{
    reveal(grammar::statement);
    if is_compound(ts, at) {
        let (statement, p) = match compound(ts, at) {
            Ok(parsed) => parsed,
            Err(place) => {
                return Err(place);
            },
        };
        let mut found: Vec<LocatedStatement> = Vec::new();
        found.push(statement);
        Ok((found, p))
    } else {
        line(ts, at)
    }
}

// ---------------------------------------------------------------------------------------------
// Whole texts.

#[verifier::loop_isolation(false)]
#[verifier::spinoff_prover]
fn program(ts: &Vec<Token>, at: usize) -> (parsed: Result<Program, usize>)
    requires
        at <= ts.len(),
    ensures
        match (parsed, grammar::program(models(ts), at as int, seq![])) {
            (Ok(program), Ok(expected)) => program.model() == expected,
            (Err(place), Err(expected)) => place == expected && place <= ts.len(),
            _ => false,
        },
{
    reveal(grammar::program);
    let ghost expected = grammar::program(models(ts), at as int, seq![]);
    let mut statements: Vec<LocatedStatement> = Vec::new();
    let mut here: usize = at;
    assert(ast::statement_models(statements@) =~= seq![]);
    while here < ts.len()
        invariant
            at <= here <= ts.len(),
            expected == grammar::program(
                models(ts),
                here as int,
                ast::statement_models(statements@),
            ),
        decreases ts.len() - here,
    {
        let (next, p) = match statement(ts, here) {
            Ok(parsed) => parsed,
            Err(place) => {
                return Err(place);
            },
        };
        let mut next: Vec<LocatedStatement> = next;
        statements.append(&mut next);
        here = p;
    }
    Ok(Program { statements })
}

#[verifier::spinoff_prover]
fn single(ts: &Vec<Token>, at: usize) -> (parsed: Result<LocatedStatement, usize>)
    requires
        at <= ts.len(),
    ensures
        match (parsed, grammar::single(models(ts), at as int)) {
            (Ok(statement), Ok(expected)) => statement.model() == expected,
            (Err(place), Err(expected)) => place == expected && place <= ts.len(),
            _ => false,
        },
{
    reveal(grammar::single);
    let (found, p) = match statement(ts, at) {
        Ok(parsed) => parsed,
        Err(place) => {
            return Err(place);
        },
    };
    let mut found: Vec<LocatedStatement> = found;
    assert(ast::statement_models(found@).len() == found.len());
    if found.len() == 1 && p == ts.len() {
        Ok(found.swap_remove(0))
    } else {
        Err(p)
    }
}

#[verifier::spinoff_prover]
fn expression(ts: &Vec<Token>, at: usize) -> (parsed: Result<Expression, usize>)
    requires
        at <= ts.len(),
    ensures
        match (parsed, grammar::expression(models(ts), at as int)) {
            (Ok(expression), Ok(expected)) => expression.model() == expected,
            (Err(place), Err(expected)) => place == expected && place <= ts.len(),
            _ => false,
        },
{
    reveal(grammar::expression);
    let (found, p) = match testlist(ts, at, false) {
        Ok(parsed) => parsed,
        Err(place) => {
            return Err(place);
        },
    };
    if p == ts.len() {
        Ok(found)
    } else {
        Err(p)
    }
}

/// Reads tokens. An error is the place of the first token that does not fit, or the number of
/// tokens where more are called for.
#[verifier::spinoff_prover]
pub fn parse_top(start: Start, ts: &Vec<Token>) -> (parsed: Result<Top, usize>)
    ensures
        match (parsed, grammar::top(start, token::token_models(ts@))) {
            (Ok(top), Ok(expected)) => top.model() == expected,
            (Err(place), Err(expected)) => place == expected && place <= ts.len(),
            _ => false,
        },
{
    match start {
        Start::Program => match program(ts, 0) {
            Ok(program) => Ok(Top::Program(program)),
            Err(place) => Err(place),
        },
        Start::Statement => match single(ts, 0) {
            Ok(statement) => Ok(Top::Statement(statement)),
            Err(place) => Err(place),
        },
        Start::Expression => match expression(ts, 0) {
            Ok(expression) => Ok(Top::Expression(expression)),
            Err(place) => Err(place),
        },
    }
}

} // verus!
