//! The grammar: what a sequence of tokens is parsed as.
//!
//! Every function takes the place where it begins to read, and gives what it has read with the
//! place where it stopped, or the place of the first token that does not fit. The functions refer
//! to each other all around, so a proof reveals those that it looks into.
use vstd::prelude::*;

use crate::ast::{
    BooleanOperator, Comparison, ComprehensionKindModel, ComprehensionModel, ExceptHandlerModel,
    ExpressionModel, KeywordModel, LocatedStatementModel, NumberModel, Operator, ParametersModel,
    ProgramModel, SingleImportModel, StatementModel, TopModel, UnaryOperator, WithItemModel,
};
use crate::token::{Symbol, TokModel, TokenModel};

verus! {

pub type Tokens = Seq<TokenModel>;

/// What has been read with the place after it, or the place that does not fit.
pub type Parsed<T> = Result<(T, int), int>;

/// The same result, if it stopped beyond a place and not beyond the last token. It always does.
pub open spec fn beyond<T>(parsed: Parsed<T>, at: int, ts: Tokens) -> Parsed<T> {
    match parsed {
        Ok((value, next)) => if at < next <= ts.len() {
            Ok((value, next))
        } else {
            Err(at)
        },
        Err(place) => Err(place),
    }
}

// ---------------------------------------------------------------------------------------------
// Tokens.

/// Whether a symbol is at a place.
pub open spec fn is_symbol(ts: Tokens, at: int, symbol: Symbol) -> bool {
    0 <= at < ts.len() && ts[at].tok == TokModel::Symbol(symbol)
}

/// The symbol at a place, if there is one.
pub open spec fn symbol_at(ts: Tokens, at: int) -> Option<Symbol> {
    if 0 <= at < ts.len() {
        match ts[at].tok {
            TokModel::Symbol(symbol) => Some(symbol),
            _ => None,
        }
    } else {
        None
    }
}

/// What has been read, if a symbol follows it.
pub open spec fn closed<T>(ts: Tokens, at: int, symbol: Symbol, value: T) -> Parsed<T> {
    if is_symbol(ts, at, symbol) {
        Ok((value, at + 1))
    } else {
        Err(at)
    }
}

/// A name.
pub open spec fn name(ts: Tokens, at: int) -> Parsed<Seq<char>> {
    if 0 <= at < ts.len() {
        match ts[at].tok {
            TokModel::Name { name } => Ok((name, at + 1)),
            _ => Err(at),
        }
    } else {
        Err(at)
    }
}

/// Whether a name is at a place.
pub open spec fn is_name(ts: Tokens, at: int) -> bool {
    0 <= at < ts.len() && ts[at].tok is Name
}

/// Whether an expression can begin at a place.
pub open spec fn starts(ts: Tokens, at: int) -> bool {
    if 0 <= at < ts.len() {
        match ts[at].tok {
            TokModel::Symbol(symbol) => starts_with(symbol),
            _ => true,
        }
    } else {
        false
    }
}

/// Whether an expression can begin with a symbol.
pub open spec fn starts_with(symbol: Symbol) -> bool {
    match symbol {
        Symbol::Lpar => true,
        Symbol::Lsqb => true,
        Symbol::Lbrace => true,
        Symbol::Plus => true,
        Symbol::Minus => true,
        Symbol::Tilde => true,
        Symbol::Star => true,
        Symbol::Not => true,
        Symbol::Lambda => true,
        Symbol::True => true,
        Symbol::False => true,
        Symbol::NoneWord => true,
        _ => false,
    }
}

// ---------------------------------------------------------------------------------------------
// Operators.

/// An operator between two operands.
#[derive(Clone, Copy)]
pub enum Infix {
    Boolean(BooleanOperator),
    Binary(Operator),
    Comparison(Comparison),
}

/// The expression that joins two operands.
pub open spec fn join(a: ExpressionModel, infix: Infix, b: ExpressionModel) -> ExpressionModel {
    match infix {
        Infix::Boolean(op) => ExpressionModel::BoolOp { a: Box::new(a), op, b: Box::new(b) },
        Infix::Binary(op) => ExpressionModel::Binop { a: Box::new(a), op, b: Box::new(b) },
        Infix::Comparison(op) => ExpressionModel::Compare { a: Box::new(a), op, b: Box::new(b) },
    }
}

/// The level of negation, which has one operand.
pub const NEGATION: u8 = 2;

/// The level that binds loosest among those of an assignment's target.
pub const BITWISE: u8 = 4;

/// The number of levels of operators. A higher level binds tighter.
pub const LEVELS: u8 = 10;

/// The operator of a level at a place, with the number of its tokens.
pub open spec fn infix(ts: Tokens, at: int, level: u8) -> Option<(Infix, int)> {
    match symbol_at(ts, at) {
        None => None,
        Some(symbol) => if level == 0 {
            if symbol == Symbol::Or {
                Some((Infix::Boolean(BooleanOperator::Or), 1))
            } else {
                None
            }
        } else if level == 1 {
            if symbol == Symbol::And {
                Some((Infix::Boolean(BooleanOperator::And), 1))
            } else {
                None
            }
        } else if level == 3 {
            comparison(ts, at, symbol)
        } else {
            match binary(symbol, level) {
                Some(op) => Some((Infix::Binary(op), 1)),
                None => None,
            }
        },
    }
}

/// A comparison that begins with a symbol.
pub open spec fn comparison(ts: Tokens, at: int, symbol: Symbol) -> Option<(Infix, int)> {
    match symbol {
        Symbol::EqEqual => Some((Infix::Comparison(Comparison::Equal), 1)),
        Symbol::NotEqual => Some((Infix::Comparison(Comparison::NotEqual), 1)),
        Symbol::Less => Some((Infix::Comparison(Comparison::Less), 1)),
        Symbol::LessEqual => Some((Infix::Comparison(Comparison::LessOrEqual), 1)),
        Symbol::Greater => Some((Infix::Comparison(Comparison::Greater), 1)),
        Symbol::GreaterEqual => Some((Infix::Comparison(Comparison::GreaterOrEqual), 1)),
        Symbol::In => Some((Infix::Comparison(Comparison::In), 1)),
        Symbol::Is => if is_symbol(ts, at + 1, Symbol::Not) {
            Some((Infix::Comparison(Comparison::IsNot), 2))
        } else {
            Some((Infix::Comparison(Comparison::Is), 1))
        },
        Symbol::Not => if is_symbol(ts, at + 1, Symbol::In) {
            Some((Infix::Comparison(Comparison::NotIn), 2))
        } else {
            None
        },
        _ => None,
    }
}

/// The operator that a symbol stands for at a level.
pub open spec fn binary(symbol: Symbol, level: u8) -> Option<Operator> {
    let found: Option<(Operator, u8)> = match symbol {
        Symbol::Vbar => Some((Operator::BitOr, 4)),
        Symbol::CircumFlex => Some((Operator::BitXor, 5)),
        Symbol::Amper => Some((Operator::BitAnd, 6)),
        Symbol::LeftShift => Some((Operator::LShift, 7)),
        Symbol::RightShift => Some((Operator::RShift, 7)),
        Symbol::Plus => Some((Operator::Add, 8)),
        Symbol::Minus => Some((Operator::Sub, 8)),
        Symbol::Star => Some((Operator::Mult, 9)),
        Symbol::Slash => Some((Operator::Div, 9)),
        Symbol::DoubleSlash => Some((Operator::FloorDiv, 9)),
        Symbol::Percent => Some((Operator::Mod, 9)),
        Symbol::At => Some((Operator::MatMult, 9)),
        _ => None,
    };
    match found {
        Some((op, of)) => if of == level {
            Some(op)
        } else {
            None
        },
        None => None,
    }
}

/// The operator before a single operand.
pub open spec fn prefix(ts: Tokens, at: int) -> Option<UnaryOperator> {
    match symbol_at(ts, at) {
        Some(Symbol::Plus) => Some(UnaryOperator::Pos),
        Some(Symbol::Minus) => Some(UnaryOperator::Neg),
        Some(Symbol::Tilde) => Some(UnaryOperator::Inv),
        _ => None,
    }
}

/// The operator of an augmented assignment.
pub open spec fn augmented(ts: Tokens, at: int) -> Option<Operator> {
    match symbol_at(ts, at) {
        Some(Symbol::PlusEqual) => Some(Operator::Add),
        Some(Symbol::MinusEqual) => Some(Operator::Sub),
        Some(Symbol::StarEqual) => Some(Operator::Mult),
        Some(Symbol::AtEqual) => Some(Operator::MatMult),
        Some(Symbol::SlashEqual) => Some(Operator::Div),
        Some(Symbol::DoubleSlashEqual) => Some(Operator::FloorDiv),
        Some(Symbol::PercentEqual) => Some(Operator::Mod),
        Some(Symbol::AmperEqual) => Some(Operator::BitAnd),
        Some(Symbol::VbarEqual) => Some(Operator::BitOr),
        Some(Symbol::CircumflexEqual) => Some(Operator::BitXor),
        Some(Symbol::LeftShiftEqual) => Some(Operator::LShift),
        Some(Symbol::RightShiftEqual) => Some(Operator::RShift),
        Some(Symbol::DoubleStarEqual) => Some(Operator::Pow),
        _ => None,
    }
}

// ---------------------------------------------------------------------------------------------
// Expressions.

/// The text of the strings that stand one behind the other from a place on.
#[verifier::opaque]
pub open spec fn strings(ts: Tokens, at: int, text: Seq<char>) -> Parsed<Seq<char>>
    decreases ts.len() - at,
{
    if 0 <= at < ts.len() {
        match ts[at].tok {
            TokModel::String { value } => strings(ts, at + 1, text + value),
            _ => Ok((text, at)),
        }
    } else {
        Ok((text, at))
    }
}

/// A literal, or a name.
#[verifier::opaque]
pub open spec fn literal(ts: Tokens, at: int) -> Parsed<ExpressionModel> {
    if 0 <= at < ts.len() {
        match ts[at].tok {
            TokModel::Name { name } => Ok((ExpressionModel::Identifier { name }, at + 1)),
            TokModel::Int { value } => Ok(
                (ExpressionModel::Number { value: NumberModel::Integer { value } }, at + 1),
            ),
            TokModel::Float { literal } => Ok(
                (ExpressionModel::Number { value: NumberModel::Float { literal } }, at + 1),
            ),
            TokModel::String { value } => match strings(ts, at + 1, value) {
                Ok((value, next)) => Ok((ExpressionModel::String { value }, next)),
                Err(place) => Err(place),
            },
            TokModel::Bytes { value } => Ok((ExpressionModel::Bytes { value }, at + 1)),
            TokModel::Symbol(symbol) => if symbol == Symbol::True {
                Ok((ExpressionModel::True, at + 1))
            } else if symbol == Symbol::False {
                Ok((ExpressionModel::False, at + 1))
            } else if symbol == Symbol::NoneWord {
                Ok((ExpressionModel::NoneValue, at + 1))
            } else {
                Err(at)
            },
        }
    } else {
        Err(at)
    }
}

/// Expressions separated by commas. With a comma they are a tuple.
#[verifier::opaque]
pub open spec fn testlist(ts: Tokens, at: int, targets: bool) -> Parsed<ExpressionModel>
    decreases ts.len() - at, 35nat,
{
    match beyond(element(ts, at, targets), at, ts) {
        Err(place) => Err(place),
        Ok((first, p)) => {
            if is_symbol(ts, p, Symbol::Comma) {
                match beyond(more_elements(ts, p, seq![first], targets), at, ts) {
                    Err(place) => Err(place),
                    Ok((elements, q)) => {
                        Ok((ExpressionModel::Tuple { elements }, q))
                    },
                }
            } else {
                Ok((first, p))
            }
        },
    }
}

/// An expression of a list, which may be starred. A target holds no comparison.
#[verifier::opaque]
pub open spec fn element(ts: Tokens, at: int, targets: bool) -> Parsed<ExpressionModel>
    decreases ts.len() - at, 31nat,
{
    if is_symbol(ts, at, Symbol::Star) {
        match beyond(operation(ts, at + 1, BITWISE), at, ts) {
            Err(place) => Err(place),
            Ok((value, p)) => {
                Ok((ExpressionModel::Starred { value: Box::new(value) }, p))
            },
        }
    } else if targets {
        operation(ts, at, BITWISE)
    } else {
        test(ts, at)
    }
}

/// The expressions that follow, each behind a comma. A last comma may stand alone.
#[verifier::opaque]
pub open spec fn more_elements(
    ts: Tokens,
    at: int,
    elements: Seq<ExpressionModel>,
    targets: bool,
) -> Parsed<Seq<ExpressionModel>>
    decreases ts.len() - at, 0nat,
{
    if is_symbol(ts, at, Symbol::Comma) && starts(ts, at + 1) {
        match beyond(element(ts, at + 1, targets), at, ts) {
            Err(place) => Err(place),
            Ok((next, p)) => {
                more_elements(ts, p, elements.push(next), targets)
            },
        }
    } else if is_symbol(ts, at, Symbol::Comma) {
        Ok((elements, at + 1))
    } else {
        Ok((elements, at))
    }
}

/// An expression: a function, a choice, or an operation.
#[verifier::opaque]
pub open spec fn test(ts: Tokens, at: int) -> Parsed<ExpressionModel>
    decreases ts.len() - at, 30nat,
{
    if is_symbol(ts, at, Symbol::Lambda) {
        match beyond(parameters(ts, at + 1, no_parameters()), at, ts) {
            Err(place) => Err(place),
            Ok((args, p)) => {
                if !is_symbol(ts, p, Symbol::Colon) {
                    Err(p)
                } else {
                    match beyond(test(ts, p + 1), at, ts) {
                        Err(place) => Err(place),
                        Ok((body, q)) => {
                            Ok((ExpressionModel::Lambda { args, body: Box::new(body) }, q))
                        },
                    }
                }
            },
        }
    } else {
        match beyond(operation(ts, at, 0), at, ts) {
            Err(place) => Err(place),
            Ok((body, p)) => {
                if is_symbol(ts, p, Symbol::If) {
                    match beyond(operation(ts, p + 1, 0), at, ts) {
                        Err(place) => Err(place),
                        Ok((condition, q)) => {
                            if !is_symbol(ts, q, Symbol::Else) {
                                Err(q)
                            } else {
                                match beyond(test(ts, q + 1), at, ts) {
                                    Err(place) => Err(place),
                                    Ok((orelse, r)) => {
                                        Ok((
                                            ExpressionModel::IfExpression {
                                                test: Box::new(condition),
                                                body: Box::new(body),
                                                orelse: Box::new(orelse),
                                            },
                                            r,
                                        ))
                                    },
                                }
                            }
                        },
                    }
                } else {
                    Ok((body, p))
                }
            },
        }
    }
}

/// An operation whose operators are of a level or of a higher one.
#[verifier::opaque]
pub open spec fn operation(ts: Tokens, at: int, level: u8) -> Parsed<ExpressionModel>
    decreases
            ts.len() - at,
            if level < LEVELS {
                (20 - level) as nat
            } else {
                10nat
            },
{
    if level >= LEVELS {
        factor(ts, at)
    } else if level == NEGATION {
        if is_symbol(ts, at, Symbol::Not) {
            match beyond(operation(ts, at + 1, NEGATION), at, ts) {
                Err(place) => Err(place),
                Ok((a, p)) => {
                    Ok((ExpressionModel::Unop { op: UnaryOperator::Not, a: Box::new(a) }, p))
                },
            }
        } else {
            operation(ts, at, (level + 1) as u8)
        }
    } else {
        match beyond(operation(ts, at, (level + 1) as u8), at, ts) {
            Err(place) => Err(place),
            Ok((a, p)) => {
                more_operands(ts, p, level, a)
            },
        }
    }
}

/// The operands that follow, each behind an operator of a level.
#[verifier::opaque]
pub open spec fn more_operands(ts: Tokens, at: int, level: u8, a: ExpressionModel) -> Parsed<
    ExpressionModel,
>
    decreases ts.len() - at, 0nat,
{
    match infix(ts, at, level) {
        Some((infix, length)) => {
            match beyond(operation(ts, at + length, (level + 1) as u8), at, ts) {
                Err(place) => Err(place),
                Ok((b, p)) => {
                    more_operands(ts, p, level, join(a, infix, b))
                },
            }
        },
        None => Ok((a, at)),
    }
}

/// A signed operand.
#[verifier::opaque]
pub open spec fn factor(ts: Tokens, at: int) -> Parsed<ExpressionModel>
    decreases ts.len() - at, 9nat,
{
    match prefix(ts, at) {
        Some(op) => {
            match beyond(factor(ts, at + 1), at, ts) {
                Err(place) => Err(place),
                Ok((a, p)) => {
                    Ok((ExpressionModel::Unop { op, a: Box::new(a) }, p))
                },
            }
        },
        None => power(ts, at),
    }
}

/// An operand with its exponent.
#[verifier::opaque]
pub open spec fn power(ts: Tokens, at: int) -> Parsed<ExpressionModel>
    decreases ts.len() - at, 8nat,
{
    match beyond(atom_expression(ts, at), at, ts) {
        Err(place) => Err(place),
        Ok((a, p)) => {
            if is_symbol(ts, p, Symbol::DoubleStar) {
                match beyond(factor(ts, p + 1), at, ts) {
                    Err(place) => Err(place),
                    Ok((b, q)) => {
                        Ok(
                            (ExpressionModel::Binop {
                                a: Box::new(a),
                                op: Operator::Pow,
                                b: Box::new(b),
                            }, q),
                        )
                    },
                }
            } else {
                Ok((a, p))
            }
        },
    }
}

/// An atom with the calls, subscripts and attributes behind it.
#[verifier::opaque]
pub open spec fn atom_expression(ts: Tokens, at: int) -> Parsed<ExpressionModel>
    decreases ts.len() - at, 7nat,
{
    match beyond(atom(ts, at), at, ts) {
        Err(place) => Err(place),
        Ok((a, p)) => {
            trailers(ts, p, a)
        },
    }
}

/// The calls, subscripts and attributes from a place on.
#[verifier::opaque]
pub open spec fn trailers(ts: Tokens, at: int, a: ExpressionModel) -> Parsed<ExpressionModel>
    decreases ts.len() - at, 0nat,
{
    if is_symbol(ts, at, Symbol::Lpar) {
        match beyond(arguments(ts, at + 1, no_arguments()), at, ts) {
            Err(place) => Err(place),
            Ok((given, p)) => {
                let call = ExpressionModel::Call {
                    function: Box::new(a),
                    args: given.args,
                    keywords: given.keywords,
                };
                trailers(ts, p, call)
            },
        }
    } else if is_symbol(ts, at, Symbol::Lsqb) {
        match beyond(subscripts(ts, at + 1), at, ts) {
            Err(place) => Err(place),
            Ok((b, p)) => {
                if !is_symbol(ts, p, Symbol::Rsqb) {
                    Err(p)
                } else {
                    trailers(
                        ts,
                        p + 1,
                        ExpressionModel::Subscript { a: Box::new(a), b: Box::new(b) },
                    )
                }
            },
        }
    } else if is_symbol(ts, at, Symbol::Dot) {
        match beyond(name(ts, at + 1), at, ts) {
            Err(place) => Err(place),
            Ok((name, p)) => {
                trailers(ts, p, ExpressionModel::Attribute { value: Box::new(a), name })
            },
        }
    } else {
        Ok((a, at))
    }
}

/// An operand that holds no operator but within brackets.
#[verifier::opaque]
pub open spec fn atom(ts: Tokens, at: int) -> Parsed<ExpressionModel>
    decreases ts.len() - at, 5nat,
{
    if is_symbol(ts, at, Symbol::Lpar) {
        parentheses(ts, at)
    } else if is_symbol(ts, at, Symbol::Lsqb) {
        brackets(ts, at)
    } else if is_symbol(ts, at, Symbol::Lbrace) {
        braces(ts, at)
    } else {
        literal(ts, at)
    }
}

/// A tuple, a generator, or an expression between parentheses.
#[verifier::opaque]
pub open spec fn parentheses(ts: Tokens, at: int) -> Parsed<ExpressionModel>
    decreases ts.len() - at, 4nat,
{
    if !is_symbol(ts, at, Symbol::Lpar) {
        Err(at)
    } else {
        if is_symbol(ts, at + 1, Symbol::Rpar) {
            Ok((ExpressionModel::Tuple { elements: seq![] }, at + 2))
        } else if is_symbol(ts, at + 1, Symbol::Yield) {
            match beyond(yield_expression(ts, at + 1), at, ts) {
                Err(place) => Err(place),
                Ok((value, p)) => {
                    closed(ts, p, Symbol::Rpar, value)
                },
            }
        } else {
            match beyond(element(ts, at + 1, false), at, ts) {
                Err(place) => Err(place),
                Ok((first, p)) => {
                    if is_symbol(ts, p, Symbol::For) {
                        match beyond(generators(ts, p, seq![]), at, ts) {
                            Err(place) => Err(place),
                            Ok((generators, q)) => {
                                let kind = ComprehensionKindModel::GeneratorExpression {
                                    element: first,
                                };
                                closed(
                                    ts,
                                    q,
                                    Symbol::Rpar,
                                    ExpressionModel::Comprehension {
                                        kind: Box::new(kind),
                                        generators,
                                    },
                                )
                            },
                        }
                    } else if is_symbol(ts, p, Symbol::Comma) {
                        match beyond(more_elements(ts, p, seq![first], false), at, ts) {
                            Err(place) => Err(place),
                            Ok((elements, q)) => {
                                closed(ts, q, Symbol::Rpar, ExpressionModel::Tuple { elements })
                            },
                        }
                    } else {
                        closed(ts, p, Symbol::Rpar, first)
                    }
                },
            }
        }
    }
}

/// A list.
#[verifier::opaque]
pub open spec fn brackets(ts: Tokens, at: int) -> Parsed<ExpressionModel>
    decreases ts.len() - at, 4nat,
{
    if !is_symbol(ts, at, Symbol::Lsqb) {
        Err(at)
    } else {
        if is_symbol(ts, at + 1, Symbol::Rsqb) {
            Ok((ExpressionModel::List { elements: seq![] }, at + 2))
        } else {
            match beyond(element(ts, at + 1, false), at, ts) {
                Err(place) => Err(place),
                Ok((first, p)) => {
                    if is_symbol(ts, p, Symbol::For) {
                        match beyond(generators(ts, p, seq![]), at, ts) {
                            Err(place) => Err(place),
                            Ok((generators, q)) => {
                                let kind = ComprehensionKindModel::List { element: first };
                                closed(
                                    ts,
                                    q,
                                    Symbol::Rsqb,
                                    ExpressionModel::Comprehension {
                                        kind: Box::new(kind),
                                        generators,
                                    },
                                )
                            },
                        }
                    } else {
                        match beyond(more_elements(ts, p, seq![first], false), at, ts) {
                            Err(place) => Err(place),
                            Ok((elements, q)) => {
                                closed(ts, q, Symbol::Rsqb, ExpressionModel::List { elements })
                            },
                        }
                    }
                },
            }
        }
    }
}

/// A dictionary, or a set.
#[verifier::opaque]
pub open spec fn braces(ts: Tokens, at: int) -> Parsed<ExpressionModel>
    decreases ts.len() - at, 4nat,
{
    if !is_symbol(ts, at, Symbol::Lbrace) {
        Err(at)
    } else {
        if is_symbol(ts, at + 1, Symbol::Rbrace) {
            Ok((ExpressionModel::Dict { elements: seq![] }, at + 2))
        } else {
            match beyond(element(ts, at + 1, false), at, ts) {
                Err(place) => Err(place),
                Ok((first, p)) => {
                    if is_symbol(ts, p, Symbol::Colon) && !is_symbol(ts, at + 1, Symbol::Star) {
                        match beyond(test(ts, p + 1), at, ts) {
                            Err(place) => Err(place),
                            Ok((value, q)) => {
                                if is_symbol(ts, q, Symbol::For) {
                                    match beyond(generators(ts, q, seq![]), at, ts) {
                                        Err(place) => Err(place),
                                        Ok((generators, r)) => {
                                            let kind = ComprehensionKindModel::Dict {
                                                key: first,
                                                value,
                                            };
                                            closed(
                                                ts,
                                                r,
                                                Symbol::Rbrace,
                                                ExpressionModel::Comprehension {
                                                    kind: Box::new(kind),
                                                    generators,
                                                },
                                            )
                                        },
                                    }
                                } else {
                                    match beyond(more_pairs(ts, q, seq![(first, value)]), at, ts) {
                                        Err(place) => Err(place),
                                        Ok((elements, r)) => {
                                            closed(
                                                ts,
                                                r,
                                                Symbol::Rbrace,
                                                ExpressionModel::Dict { elements },
                                            )
                                        },
                                    }
                                }
                            },
                        }
                    } else if is_symbol(ts, p, Symbol::For) {
                        match beyond(generators(ts, p, seq![]), at, ts) {
                            Err(place) => Err(place),
                            Ok((generators, q)) => {
                                let kind = ComprehensionKindModel::SetBuilder { element: first };
                                closed(
                                    ts,
                                    q,
                                    Symbol::Rbrace,
                                    ExpressionModel::Comprehension {
                                        kind: Box::new(kind),
                                        generators,
                                    },
                                )
                            },
                        }
                    } else {
                        match beyond(more_elements(ts, p, seq![first], false), at, ts) {
                            Err(place) => Err(place),
                            Ok((elements, q)) => {
                                closed(
                                    ts,
                                    q,
                                    Symbol::Rbrace,
                                    ExpressionModel::SetLiteral { elements },
                                )
                            },
                        }
                    }
                },
            }
        }
    }
}

/// The pairs of a dictionary that follow, each behind a comma.
#[verifier::opaque]
pub open spec fn more_pairs(
    ts: Tokens,
    at: int,
    pairs: Seq<(ExpressionModel, ExpressionModel)>,
) -> Parsed<Seq<(ExpressionModel, ExpressionModel)>>
    decreases ts.len() - at, 0nat,
{
    if is_symbol(ts, at, Symbol::Comma) && starts(ts, at + 1) {
        match beyond(test(ts, at + 1), at, ts) {
            Err(place) => Err(place),
            Ok((key, p)) => {
                if !is_symbol(ts, p, Symbol::Colon) {
                    Err(p)
                } else {
                    match beyond(test(ts, p + 1), at, ts) {
                        Err(place) => Err(place),
                        Ok((value, q)) => {
                            more_pairs(ts, q, pairs.push((key, value)))
                        },
                    }
                }
            },
        }
    } else if is_symbol(ts, at, Symbol::Comma) {
        Ok((pairs, at + 1))
    } else {
        Ok((pairs, at))
    }
}

/// The `for` clauses of a comprehension, one at least.
#[verifier::opaque]
pub open spec fn generators(ts: Tokens, at: int, clauses: Seq<ComprehensionModel>) -> Parsed<
    Seq<ComprehensionModel>,
>
    decreases ts.len() - at, 0nat,
{
    if !is_symbol(ts, at, Symbol::For) {
        Err(at)
    } else {
        match beyond(testlist(ts, at + 1, true), at, ts) {
            Err(place) => Err(place),
            Ok((target, p)) => {
                if !is_symbol(ts, p, Symbol::In) {
                    Err(p)
                } else {
                    match beyond(operation(ts, p + 1, 0), at, ts) {
                        Err(place) => Err(place),
                        Ok((iter, q)) => {
                            match beyond(conditions(ts, q, seq![]), at, ts) {
                                Err(place) => Err(place),
                                Ok((ifs, r)) => {
                                    let clauses = clauses.push(
                                        ComprehensionModel { target, iter, ifs },
                                    );
                                    if is_symbol(ts, r, Symbol::For) {
                                        generators(ts, r, clauses)
                                    } else {
                                        Ok((clauses, r))
                                    }
                                },
                            }
                        },
                    }
                }
            },
        }
    }
}

/// The `if` clauses of a comprehension.
#[verifier::opaque]
pub open spec fn conditions(ts: Tokens, at: int, ifs: Seq<ExpressionModel>) -> Parsed<
    Seq<ExpressionModel>,
>
    decreases ts.len() - at, 0nat,
{
    if is_symbol(ts, at, Symbol::If) {
        match beyond(operation(ts, at + 1, 0), at, ts) {
            Err(place) => Err(place),
            Ok((condition, p)) => {
                conditions(ts, p, ifs.push(condition))
            },
        }
    } else {
        Ok((ifs, at))
    }
}

/// What a `yield` hands out.
#[verifier::opaque]
pub open spec fn yield_expression(ts: Tokens, at: int) -> Parsed<ExpressionModel>
    decreases ts.len() - at, 3nat,
{
    if !is_symbol(ts, at, Symbol::Yield) {
        Err(at)
    } else {
        if is_symbol(ts, at + 1, Symbol::From) {
            match beyond(test(ts, at + 2), at, ts) {
                Err(place) => Err(place),
                Ok((value, p)) => {
                    Ok((ExpressionModel::YieldFrom { expression: Box::new(value) }, p))
                },
            }
        } else if starts(ts, at + 1) {
            match beyond(testlist(ts, at + 1, false), at, ts) {
                Err(place) => Err(place),
                Ok((value, p)) => {
                    Ok((ExpressionModel::Yield { expression: Some(Box::new(value)) }, p))
                },
            }
        } else {
            Ok((ExpressionModel::Yield { expression: None }, at + 1))
        }
    }
}

/// The subscripts between brackets. With a comma they are a tuple.
#[verifier::opaque]
pub open spec fn subscripts(ts: Tokens, at: int) -> Parsed<ExpressionModel>
    decreases ts.len() - at, 35nat,
{
    match beyond(subscript(ts, at), at, ts) {
        Err(place) => Err(place),
        Ok((first, p)) => {
            if is_symbol(ts, p, Symbol::Comma) {
                match beyond(more_subscripts(ts, p, seq![first]), at, ts) {
                    Err(place) => Err(place),
                    Ok((elements, q)) => {
                        Ok((ExpressionModel::Tuple { elements }, q))
                    },
                }
            } else {
                Ok((first, p))
            }
        },
    }
}

/// The subscripts that follow, each behind a comma.
#[verifier::opaque]
pub open spec fn more_subscripts(ts: Tokens, at: int, elements: Seq<ExpressionModel>) -> Parsed<
    Seq<ExpressionModel>,
>
    decreases ts.len() - at, 0nat,
{
    if is_symbol(ts, at, Symbol::Comma) && (starts(ts, at + 1) || is_symbol(
        ts,
        at + 1,
        Symbol::Colon,
    )) {
        match beyond(subscript(ts, at + 1), at, ts) {
            Err(place) => Err(place),
            Ok((next, p)) => {
                more_subscripts(ts, p, elements.push(next))
            },
        }
    } else if is_symbol(ts, at, Symbol::Comma) {
        Ok((elements, at + 1))
    } else {
        Ok((elements, at))
    }
}

/// A subscript: an expression, or a slice.
#[verifier::opaque]
pub open spec fn subscript(ts: Tokens, at: int) -> Parsed<ExpressionModel>
    decreases ts.len() - at, 33nat,
{
    if is_symbol(ts, at, Symbol::Colon) {
        slice(ts, at, ExpressionModel::NoneValue)
    } else {
        match beyond(test(ts, at), at, ts) {
            Err(place) => Err(place),
            Ok((first, p)) => {
                if is_symbol(ts, p, Symbol::Colon) {
                    slice(ts, p, first)
                } else {
                    Ok((first, p))
                }
            },
        }
    }
}

/// The rest of a slice: its end and its step, of which each may be absent.
#[verifier::opaque]
pub open spec fn slice(ts: Tokens, at: int, lower: ExpressionModel) -> Parsed<ExpressionModel>
    decreases ts.len() - at, 1nat,
{
    if !is_symbol(ts, at, Symbol::Colon) {
        Err(at)
    } else {
        match beyond(bound(ts, at + 1), at, ts) {
            Err(place) => Err(place),
            Ok((upper, p)) => {
                if is_symbol(ts, p, Symbol::Colon) {
                    match beyond(bound(ts, p + 1), at, ts) {
                        Err(place) => Err(place),
                        Ok((step, q)) => {
                            Ok((ExpressionModel::Slice { elements: seq![lower, upper, step] }, q))
                        },
                    }
                } else {
                    let step = ExpressionModel::NoneValue;
                    Ok((ExpressionModel::Slice { elements: seq![lower, upper, step] }, p))
                }
            },
        }
    }
}

/// A bound of a slice, if there is one.
#[verifier::opaque]
pub open spec fn bound(ts: Tokens, at: int) -> Parsed<ExpressionModel>
    decreases ts.len() - at, 31nat,
{
    if starts(ts, at) {
        test(ts, at)
    } else {
        Ok((ExpressionModel::NoneValue, at))
    }
}

/// The arguments of a call.
#[verifier::ext_equal]
pub struct ArgumentsModel {
    pub args: Seq<ExpressionModel>,
    pub keywords: Seq<KeywordModel>,
}

pub open spec fn no_arguments() -> ArgumentsModel {
    ArgumentsModel { args: seq![], keywords: seq![] }
}

/// The arguments up to the closing parenthesis.
#[verifier::opaque]
pub open spec fn arguments(ts: Tokens, at: int, given: ArgumentsModel) -> Parsed<ArgumentsModel>
    decreases ts.len() - at, 34nat,
{
    if is_symbol(ts, at, Symbol::Rpar) {
        Ok((given, at + 1))
    } else {
        match beyond(argument(ts, at, given), at, ts) {
            Err(place) => Err(place),
            Ok((given, p)) => {
                if is_symbol(ts, p, Symbol::Comma) {
                    arguments(ts, p + 1, given)
                } else {
                    closed(ts, p, Symbol::Rpar, given)
                }
            },
        }
    }
}

/// One argument, added to those before it.
#[verifier::opaque]
pub open spec fn argument(ts: Tokens, at: int, given: ArgumentsModel) -> Parsed<ArgumentsModel>
    decreases ts.len() - at, 33nat,
{
    if is_symbol(ts, at, Symbol::Star) {
        match beyond(test(ts, at + 1), at, ts) {
            Err(place) => Err(place),
            Ok((value, p)) => {
                let value = ExpressionModel::Starred { value: Box::new(value) };
                Ok((ArgumentsModel { args: given.args.push(value), ..given }, p))
            },
        }
    } else if is_symbol(ts, at, Symbol::DoubleStar) {
        match beyond(test(ts, at + 1), at, ts) {
            Err(place) => Err(place),
            Ok((value, p)) => {
                let keyword = KeywordModel { name: None, value };
                Ok((ArgumentsModel { keywords: given.keywords.push(keyword), ..given }, p))
            },
        }
    } else if is_name(ts, at) && is_symbol(ts, at + 1, Symbol::Equal) {
        match beyond(name(ts, at), at, ts) {
            Err(place) => Err(place),
            Ok((name, p)) => {
                match beyond(test(ts, at + 2), at, ts) {
                    Err(place) => Err(place),
                    Ok((value, q)) => {
                        let keyword = KeywordModel { name: Some(name), value };
                        Ok((ArgumentsModel { keywords: given.keywords.push(keyword), ..given }, q))
                    },
                }
            },
        }
    } else {
        match beyond(test(ts, at), at, ts) {
            Err(place) => Err(place),
            Ok((value, p)) => {
                if is_symbol(ts, p, Symbol::For) {
                    match beyond(generators(ts, p, seq![]), at, ts) {
                        Err(place) => Err(place),
                        Ok((generators, q)) => {
                            let kind = ComprehensionKindModel::GeneratorExpression {
                                element: value,
                            };
                            let value = ExpressionModel::Comprehension {
                                kind: Box::new(kind),
                                generators,
                            };
                            Ok((ArgumentsModel { args: given.args.push(value), ..given }, q))
                        },
                    }
                } else {
                    Ok((ArgumentsModel { args: given.args.push(value), ..given }, p))
                }
            },
        }
    }
}

pub open spec fn no_parameters() -> ParametersModel {
    ParametersModel {
        args: seq![],
        kwonlyargs: seq![],
        vararg: None,
        kwarg: None,
        defaults: seq![],
        kw_defaults: seq![],
    }
}

/// The parameters of a function. Without a default none may follow one with a default.
#[verifier::opaque]
pub open spec fn parameters(ts: Tokens, at: int, given: ParametersModel) -> Parsed<ParametersModel>
    decreases ts.len() - at, 34nat,
{
    if is_name(ts, at) || is_symbol(ts, at, Symbol::Star) {
        match beyond(parameter(ts, at, given), at, ts) {
            Err(place) => Err(place),
            Ok((given, p)) => {
                if is_symbol(ts, p, Symbol::Comma) {
                    parameters(ts, p + 1, given)
                } else {
                    Ok((given, p))
                }
            },
        }
    } else if is_symbol(ts, at, Symbol::DoubleStar) {
        match beyond(name(ts, at + 1), at, ts) {
            Err(place) => Err(place),
            Ok((name, p)) => {
                Ok((ParametersModel { kwarg: Some(Some(name)), ..given }, p))
            },
        }
    } else {
        Ok((given, at))
    }
}

/// One parameter, added to those before it.
#[verifier::opaque]
pub open spec fn parameter(ts: Tokens, at: int, given: ParametersModel) -> Parsed<ParametersModel>
    decreases ts.len() - at, 33nat,
{
    if is_symbol(ts, at, Symbol::Star) {
        if given.vararg is Some {
            Err(at)
        } else if is_name(ts, at + 1) {
            match beyond(name(ts, at + 1), at, ts) {
                Err(place) => Err(place),
                Ok((name, p)) => {
                    Ok((ParametersModel { vararg: Some(Some(name)), ..given }, p))
                },
            }
        } else {
            Ok((ParametersModel { vararg: Some(None), ..given }, at + 1))
        }
    } else {
        match beyond(name(ts, at), at, ts) {
            Err(place) => Err(place),
            Ok((name, p)) => {
                if is_symbol(ts, p, Symbol::Equal) {
                    match beyond(test(ts, p + 1), at, ts) {
                        Err(place) => Err(place),
                        Ok((value, q)) => {
                            if given.vararg is Some {
                                let kwonlyargs = given.kwonlyargs.push(name);
                                let kw_defaults = given.kw_defaults.push(Some(value));
                                Ok((ParametersModel { kwonlyargs, kw_defaults, ..given }, q))
                            } else {
                                let args = given.args.push(name);
                                let defaults = given.defaults.push(value);
                                Ok((ParametersModel { args, defaults, ..given }, q))
                            }
                        },
                    }
                } else if given.vararg is Some {
                    let kwonlyargs = given.kwonlyargs.push(name);
                    let kw_defaults = given.kw_defaults.push(None);
                    Ok((ParametersModel { kwonlyargs, kw_defaults, ..given }, p))
                } else if given.defaults.len() > 0 {
                    Err(at)
                } else {
                    Ok((ParametersModel { args: given.args.push(name), ..given }, p))
                }
            },
        }
    }
}

// ---------------------------------------------------------------------------------------------
// Statements of one line.

/// What stands behind an assignment's sign.
#[verifier::opaque]
pub open spec fn assigned(ts: Tokens, at: int) -> Parsed<ExpressionModel> {
    if is_symbol(ts, at, Symbol::Yield) {
        yield_expression(ts, at)
    } else {
        testlist(ts, at, false)
    }
}

/// An assignment, whose last expression is its value.
#[verifier::opaque]
pub open spec fn assignment(
    ts: Tokens,
    at: int,
    targets: Seq<ExpressionModel>,
    value: ExpressionModel,
) -> Parsed<StatementModel>
    decreases ts.len() - at,
{
    if is_symbol(ts, at, Symbol::Equal) {
        match beyond(assigned(ts, at + 1), at, ts) {
            Err(place) => Err(place),
            Ok((next, p)) => {
                assignment(ts, p, targets.push(value), next)
            },
        }
    } else {
        Ok((StatementModel::Assign { targets, value }, at))
    }
}

/// A statement that begins with an expression.
#[verifier::opaque]
pub open spec fn expression_statement(ts: Tokens, at: int) -> Parsed<StatementModel> {
    match assigned(ts, at) {
        Err(place) => Err(place),
        Ok((first, p)) => {
            match augmented(ts, p) {
                Some(op) => {
                    match assigned(ts, p + 1) {
                        Err(place) => Err(place),
                        Ok((value, q)) => {
                            Ok((StatementModel::AugAssign { target: first, op, value }, q))
                        },
                    }
                },
                None => if is_symbol(ts, p, Symbol::Equal) {
                    assignment(ts, p, seq![], first)
                } else {
                    Ok((StatementModel::Expression { expression: first }, p))
                },
            }
        },
    }
}

/// Names separated by commas.
#[verifier::opaque]
pub open spec fn names(ts: Tokens, at: int, found: Seq<Seq<char>>) -> Parsed<Seq<Seq<char>>>
    decreases ts.len() - at,
{
    match beyond(name(ts, at), at, ts) {
        Err(place) => Err(place),
        Ok((name, p)) => {
            if is_symbol(ts, p, Symbol::Comma) {
                names(ts, p + 1, found.push(name))
            } else {
                Ok((found.push(name), p))
            }
        },
    }
}

/// The rest of a name with dots.
#[verifier::opaque]
pub open spec fn more_dotted(ts: Tokens, at: int, text: Seq<char>) -> Parsed<Seq<char>>
    decreases ts.len() - at,
{
    if is_symbol(ts, at, Symbol::Dot) {
        match beyond(name(ts, at + 1), at, ts) {
            Err(place) => Err(place),
            Ok((part, p)) => {
                more_dotted(ts, p, text.push('.') + part)
            },
        }
    } else {
        Ok((text, at))
    }
}

/// A name with dots.
#[verifier::opaque]
pub open spec fn dotted(ts: Tokens, at: int) -> Parsed<Seq<char>> {
    match name(ts, at) {
        Err(place) => Err(place),
        Ok((first, p)) => {
            more_dotted(ts, p, first)
        },
    }
}

/// The other name that something is given, if it is given one.
#[verifier::opaque]
pub open spec fn alias(ts: Tokens, at: int) -> Parsed<Option<Seq<char>>> {
    if is_symbol(ts, at, Symbol::As) {
        match name(ts, at + 1) {
            Err(place) => Err(place),
            Ok((name, p)) => {
                Ok((Some(name), p))
            },
        }
    } else {
        Ok((None, at))
    }
}

/// The modules of an import, separated by commas.
#[verifier::opaque]
pub open spec fn modules(ts: Tokens, at: int, found: Seq<SingleImportModel>) -> Parsed<
    Seq<SingleImportModel>,
>
    decreases ts.len() - at,
{
    match beyond(dotted(ts, at), at, ts) {
        Err(place) => Err(place),
        Ok((module, p)) => {
            match beyond(alias(ts, p), at, ts) {
                Err(place) => Err(place),
                Ok((alias, q)) => {
                    let found = found.push(SingleImportModel { module, symbol: None, alias });
                    if is_symbol(ts, q, Symbol::Comma) {
                        modules(ts, q + 1, found)
                    } else {
                        Ok((found, q))
                    }
                },
            }
        },
    }
}

/// The symbols that are imported from a module, separated by commas.
#[verifier::opaque]
pub open spec fn symbols(
    ts: Tokens,
    at: int,
    module: Seq<char>,
    found: Seq<SingleImportModel>,
) -> Parsed<Seq<SingleImportModel>>
    decreases ts.len() - at,
{
    match beyond(name(ts, at), at, ts) {
        Err(place) => Err(place),
        Ok((symbol, p)) => {
            match beyond(alias(ts, p), at, ts) {
                Err(place) => Err(place),
                Ok((alias, q)) => {
                    let found = found.push(
                        SingleImportModel { module, symbol: Some(symbol), alias },
                    );
                    if is_symbol(ts, q, Symbol::Comma) && is_name(ts, q + 1) {
                        symbols(ts, q + 1, module, found)
                    } else {
                        Ok((found, q))
                    }
                },
            }
        },
    }
}

/// An import from a module.
#[verifier::opaque]
pub open spec fn from_import(ts: Tokens, at: int) -> Parsed<StatementModel> {
    match dotted(ts, at + 1) {
        Err(place) => Err(place),
        Ok((module, p)) => {
            if !is_symbol(ts, p, Symbol::Import) {
                Err(p)
            } else {
                if is_symbol(ts, p + 1, Symbol::Star) {
                    let part = SingleImportModel { module, symbol: Some("*"@), alias: None };
                    Ok((StatementModel::Import { import_parts: seq![part] }, p + 2))
                } else if is_symbol(ts, p + 1, Symbol::Lpar) {
                    match symbols(ts, p + 2, module, seq![]) {
                        Err(place) => Err(place),
                        Ok((import_parts, q)) => {
                            let q = if is_symbol(ts, q, Symbol::Comma) {
                                q + 1
                            } else {
                                q
                            };
                            closed(ts, q, Symbol::Rpar, StatementModel::Import { import_parts })
                        },
                    }
                } else {
                    match symbols(ts, p + 1, module, seq![]) {
                        Err(place) => Err(place),
                        Ok((import_parts, q)) => {
                            Ok((StatementModel::Import { import_parts }, q))
                        },
                    }
                }
            }
        },
    }
}

#[verifier::opaque]
pub open spec fn return_statement(ts: Tokens, at: int) -> Parsed<StatementModel> {
    if starts(ts, at + 1) {
        match testlist(ts, at + 1, false) {
            Err(place) => Err(place),
            Ok((value, p)) => {
                Ok((StatementModel::Return { value: Some(value) }, p))
            },
        }
    } else {
        Ok((StatementModel::Return { value: None }, at + 1))
    }
}

#[verifier::opaque]
pub open spec fn raise_statement(ts: Tokens, at: int) -> Parsed<StatementModel> {
    if starts(ts, at + 1) {
        match test(ts, at + 1) {
            Err(place) => Err(place),
            Ok((exception, p)) => {
                if is_symbol(ts, p, Symbol::From) {
                    match test(ts, p + 1) {
                        Err(place) => Err(place),
                        Ok((cause, q)) => {
                            Ok(
                                (StatementModel::Raise {
                                    exception: Some(exception),
                                    cause: Some(cause),
                                }, q),
                            )
                        },
                    }
                } else {
                    Ok((StatementModel::Raise { exception: Some(exception), cause: None }, p))
                }
            },
        }
    } else {
        Ok((StatementModel::Raise { exception: None, cause: None }, at + 1))
    }
}

#[verifier::opaque]
pub open spec fn assert_statement(ts: Tokens, at: int) -> Parsed<StatementModel> {
    match test(ts, at + 1) {
        Err(place) => Err(place),
        Ok((condition, p)) => {
            if is_symbol(ts, p, Symbol::Comma) {
                match test(ts, p + 1) {
                    Err(place) => Err(place),
                    Ok((msg, q)) => {
                        Ok((StatementModel::Assert { test: condition, msg: Some(msg) }, q))
                    },
                }
            } else {
                Ok((StatementModel::Assert { test: condition, msg: None }, p))
            }
        },
    }
}

#[verifier::opaque]
pub open spec fn delete_statement(ts: Tokens, at: int) -> Parsed<StatementModel> {
    match element(ts, at + 1, true) {
        Err(place) => Err(place),
        Ok((first, p)) => {
            match more_elements(ts, p, seq![first], true) {
                Err(place) => Err(place),
                Ok((targets, q)) => {
                    Ok((StatementModel::Delete { targets }, q))
                },
            }
        },
    }
}

/// A statement that holds no other.
#[verifier::opaque]
pub open spec fn small_statement(ts: Tokens, at: int) -> Parsed<StatementModel> {
    match symbol_at(ts, at) {
        Some(Symbol::Pass) => Ok((StatementModel::Pass, at + 1)),
        Some(Symbol::Break) => Ok((StatementModel::Break, at + 1)),
        Some(Symbol::Continue) => Ok((StatementModel::Continue, at + 1)),
        Some(Symbol::Return) => return_statement(ts, at),
        Some(Symbol::Raise) => raise_statement(ts, at),
        Some(Symbol::Assert) => assert_statement(ts, at),
        Some(Symbol::Del) => delete_statement(ts, at),
        Some(Symbol::Global) => {
            match names(ts, at + 1, seq![]) {
                Err(place) => Err(place),
                Ok((names, p)) => {
                    Ok((StatementModel::Global { names }, p))
                },
            }
        },
        Some(Symbol::Nonlocal) => {
            match names(ts, at + 1, seq![]) {
                Err(place) => Err(place),
                Ok((names, p)) => {
                    Ok((StatementModel::Nonlocal { names }, p))
                },
            }
        },
        Some(Symbol::Import) => {
            match modules(ts, at + 1, seq![]) {
                Err(place) => Err(place),
                Ok((import_parts, p)) => {
                    Ok((StatementModel::Import { import_parts }, p))
                },
            }
        },
        Some(Symbol::From) => from_import(ts, at),
        _ => expression_statement(ts, at),
    }
}

/// A statement with the place of its first token.
pub open spec fn located(ts: Tokens, at: int, node: StatementModel) -> LocatedStatementModel {
    LocatedStatementModel { location: ts[at].start, node }
}

/// The statements of one line, separated by semicolons, with the end of the line.
#[verifier::opaque]
pub open spec fn line(ts: Tokens, at: int, found: Seq<LocatedStatementModel>) -> Parsed<
    Seq<LocatedStatementModel>,
>
    decreases ts.len() - at,
{
    match beyond(small_statement(ts, at), at, ts) {
        Err(place) => Err(place),
        Ok((node, p)) => {
            let found = found.push(located(ts, at, node));
            if is_symbol(ts, p, Symbol::Semi) && !is_symbol(ts, p + 1, Symbol::Newline) {
                line(ts, p + 1, found)
            } else if is_symbol(ts, p, Symbol::Semi) {
                Ok((found, p + 2))
            } else {
                closed(ts, p, Symbol::Newline, found)
            }
        },
    }
}

// ---------------------------------------------------------------------------------------------
// Statements that hold others.

/// The statements behind a colon: those of the line, or an indented block.
#[verifier::opaque]
pub open spec fn block(ts: Tokens, at: int) -> Parsed<Seq<LocatedStatementModel>>
    decreases ts.len() - at, 1nat,
{
    if !is_symbol(ts, at, Symbol::Colon) {
        Err(at)
    } else {
        if is_symbol(ts, at + 1, Symbol::Newline) {
            if !is_symbol(ts, at + 2, Symbol::Indent) {
                Err(at + 2)
            } else {
                match beyond(statement(ts, at + 3), at, ts) {
                    Err(place) => Err(place),
                    Ok((first, p)) => {
                        more_statements(ts, p, first)
                    },
                }
            }
        } else {
            line(ts, at + 1, seq![])
        }
    }
}

/// The statements of a block that follow, up to its end.
#[verifier::opaque]
pub open spec fn more_statements(ts: Tokens, at: int, found: Seq<LocatedStatementModel>) -> Parsed<
    Seq<LocatedStatementModel>,
>
    decreases ts.len() - at, 9nat,
{
    if is_symbol(ts, at, Symbol::Dedent) {
        Ok((found, at + 1))
    } else {
        match beyond(statement(ts, at), at, ts) {
            Err(place) => Err(place),
            Ok((next, p)) => {
                more_statements(ts, p, found + next)
            },
        }
    }
}

/// A block behind a keyword, if the keyword is there.
#[verifier::opaque]
pub open spec fn optional_block(ts: Tokens, at: int, keyword: Symbol) -> Parsed<
    Option<Seq<LocatedStatementModel>>,
>
    decreases ts.len() - at, 2nat,
{
    if is_symbol(ts, at, keyword) {
        match beyond(block(ts, at + 1), at, ts) {
            Err(place) => Err(place),
            Ok((body, p)) => {
                Ok((Some(body), p))
            },
        }
    } else {
        Ok((None, at))
    }
}

#[verifier::opaque]
pub open spec fn if_statement(ts: Tokens, at: int) -> Parsed<StatementModel>
    decreases ts.len() - at, 3nat,
{
    match beyond(test(ts, at + 1), at, ts) {
        Err(place) => Err(place),
        Ok((condition, p)) => {
            match beyond(block(ts, p), at, ts) {
                Err(place) => Err(place),
                Ok((body, q)) => {
                    if is_symbol(ts, q, Symbol::Elif) {
                        match beyond(if_statement(ts, q), at, ts) {
                            Err(place) => Err(place),
                            Ok((nested, r)) => {
                                let orelse = Some(seq![located(ts, q, nested)]);
                                Ok((StatementModel::If { test: condition, body, orelse }, r))
                            },
                        }
                    } else {
                        match beyond(optional_block(ts, q, Symbol::Else), at, ts) {
                            Err(place) => Err(place),
                            Ok((orelse, r)) => {
                                Ok((StatementModel::If { test: condition, body, orelse }, r))
                            },
                        }
                    }
                },
            }
        },
    }
}

#[verifier::opaque]
pub open spec fn while_statement(ts: Tokens, at: int) -> Parsed<StatementModel>
    decreases ts.len() - at, 3nat,
{
    match beyond(test(ts, at + 1), at, ts) {
        Err(place) => Err(place),
        Ok((condition, p)) => {
            match beyond(block(ts, p), at, ts) {
                Err(place) => Err(place),
                Ok((body, q)) => {
                    match beyond(optional_block(ts, q, Symbol::Else), at, ts) {
                        Err(place) => Err(place),
                        Ok((orelse, r)) => {
                            Ok((StatementModel::While { test: condition, body, orelse }, r))
                        },
                    }
                },
            }
        },
    }
}

#[verifier::opaque]
pub open spec fn for_statement(ts: Tokens, at: int) -> Parsed<StatementModel>
    decreases ts.len() - at, 3nat,
{
    match beyond(testlist(ts, at + 1, true), at, ts) {
        Err(place) => Err(place),
        Ok((target, p)) => {
            if !is_symbol(ts, p, Symbol::In) {
                Err(p)
            } else {
                match beyond(testlist(ts, p + 1, false), at, ts) {
                    Err(place) => Err(place),
                    Ok((iter, q)) => {
                        match beyond(block(ts, q), at, ts) {
                            Err(place) => Err(place),
                            Ok((body, r)) => {
                                match beyond(optional_block(ts, r, Symbol::Else), at, ts) {
                                    Err(place) => Err(place),
                                    Ok((orelse, s)) => {
                                        Ok((StatementModel::For { target, iter, body, orelse }, s))
                                    },
                                }
                            },
                        }
                    },
                }
            }
        },
    }
}

/// The handlers of a `try`.
#[verifier::opaque]
pub open spec fn handlers(ts: Tokens, at: int, found: Seq<ExceptHandlerModel>) -> Parsed<
    Seq<ExceptHandlerModel>,
>
    decreases ts.len() - at, 2nat,
{
    if !is_symbol(ts, at, Symbol::Except) {
        Ok((found, at))
    } else if is_symbol(ts, at + 1, Symbol::Colon) {
        match beyond(block(ts, at + 1), at, ts) {
            Err(place) => Err(place),
            Ok((body, p)) => {
                handlers(ts, p, found.push(ExceptHandlerModel { typ: None, name: None, body }))
            },
        }
    } else {
        match beyond(test(ts, at + 1), at, ts) {
            Err(place) => Err(place),
            Ok((typ, p)) => {
                match beyond(alias(ts, p), at, ts) {
                    Err(place) => Err(place),
                    Ok((name, q)) => {
                        match beyond(block(ts, q), at, ts) {
                            Err(place) => Err(place),
                            Ok((body, r)) => {
                                handlers(
                                    ts,
                                    r,
                                    found.push(ExceptHandlerModel { typ: Some(typ), name, body }),
                                )
                            },
                        }
                    },
                }
            },
        }
    }
}

/// A `try` has a handler or a block that runs in any case.
#[verifier::opaque]
pub open spec fn try_statement(ts: Tokens, at: int) -> Parsed<StatementModel>
    decreases ts.len() - at, 3nat,
{
    if !is_symbol(ts, at, Symbol::Try) {
        Err(at)
    } else {
        match beyond(block(ts, at + 1), at, ts) {
            Err(place) => Err(place),
            Ok((body, p)) => {
                match beyond(handlers(ts, p, seq![]), at, ts) {
                    Err(place) => Err(place),
                    Ok((handlers, q)) => {
                        if handlers.len() == 0 {
                            if !is_symbol(ts, q, Symbol::Finally) {
                                Err(q)
                            } else {
                                match beyond(block(ts, q + 1), at, ts) {
                                    Err(place) => Err(place),
                                    Ok((finalbody, r)) => {
                                        let finalbody = Some(finalbody);
                                        Ok(
                                            (StatementModel::Try {
                                                body,
                                                handlers,
                                                orelse: None,
                                                finalbody,
                                            }, r),
                                        )
                                    },
                                }
                            }
                        } else {
                            match beyond(optional_block(ts, q, Symbol::Else), at, ts) {
                                Err(place) => Err(place),
                                Ok((orelse, r)) => {
                                    match beyond(optional_block(ts, r, Symbol::Finally), at, ts) {
                                        Err(place) => Err(place),
                                        Ok((finalbody, s)) => {
                                            Ok(
                                                (StatementModel::Try {
                                                    body,
                                                    handlers,
                                                    orelse,
                                                    finalbody,
                                                }, s),
                                            )
                                        },
                                    }
                                },
                            }
                        }
                    },
                }
            },
        }
    }
}

/// The context managers of a `with`, separated by commas.
#[verifier::opaque]
pub open spec fn with_items(ts: Tokens, at: int, found: Seq<WithItemModel>) -> Parsed<
    Seq<WithItemModel>,
>
    decreases ts.len() - at,
{
    match beyond(with_item(ts, at), at, ts) {
        Err(place) => Err(place),
        Ok((item, p)) => {
            if is_symbol(ts, p, Symbol::Comma) {
                with_items(ts, p + 1, found.push(item))
            } else {
                Ok((found.push(item), p))
            }
        },
    }
}

#[verifier::opaque]
pub open spec fn with_item(ts: Tokens, at: int) -> Parsed<WithItemModel> {
    match test(ts, at) {
        Err(place) => Err(place),
        Ok((context_expr, p)) => {
            if is_symbol(ts, p, Symbol::As) {
                match operation(ts, p + 1, BITWISE) {
                    Err(place) => Err(place),
                    Ok((target, q)) => {
                        Ok((WithItemModel { context_expr, optional_vars: Some(target) }, q))
                    },
                }
            } else {
                Ok((WithItemModel { context_expr, optional_vars: None }, p))
            }
        },
    }
}

#[verifier::opaque]
pub open spec fn with_statement(ts: Tokens, at: int) -> Parsed<StatementModel>
    decreases ts.len() - at, 3nat,
{
    match beyond(with_items(ts, at + 1, seq![]), at, ts) {
        Err(place) => Err(place),
        Ok((items, p)) => {
            match beyond(block(ts, p), at, ts) {
                Err(place) => Err(place),
                Ok((body, q)) => {
                    Ok((StatementModel::With { items, body }, q))
                },
            }
        },
    }
}

/// A function or a class.
#[verifier::opaque]
pub open spec fn definition(ts: Tokens, at: int, decorators: Seq<ExpressionModel>) -> Parsed<
    LocatedStatementModel,
>
    decreases ts.len() - at, 3nat,
{
    if is_symbol(ts, at, Symbol::Def) {
        match beyond(name(ts, at + 1), at, ts) {
            Err(place) => Err(place),
            Ok((name, p)) => {
                if !is_symbol(ts, p, Symbol::Lpar) {
                    Err(p)
                } else {
                    match beyond(parameters(ts, p + 1, no_parameters()), at, ts) {
                        Err(place) => Err(place),
                        Ok((args, q)) => {
                            if !is_symbol(ts, q, Symbol::Rpar) {
                                Err(q)
                            } else {
                                match beyond(block(ts, q + 1), at, ts) {
                                    Err(place) => Err(place),
                                    Ok((body, r)) => {
                                        let node = StatementModel::FunctionDef {
                                            name,
                                            args,
                                            body,
                                            decorator_list: decorators,
                                        };
                                        Ok((located(ts, at, node), r))
                                    },
                                }
                            }
                        },
                    }
                }
            },
        }
    } else {
        if !is_symbol(ts, at, Symbol::Class) {
            Err(at)
        } else {
            match beyond(name(ts, at + 1), at, ts) {
                Err(place) => Err(place),
                Ok((name, p)) => {
                    match beyond(bases(ts, p), at, ts) {
                        Err(place) => Err(place),
                        Ok((given, q)) => {
                            match beyond(block(ts, q), at, ts) {
                                Err(place) => Err(place),
                                Ok((body, r)) => {
                                    let node = StatementModel::ClassDef {
                                        name,
                                        body,
                                        bases: given.args,
                                        keywords: given.keywords,
                                        decorator_list: decorators,
                                    };
                                    Ok((located(ts, at, node), r))
                                },
                            }
                        },
                    }
                },
            }
        }
    }
}

/// The arguments of a class, if it has any.
#[verifier::opaque]
pub open spec fn bases(ts: Tokens, at: int) -> Parsed<ArgumentsModel> {
    if is_symbol(ts, at, Symbol::Lpar) {
        arguments(ts, at + 1, no_arguments())
    } else {
        Ok((no_arguments(), at))
    }
}

/// A function or a class with the decorators above it.
#[verifier::opaque]
pub open spec fn decorated(ts: Tokens, at: int, decorators: Seq<ExpressionModel>) -> Parsed<
    LocatedStatementModel,
>
    decreases ts.len() - at, 4nat,
{
    if is_symbol(ts, at, Symbol::At) {
        match beyond(atom_expression(ts, at + 1), at, ts) {
            Err(place) => Err(place),
            Ok((decorator, p)) => {
                if !is_symbol(ts, p, Symbol::Newline) {
                    Err(p)
                } else {
                    decorated(ts, p + 1, decorators.push(decorator))
                }
            },
        }
    } else {
        definition(ts, at, decorators)
    }
}

/// Whether a statement that holds others begins at a place.
pub open spec fn is_compound(ts: Tokens, at: int) -> bool {
    match symbol_at(ts, at) {
        Some(Symbol::If) => true,
        Some(Symbol::While) => true,
        Some(Symbol::For) => true,
        Some(Symbol::Try) => true,
        Some(Symbol::With) => true,
        Some(Symbol::Def) => true,
        Some(Symbol::Class) => true,
        Some(Symbol::At) => true,
        _ => false,
    }
}

/// A statement that holds others.
#[verifier::opaque]
pub open spec fn compound(ts: Tokens, at: int) -> Parsed<LocatedStatementModel>
    decreases ts.len() - at, 5nat,
{
    if is_symbol(ts, at, Symbol::If) {
        match beyond(if_statement(ts, at), at, ts) {
            Err(place) => Err(place),
            Ok((node, p)) => {
                Ok((located(ts, at, node), p))
            },
        }
    } else if is_symbol(ts, at, Symbol::While) {
        match beyond(while_statement(ts, at), at, ts) {
            Err(place) => Err(place),
            Ok((node, p)) => {
                Ok((located(ts, at, node), p))
            },
        }
    } else if is_symbol(ts, at, Symbol::For) {
        match beyond(for_statement(ts, at), at, ts) {
            Err(place) => Err(place),
            Ok((node, p)) => {
                Ok((located(ts, at, node), p))
            },
        }
    } else if is_symbol(ts, at, Symbol::Try) {
        match beyond(try_statement(ts, at), at, ts) {
            Err(place) => Err(place),
            Ok((node, p)) => {
                Ok((located(ts, at, node), p))
            },
        }
    } else if is_symbol(ts, at, Symbol::With) {
        match beyond(with_statement(ts, at), at, ts) {
            Err(place) => Err(place),
            Ok((node, p)) => {
                Ok((located(ts, at, node), p))
            },
        }
    } else {
        decorated(ts, at, seq![])
    }
}

/// A statement that holds others, or the statements of a line.
#[verifier::opaque]
pub open spec fn statement(ts: Tokens, at: int) -> Parsed<Seq<LocatedStatementModel>>
    decreases ts.len() - at, 6nat,
{
    if is_compound(ts, at) {
        match beyond(compound(ts, at), at, ts) {
            Err(place) => Err(place),
            Ok((statement, p)) => {
                Ok((seq![statement], p))
            },
        }
    } else {
        line(ts, at, seq![])
    }
}

// ---------------------------------------------------------------------------------------------
// Whole texts.

/// The statements from a place to the end.
#[verifier::opaque]
pub open spec fn program(ts: Tokens, at: int, found: Seq<LocatedStatementModel>) -> Result<
    ProgramModel,
    int,
>
    decreases ts.len() - at,
{
    if at >= ts.len() {
        Ok(ProgramModel { statements: found })
    } else {
        match beyond(statement(ts, at), at, ts) {
            Ok((next, p)) => program(ts, p, found + next),
            Err(place) => Err(place),
        }
    }
}

/// One statement, which ends where the tokens end.
#[verifier::opaque]
pub open spec fn single(ts: Tokens, at: int) -> Result<LocatedStatementModel, int> {
    match statement(ts, at) {
        Ok((found, p)) => if found.len() == 1 && p == ts.len() {
            Ok(found[0])
        } else {
            Err(p)
        },
        Err(place) => Err(place),
    }
}

/// One expression, which ends where the tokens end.
#[verifier::opaque]
pub open spec fn expression(ts: Tokens, at: int) -> Result<ExpressionModel, int> {
    match testlist(ts, at, false) {
        Ok((found, p)) => if p == ts.len() {
            Ok(found)
        } else {
            Err(p)
        },
        Err(place) => Err(place),
    }
}

/// What a text is to be parsed as.
#[derive(Clone, Copy, Debug, PartialEq, Eq, Structural)]
pub enum Start {
    Program,
    Statement,
    Expression,
}

/// What the tokens are parsed as.
pub open spec fn top(start: Start, ts: Tokens) -> Result<TopModel, int> {
    match start {
        Start::Program => match program(ts, 0, seq![]) {
            Ok(program) => Ok(TopModel::Program(program)),
            Err(place) => Err(place),
        },
        Start::Statement => match single(ts, 0) {
            Ok(statement) => Ok(TopModel::Statement(statement)),
            Err(place) => Err(place),
        },
        Start::Expression => match expression(ts, 0) {
            Ok(expression) => Ok(TopModel::Expression(expression)),
            Err(place) => Err(place),
        },
    }
}

} // verus!
