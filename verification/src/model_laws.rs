//! The model of a tree is the tree itself: variant by variant, part by part, in order.
use vstd::prelude::*;

use crate::ast::{
    comprehension_models, expression_models, keyword_models, pair_models, Comprehension,
    ComprehensionKind, ComprehensionKindModel, ComprehensionModel, ExceptHandler,
    ExceptHandlerModel, Expression, ExpressionModel, Keyword, KeywordModel, LocatedStatement,
    LocatedStatementModel, Number, NumberModel, Parameters, Program, SingleImport,
    SingleImportModel, Statement, StatementModel, Top, TopModel, WithItem, WithItemModel,
};
use crate::lexer::Tokenizer;
use crate::parser::{expected_model, spanned_model, SyntaxError, SyntaxErrorModel};
use crate::token::{token_models, LexicalError, Tok, TokModel, Token};

verus! {

/// Whether models are those of expressions, one by one.
pub open spec fn expressions_alike(list: Seq<Expression>, models: Seq<ExpressionModel>) -> bool {
    &&& models.len() == list.len()
    &&& forall|i: int| 0 <= i < list.len() ==> #[trigger] models[i] == list[i].model()
}

/// Whether models are those of keyword arguments, one by one.
pub open spec fn keywords_alike(list: Seq<Keyword>, models: Seq<KeywordModel>) -> bool {
    &&& models.len() == list.len()
    &&& forall|i: int| 0 <= i < list.len() ==> #[trigger] models[i] == list[i].model()
}

/// Whether models are those of clauses, one by one.
pub open spec fn clauses_alike(list: Seq<Comprehension>, models: Seq<ComprehensionModel>) -> bool {
    &&& models.len() == list.len()
    &&& forall|i: int| 0 <= i < list.len() ==> #[trigger] models[i] == list[i].model()
}

/// Whether models are those of statements, one by one.
pub open spec fn statements_alike(list: Seq<LocatedStatement>, models: Seq<LocatedStatementModel>) -> bool {
    &&& models.len() == list.len()
    &&& forall|i: int| 0 <= i < list.len() ==> #[trigger] models[i] == list[i].model()
}

/// Whether models are those of handlers, one by one.
pub open spec fn handlers_alike(list: Seq<ExceptHandler>, models: Seq<ExceptHandlerModel>) -> bool {
    &&& models.len() == list.len()
    &&& forall|i: int| 0 <= i < list.len() ==> #[trigger] models[i] == list[i].model()
}

/// Whether models are those of context managers, one by one.
pub open spec fn items_alike(list: Seq<WithItem>, models: Seq<WithItemModel>) -> bool {
    &&& models.len() == list.len()
    &&& forall|i: int| 0 <= i < list.len() ==> #[trigger] models[i] == list[i].model()
}

/// Whether models are those of imports, one by one.
pub open spec fn imports_alike(list: Seq<SingleImport>, models: Seq<SingleImportModel>) -> bool {
    &&& models.len() == list.len()
    &&& forall|i: int| 0 <= i < list.len() ==> #[trigger] models[i] == list[i].model()
}

/// Whether models are those of names, one by one.
pub open spec fn names_alike(list: Seq<String>, models: Seq<Seq<char>>) -> bool {
    &&& models.len() == list.len()
    &&& forall|i: int| 0 <= i < list.len() ==> #[trigger] models[i] == list[i]@
}

/// Whether models are those of pairs, one by one.
pub open spec fn pairs_alike(list: Seq<(Expression, Expression)>, models: Seq<(ExpressionModel, ExpressionModel)>) -> bool {
    &&& models.len() == list.len()
    &&& forall|i: int| 0 <= i < list.len() ==> #[trigger] models[i] == (list[i].0.model(), list[i].1.model())
}

/// Whether models are those of optional expressions, one by one.
pub open spec fn optionals_alike(list: Seq<Option<Expression>>, models: Seq<Option<ExpressionModel>>) -> bool {
    &&& models.len() == list.len()
    &&& forall|i: int| 0 <= i < list.len() ==> option_alike(list[i], #[trigger] models[i])
}

/// Whether there is an expression exactly if there is a model, which is its model.
pub open spec fn option_alike(value: Option<Expression>, model: Option<ExpressionModel>) -> bool {
    match (value, model) {
        (Some(value), Some(model)) => model == value.model(),
        (None, None) => true,
        _ => false,
    }
}

/// Whether there is an expression exactly if there is a model, which is its model.
pub open spec fn boxed_alike(
    value: Option<Box<Expression>>,
    model: Option<Box<ExpressionModel>>,
) -> bool {
    match (value, model) {
        (Some(value), Some(model)) => *model == value.model(),
        (None, None) => true,
        _ => false,
    }
}

/// Whether there is a name exactly if there is a text, which is the name's.
pub open spec fn name_alike(value: Option<String>, model: Option<Seq<char>>) -> bool {
    match (value, model) {
        (Some(value), Some(model)) => model == value@,
        (None, None) => true,
        _ => false,
    }
}

/// Whether there is a star exactly if there is one in the model, with the same name or none.
pub open spec fn star_alike(
    value: Option<Option<String>>,
    model: Option<Option<Seq<char>>>,
) -> bool {
    match (value, model) {
        (Some(value), Some(model)) => name_alike(value, model),
        (None, None) => true,
        _ => false,
    }
}

/// Whether there is a block exactly if there are models, which are those of its statements.
pub open spec fn block_alike(
    value: Option<Vec<LocatedStatement>>,
    model: Option<Seq<LocatedStatementModel>>,
) -> bool {
    match (value, model) {
        (Some(value), Some(model)) => statements_alike(value@, model),
        (None, None) => true,
        _ => false,
    }
}

/// A number is modelled by what it holds.
#[verifier::spinoff_prover]
pub proof fn law_number_models(value: Number)
    ensures
        match (value, value.model()) {
            (Number::Integer { value }, NumberModel::Integer { value: its_value }) => {
                &&& its_value == value
            },
            (Number::Float { literal }, NumberModel::Float { literal: its_literal }) => {
                &&& its_literal == literal@
            },
            _ => false,
        },
{
}

/// An expression is modelled by an expression of its kind, with the models of its parts in their
/// places.
#[verifier::spinoff_prover]
pub proof fn law_expression_models(value: Expression)
    ensures
        match (value, value.model()) {
            (Expression::BoolOp { a, op, b }, ExpressionModel::BoolOp { a: its_a, op: its_op, b: its_b }) => {
                &&& *its_a == a.model()
                &&& its_op == op
                &&& *its_b == b.model()
            },
            (Expression::Binop { a, op, b }, ExpressionModel::Binop { a: its_a, op: its_op, b: its_b }) => {
                &&& *its_a == a.model()
                &&& its_op == op
                &&& *its_b == b.model()
            },
            (Expression::Subscript { a, b }, ExpressionModel::Subscript { a: its_a, b: its_b }) => {
                &&& *its_a == a.model()
                &&& *its_b == b.model()
            },
            (Expression::Unop { op, a }, ExpressionModel::Unop { op: its_op, a: its_a }) => {
                &&& its_op == op
                &&& *its_a == a.model()
            },
            (Expression::Yield { expression }, ExpressionModel::Yield { expression: its_expression }) => {
                &&& boxed_alike(expression, its_expression)
            },
            (Expression::YieldFrom { expression }, ExpressionModel::YieldFrom { expression: its_expression }) => {
                &&& *its_expression == expression.model()
            },
            (Expression::Compare { a, op, b }, ExpressionModel::Compare { a: its_a, op: its_op, b: its_b }) => {
                &&& *its_a == a.model()
                &&& its_op == op
                &&& *its_b == b.model()
            },
            (Expression::Attribute { value, name }, ExpressionModel::Attribute { value: its_value, name: its_name }) => {
                &&& *its_value == value.model()
                &&& its_name == name@
            },
            (Expression::Call { function, args, keywords }, ExpressionModel::Call { function: its_function, args: its_args, keywords: its_keywords }) => {
                &&& *its_function == function.model()
                &&& expressions_alike(args@, its_args)
                &&& keywords_alike(keywords@, its_keywords)
            },
            (Expression::Number { value }, ExpressionModel::Number { value: its_value }) => {
                &&& its_value == value.model()
            },
            (Expression::List { elements }, ExpressionModel::List { elements: its_elements }) => {
                &&& expressions_alike(elements@, its_elements)
            },
            (Expression::Tuple { elements }, ExpressionModel::Tuple { elements: its_elements }) => {
                &&& expressions_alike(elements@, its_elements)
            },
            (Expression::Dict { elements }, ExpressionModel::Dict { elements: its_elements }) => {
                &&& pairs_alike(elements@, its_elements)
            },
            (Expression::SetLiteral { elements }, ExpressionModel::SetLiteral { elements: its_elements }) => {
                &&& expressions_alike(elements@, its_elements)
            },
            (Expression::Comprehension { kind, generators }, ExpressionModel::Comprehension { kind: its_kind, generators: its_generators }) => {
                &&& *its_kind == kind.model()
                &&& clauses_alike(generators@, its_generators)
            },
            (Expression::Starred { value }, ExpressionModel::Starred { value: its_value }) => {
                &&& *its_value == value.model()
            },
            (Expression::Slice { elements }, ExpressionModel::Slice { elements: its_elements }) => {
                &&& expressions_alike(elements@, its_elements)
            },
            (Expression::String { value }, ExpressionModel::String { value: its_value }) => {
                &&& its_value == value@
            },
            (Expression::Bytes { value }, ExpressionModel::Bytes { value: its_value }) => {
                &&& its_value == value@
            },
            (Expression::Identifier { name }, ExpressionModel::Identifier { name: its_name }) => {
                &&& its_name == name@
            },
            (Expression::Lambda { args, body }, ExpressionModel::Lambda { args: its_args, body: its_body }) => {
                &&& its_args == args.model()
                &&& *its_body == body.model()
            },
            (Expression::IfExpression { test, body, orelse }, ExpressionModel::IfExpression { test: its_test, body: its_body, orelse: its_orelse }) => {
                &&& *its_test == test.model()
                &&& *its_body == body.model()
                &&& *its_orelse == orelse.model()
            },
            (Expression::True, ExpressionModel::True) => true,
            (Expression::False, ExpressionModel::False) => true,
            (Expression::NoneValue, ExpressionModel::NoneValue) => true,
            _ => false,
        },
{
    match value {
        Expression::Call { args, keywords, .. } => {
            assert(expressions_alike(args@, expression_models(args@)));
            assert(keywords_alike(keywords@, keyword_models(keywords@)));
        },
        Expression::List { elements } => {
            assert(expressions_alike(elements@, expression_models(elements@)));
        },
        Expression::Tuple { elements } => {
            assert(expressions_alike(elements@, expression_models(elements@)));
        },
        Expression::SetLiteral { elements } => {
            assert(expressions_alike(elements@, expression_models(elements@)));
        },
        Expression::Slice { elements } => {
            assert(expressions_alike(elements@, expression_models(elements@)));
        },
        Expression::Dict { elements } => {
            assert(pairs_alike(elements@, pair_models(elements@)));
        },
        Expression::Comprehension { generators, .. } => {
            assert(clauses_alike(generators@, comprehension_models(generators@)));
        },
        _ => {},
    }
}

/// What a comprehension builds is modelled by the same kind, with the models of its parts.
#[verifier::spinoff_prover]
pub proof fn law_comprehension_kind_models(value: ComprehensionKind)
    ensures
        match (value, value.model()) {
            (ComprehensionKind::GeneratorExpression { element }, ComprehensionKindModel::GeneratorExpression { element: its_element }) => {
                &&& its_element == element.model()
            },
            (ComprehensionKind::List { element }, ComprehensionKindModel::List { element: its_element }) => {
                &&& its_element == element.model()
            },
            (ComprehensionKind::SetBuilder { element }, ComprehensionKindModel::SetBuilder { element: its_element }) => {
                &&& its_element == element.model()
            },
            (ComprehensionKind::Dict { key, value }, ComprehensionKindModel::Dict { key: its_key, value: its_value }) => {
                &&& its_key == key.model()
                &&& its_value == value.model()
            },
            _ => false,
        },
{
}

/// A clause is modelled part by part.
pub proof fn law_comprehension_models(value: Comprehension)
    ensures
        value.model().target == value.target.model(),
        value.model().iter == value.iter.model(),
        expressions_alike(value.ifs@, value.model().ifs),
{
}

/// A keyword argument is modelled part by part.
pub proof fn law_keyword_models(value: Keyword)
    ensures
        name_alike(value.name, value.model().name),
        value.model().value == value.value.model(),
{
}

/// Parameters are modelled part by part.
pub proof fn law_parameter_models(value: Parameters)
    ensures
        names_alike(value.args@, value.model().args),
        names_alike(value.kwonlyargs@, value.model().kwonlyargs),
        star_alike(value.vararg, value.model().vararg),
        star_alike(value.kwarg, value.model().kwarg),
        expressions_alike(value.defaults@, value.model().defaults),
        optionals_alike(value.kw_defaults@, value.model().kw_defaults),
{
}

/// An import is modelled part by part.
pub proof fn law_import_models(value: SingleImport)
    ensures
        value.model().module == value.module@,
        name_alike(value.symbol, value.model().symbol),
        name_alike(value.alias, value.model().alias),
{
}

/// A context manager is modelled part by part.
pub proof fn law_item_models(value: WithItem)
    ensures
        value.model().context_expr == value.context_expr.model(),
        option_alike(value.optional_vars, value.model().optional_vars),
{
}

/// A handler is modelled part by part.
pub proof fn law_handler_models(value: ExceptHandler)
    ensures
        option_alike(value.typ, value.model().typ),
        name_alike(value.name, value.model().name),
        statements_alike(value.body@, value.model().body),
{
}

/// A statement is modelled by a statement of its kind, with the models of its parts in their
/// places.
#[verifier::spinoff_prover]
pub proof fn law_statement_models(value: Statement)
    ensures
        match (value, value.model()) {
            (Statement::Break, StatementModel::Break) => true,
            (Statement::Continue, StatementModel::Continue) => true,
            (Statement::Pass, StatementModel::Pass) => true,
            (Statement::Return { value }, StatementModel::Return { value: its_value }) => {
                &&& option_alike(value, its_value)
            },
            (Statement::Import { import_parts }, StatementModel::Import { import_parts: its_import_parts }) => {
                &&& imports_alike(import_parts@, its_import_parts)
            },
            (Statement::Assert { test, msg }, StatementModel::Assert { test: its_test, msg: its_msg }) => {
                &&& its_test == test.model()
                &&& option_alike(msg, its_msg)
            },
            (Statement::Delete { targets }, StatementModel::Delete { targets: its_targets }) => {
                &&& expressions_alike(targets@, its_targets)
            },
            (Statement::Assign { targets, value }, StatementModel::Assign { targets: its_targets, value: its_value }) => {
                &&& expressions_alike(targets@, its_targets)
                &&& its_value == value.model()
            },
            (Statement::AugAssign { target, op, value }, StatementModel::AugAssign { target: its_target, op: its_op, value: its_value }) => {
                &&& its_target == target.model()
                &&& its_op == op
                &&& its_value == value.model()
            },
            (Statement::Expression { expression }, StatementModel::Expression { expression: its_expression }) => {
                &&& its_expression == expression.model()
            },
            (Statement::Global { names }, StatementModel::Global { names: its_names }) => {
                &&& names_alike(names@, its_names)
            },
            (Statement::Nonlocal { names }, StatementModel::Nonlocal { names: its_names }) => {
                &&& names_alike(names@, its_names)
            },
            (Statement::Raise { exception, cause }, StatementModel::Raise { exception: its_exception, cause: its_cause }) => {
                &&& option_alike(exception, its_exception)
                &&& option_alike(cause, its_cause)
            },
            (Statement::If { test, body, orelse }, StatementModel::If { test: its_test, body: its_body, orelse: its_orelse }) => {
                &&& its_test == test.model()
                &&& statements_alike(body@, its_body)
                &&& block_alike(orelse, its_orelse)
            },
            (Statement::While { test, body, orelse }, StatementModel::While { test: its_test, body: its_body, orelse: its_orelse }) => {
                &&& its_test == test.model()
                &&& statements_alike(body@, its_body)
                &&& block_alike(orelse, its_orelse)
            },
            (Statement::For { target, iter, body, orelse }, StatementModel::For { target: its_target, iter: its_iter, body: its_body, orelse: its_orelse }) => {
                &&& its_target == target.model()
                &&& its_iter == iter.model()
                &&& statements_alike(body@, its_body)
                &&& block_alike(orelse, its_orelse)
            },
            (Statement::With { items, body }, StatementModel::With { items: its_items, body: its_body }) => {
                &&& items_alike(items@, its_items)
                &&& statements_alike(body@, its_body)
            },
            (Statement::Try { body, handlers, orelse, finalbody }, StatementModel::Try { body: its_body, handlers: its_handlers, orelse: its_orelse, finalbody: its_finalbody }) => {
                &&& statements_alike(body@, its_body)
                &&& handlers_alike(handlers@, its_handlers)
                &&& block_alike(orelse, its_orelse)
                &&& block_alike(finalbody, its_finalbody)
            },
            (Statement::ClassDef { name, body, bases, keywords, decorator_list }, StatementModel::ClassDef { name: its_name, body: its_body, bases: its_bases, keywords: its_keywords, decorator_list: its_decorator_list }) => {
                &&& its_name == name@
                &&& statements_alike(body@, its_body)
                &&& expressions_alike(bases@, its_bases)
                &&& keywords_alike(keywords@, its_keywords)
                &&& expressions_alike(decorator_list@, its_decorator_list)
            },
            (Statement::FunctionDef { name, args, body, decorator_list }, StatementModel::FunctionDef { name: its_name, args: its_args, body: its_body, decorator_list: its_decorator_list }) => {
                &&& its_name == name@
                &&& its_args == args.model()
                &&& statements_alike(body@, its_body)
                &&& expressions_alike(decorator_list@, its_decorator_list)
            },
            _ => false,
        },
{
}

/// A statement with its place is modelled part by part.
pub proof fn law_located_models(value: LocatedStatement)
    ensures
        value.model().location == value.location,
        value.model().node == value.node.model(),
{
}

/// A program is modelled by the models of its statements.
pub proof fn law_program_models(value: Program)
    ensures
        statements_alike(value.statements@, value.model().statements),
{
}

/// What a text is parsed as is modelled by its kind.
#[verifier::spinoff_prover]
pub proof fn law_top_models(value: Top)
    ensures
        match (value, value.model()) {
            (Top::Program(value), TopModel::Program(model)) => model == value.model(),
            (Top::Statement(value), TopModel::Statement(model)) => model == value.model(),
            (Top::Expression(value), TopModel::Expression(model)) => model == value.model(),
            _ => false,
        },
{
}

/// A token is modelled by a token of its kind with the same places, and a list of tokens one by
/// one.
pub proof fn law_token_models(value: Token, tokens: Seq<Token>)
    ensures
        value.model().start == value.start,
        value.model().end == value.end,
        match (value.tok, value.model().tok) {
            (Tok::Symbol(symbol), TokModel::Symbol(its_symbol)) => its_symbol == symbol,
            (Tok::Name { name }, TokModel::Name { name: its_name }) => its_name == name@,
            (Tok::Int { value }, TokModel::Int { value: its_value }) => its_value == value,
            (Tok::Float { literal }, TokModel::Float { literal: its_literal }) => its_literal
                == literal@,
            (Tok::String { value }, TokModel::String { value: its_value }) => its_value == value@,
            (Tok::Bytes { value }, TokModel::Bytes { value: its_value }) => its_value == value@,
            _ => false,
        },
        token_models(tokens).len() == tokens.len(),
        forall|i: int|
            0 <= i < tokens.len() ==> #[trigger] token_models(tokens)[i] == tokens[i].model(),
{
}

/// The result of cutting a text is modelled by the models of its tokens and by its error.
pub proof fn law_tokenizer_models(value: Tokenizer)
    ensures
        value.model().error == value.error,
        value.model().tokens.len() == value.tokens@.len(),
        forall|i: int|
            0 <= i < value.tokens@.len() ==> #[trigger] value.model().tokens[i]
                == value.tokens@[i].model(),
{
}

/// An error is modelled by an error of its kind, with the model of its token.
pub proof fn law_error_models(token: Token, error: LexicalError, expected: Seq<String>)
    ensures
        (SyntaxError::UnrecognizedToken { token: Some(token) }).model()
            == (SyntaxErrorModel::UnrecognizedToken { token: Some(token.model()) }),
        (SyntaxError::UnrecognizedToken { token: None }).model()
            == (SyntaxErrorModel::UnrecognizedToken { token: None }),
        (SyntaxError::Lexical { error }).model() == (SyntaxErrorModel::Lexical { error }),
        spanned_model(Some((token.start, token.tok, token.end))) == Some(
            (token.start, token.tok.model(), token.end),
        ),
        spanned_model(None) is None,
        names_alike(expected, expected_model(expected)),
{
}

} // verus!
