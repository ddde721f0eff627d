//! The abstract syntax tree, and its mathematical model.
//!
//! The model of a tree is the tree itself, with sequences in place of strings and vectors.
use vstd::prelude::*;

pub use crate::location::Location;

verus! {

/// An operator of two operands.
#[derive(Clone, Copy, Debug, PartialEq, Eq, Structural)]
pub enum Operator {
    Add,
    Sub,
    Mult,
    MatMult,
    Div,
    Mod,
    Pow,
    LShift,
    RShift,
    BitOr,
    BitXor,
    BitAnd,
    FloorDiv,
}

#[derive(Clone, Copy, Debug, PartialEq, Eq, Structural)]
pub enum BooleanOperator {
    And,
    Or,
}

#[derive(Clone, Copy, Debug, PartialEq, Eq, Structural)]
pub enum UnaryOperator {
    Pos,
    Neg,
    Not,
    Inv,
}

#[derive(Clone, Copy, Debug, PartialEq, Eq, Structural)]
pub enum Comparison {
    Equal,
    NotEqual,
    Less,
    LessOrEqual,
    Greater,
    GreaterOrEqual,
    In,
    NotIn,
    Is,
    IsNot,
}

/// The text of an optional name.
pub open spec fn name_model(name: Option<String>) -> Option<Seq<char>> {
    match name {
        Some(name) => Some(name@),
        None => None,
    }
}

/// The text of an optional starred parameter, which may lack a name.
pub open spec fn star_model(name: Option<Option<String>>) -> Option<Option<Seq<char>>> {
    match name {
        Some(name) => Some(name_model(name)),
        None => None,
    }
}

/// The texts of names.
pub open spec fn name_models(names: Seq<String>) -> Seq<Seq<char>> {
    names.map_values(|name: String| name@)
}

/// A number. A float is kept as it is written.
#[derive(Debug, PartialEq)]
#[allow(inconsistent_fields)]
pub enum Number {
    Integer { value: i32 },
    Float { literal: String },
}

/// The model of a [`Number`].
#[allow(inconsistent_fields)]
#[verifier::ext_equal]
pub enum NumberModel {
    Integer { value: i32 },
    Float { literal: Seq<char> },
}

impl Number {
    pub open spec fn model(self) -> NumberModel
        decreases self,
    {
        match self {
            Number::Integer { value } => NumberModel::Integer {
                value,
            },
            Number::Float { literal } => NumberModel::Float {
                literal: literal@,
            },
        }
    }
}

/// An expression.
#[derive(Debug, PartialEq)]
#[allow(inconsistent_fields)]
pub enum Expression {
    BoolOp { a: Box<Expression>, op: BooleanOperator, b: Box<Expression> },
    Binop { a: Box<Expression>, op: Operator, b: Box<Expression> },
    Subscript { a: Box<Expression>, b: Box<Expression> },
    Unop { op: UnaryOperator, a: Box<Expression> },
    Yield { expression: Option<Box<Expression>> },
    YieldFrom { expression: Box<Expression> },
    Compare { a: Box<Expression>, op: Comparison, b: Box<Expression> },
    Attribute { value: Box<Expression>, name: String },
    Call { function: Box<Expression>, args: Vec<Expression>, keywords: Vec<Keyword> },
    Number { value: Number },
    List { elements: Vec<Expression> },
    Tuple { elements: Vec<Expression> },
    Dict { elements: Vec<(Expression, Expression)> },
    SetLiteral { elements: Vec<Expression> },
    Comprehension { kind: Box<ComprehensionKind>, generators: Vec<Comprehension> },
    Starred { value: Box<Expression> },
    Slice { elements: Vec<Expression> },
    String { value: String },
    Bytes { value: Vec<u8> },
    Identifier { name: String },
    Lambda { args: Parameters, body: Box<Expression> },
    IfExpression { test: Box<Expression>, body: Box<Expression>, orelse: Box<Expression> },
    True,
    False,
    NoneValue,
}

/// The model of a [`Expression`].
#[allow(inconsistent_fields)]
#[verifier::ext_equal]
pub enum ExpressionModel {
    BoolOp { a: Box<ExpressionModel>, op: BooleanOperator, b: Box<ExpressionModel> },
    Binop { a: Box<ExpressionModel>, op: Operator, b: Box<ExpressionModel> },
    Subscript { a: Box<ExpressionModel>, b: Box<ExpressionModel> },
    Unop { op: UnaryOperator, a: Box<ExpressionModel> },
    Yield { expression: Option<Box<ExpressionModel>> },
    YieldFrom { expression: Box<ExpressionModel> },
    Compare { a: Box<ExpressionModel>, op: Comparison, b: Box<ExpressionModel> },
    Attribute { value: Box<ExpressionModel>, name: Seq<char> },
    Call {
        function: Box<ExpressionModel>,
        args: Seq<ExpressionModel>,
        keywords: Seq<KeywordModel>,
    },
    Number { value: NumberModel },
    List { elements: Seq<ExpressionModel> },
    Tuple { elements: Seq<ExpressionModel> },
    Dict { elements: Seq<(ExpressionModel, ExpressionModel)> },
    SetLiteral { elements: Seq<ExpressionModel> },
    Comprehension { kind: Box<ComprehensionKindModel>, generators: Seq<ComprehensionModel> },
    Starred { value: Box<ExpressionModel> },
    Slice { elements: Seq<ExpressionModel> },
    String { value: Seq<char> },
    Bytes { value: Seq<u8> },
    Identifier { name: Seq<char> },
    Lambda { args: ParametersModel, body: Box<ExpressionModel> },
    IfExpression {
        test: Box<ExpressionModel>,
        body: Box<ExpressionModel>,
        orelse: Box<ExpressionModel>,
    },
    True,
    False,
    NoneValue,
}

impl Expression {
    pub open spec fn model(self) -> ExpressionModel
        decreases self,
    {
        match self {
            Expression::BoolOp { a, op, b } => ExpressionModel::BoolOp {
                a: Box::new(a.model()),
                op,
                b: Box::new(b.model()),
            },
            Expression::Binop { a, op, b } => ExpressionModel::Binop {
                a: Box::new(a.model()),
                op,
                b: Box::new(b.model()),
            },
            Expression::Subscript { a, b } => ExpressionModel::Subscript {
                a: Box::new(a.model()),
                b: Box::new(b.model()),
            },
            Expression::Unop { op, a } => ExpressionModel::Unop {
                op,
                a: Box::new(a.model()),
            },
            Expression::Yield { expression } => ExpressionModel::Yield {
                expression: match expression {
                    Some(e) => Some(Box::new(e.model())),
                    None => None,
                },
            },
            Expression::YieldFrom { expression } => ExpressionModel::YieldFrom {
                expression: Box::new(expression.model()),
            },
            Expression::Compare { a, op, b } => ExpressionModel::Compare {
                a: Box::new(a.model()),
                op,
                b: Box::new(b.model()),
            },
            Expression::Attribute { value, name } => ExpressionModel::Attribute {
                value: Box::new(value.model()),
                name: name@,
            },
            Expression::Call { function, args, keywords } => ExpressionModel::Call {
                function: Box::new(function.model()),
                args: expression_models(args@),
                keywords: keyword_models(keywords@),
            },
            Expression::Number { value } => ExpressionModel::Number {
                value: value.model(),
            },
            Expression::List { elements } => ExpressionModel::List {
                elements: expression_models(elements@),
            },
            Expression::Tuple { elements } => ExpressionModel::Tuple {
                elements: expression_models(elements@),
            },
            Expression::Dict { elements } => ExpressionModel::Dict {
                elements: pair_models(elements@),
            },
            Expression::SetLiteral { elements } => ExpressionModel::SetLiteral {
                elements: expression_models(elements@),
            },
            Expression::Comprehension { kind, generators } => ExpressionModel::Comprehension {
                kind: Box::new(kind.model()),
                generators: comprehension_models(generators@),
            },
            Expression::Starred { value } => ExpressionModel::Starred {
                value: Box::new(value.model()),
            },
            Expression::Slice { elements } => ExpressionModel::Slice {
                elements: expression_models(elements@),
            },
            Expression::String { value } => ExpressionModel::String {
                value: value@,
            },
            Expression::Bytes { value } => ExpressionModel::Bytes {
                value: value@,
            },
            Expression::Identifier { name } => ExpressionModel::Identifier {
                name: name@,
            },
            Expression::Lambda { args, body } => ExpressionModel::Lambda {
                args: args.model(),
                body: Box::new(body.model()),
            },
            Expression::IfExpression { test, body, orelse } => ExpressionModel::IfExpression {
                test: Box::new(test.model()),
                body: Box::new(body.model()),
                orelse: Box::new(orelse.model()),
            },
            Expression::True => ExpressionModel::True,
            Expression::False => ExpressionModel::False,
            Expression::NoneValue => ExpressionModel::NoneValue,
        }
    }
}

/// What a comprehension builds.
#[derive(Debug, PartialEq)]
#[allow(inconsistent_fields)]
pub enum ComprehensionKind {
    GeneratorExpression { element: Expression },
    List { element: Expression },
    SetBuilder { element: Expression },
    Dict { key: Expression, value: Expression },
}

/// The model of a [`ComprehensionKind`].
#[allow(inconsistent_fields)]
#[verifier::ext_equal]
pub enum ComprehensionKindModel {
    GeneratorExpression { element: ExpressionModel },
    List { element: ExpressionModel },
    SetBuilder { element: ExpressionModel },
    Dict { key: ExpressionModel, value: ExpressionModel },
}

impl ComprehensionKind {
    pub open spec fn model(self) -> ComprehensionKindModel
        decreases self,
    {
        match self {
            ComprehensionKind::GeneratorExpression { element } => ComprehensionKindModel::GeneratorExpression {
                element: element.model(),
            },
            ComprehensionKind::List { element } => ComprehensionKindModel::List {
                element: element.model(),
            },
            ComprehensionKind::SetBuilder { element } => ComprehensionKindModel::SetBuilder {
                element: element.model(),
            },
            ComprehensionKind::Dict { key, value } => ComprehensionKindModel::Dict {
                key: key.model(),
                value: value.model(),
            },
        }
    }
}

/// One `for` of a comprehension, with the conditions behind it.
#[derive(Debug, PartialEq)]
pub struct Comprehension {
    pub target: Expression,
    pub iter: Expression,
    pub ifs: Vec<Expression>,
}

/// The model of a [`Comprehension`].
#[verifier::ext_equal]
pub struct ComprehensionModel {
    pub target: ExpressionModel,
    pub iter: ExpressionModel,
    pub ifs: Seq<ExpressionModel>,
}

impl Comprehension {
    pub open spec fn model(self) -> ComprehensionModel
        decreases self,
    {
        ComprehensionModel {
            target: self.target.model(),
            iter: self.iter.model(),
            ifs: expression_models(self.ifs@),
        }
    }
}

/// A keyword argument; without a name it unpacks a mapping.
#[derive(Debug, PartialEq)]
pub struct Keyword {
    pub name: Option<String>,
    pub value: Expression,
}

/// The model of a [`Keyword`].
#[verifier::ext_equal]
pub struct KeywordModel {
    pub name: Option<Seq<char>>,
    pub value: ExpressionModel,
}

impl Keyword {
    pub open spec fn model(self) -> KeywordModel
        decreases self,
    {
        KeywordModel {
            name: name_model(self.name),
            value: self.value.model(),
        }
    }
}

/// The parameters of a function.
#[derive(Debug, PartialEq)]
pub struct Parameters {
    pub args: Vec<String>,
    pub kwonlyargs: Vec<String>,
    pub vararg: Option<Option<String>>,
    pub kwarg: Option<Option<String>>,
    pub defaults: Vec<Expression>,
    pub kw_defaults: Vec<Option<Expression>>,
}

/// The model of a [`Parameters`].
#[verifier::ext_equal]
pub struct ParametersModel {
    pub args: Seq<Seq<char>>,
    pub kwonlyargs: Seq<Seq<char>>,
    pub vararg: Option<Option<Seq<char>>>,
    pub kwarg: Option<Option<Seq<char>>>,
    pub defaults: Seq<ExpressionModel>,
    pub kw_defaults: Seq<Option<ExpressionModel>>,
}

impl Parameters {
    pub open spec fn model(self) -> ParametersModel
        decreases self,
    {
        ParametersModel {
            args: name_models(self.args@),
            kwonlyargs: name_models(self.kwonlyargs@),
            vararg: star_model(self.vararg),
            kwarg: star_model(self.kwarg),
            defaults: expression_models(self.defaults@),
            kw_defaults: optional_models(self.kw_defaults@),
        }
    }
}

/// The models of expressions.
pub open spec fn expression_models(list: Seq<Expression>) -> Seq<ExpressionModel>
    decreases list,
{
    Seq::new(
        list.len(),
        |i: int|
            if 0 <= i < list.len() {
                list[i].model()
            } else {
                arbitrary()
            },
    )
}

/// The models of optional expressions.
pub open spec fn optional_models(list: Seq<Option<Expression>>) -> Seq<Option<ExpressionModel>>
    decreases list,
{
    Seq::new(
        list.len(),
        |i: int|
            if 0 <= i < list.len() {
                match list[i] {
                    Some(e) => Some(e.model()),
                    None => None,
                }
            } else {
                arbitrary()
            },
    )
}

/// The models of pairs of expressions.
pub open spec fn pair_models(
    list: Seq<(Expression, Expression)>,
) -> Seq<(ExpressionModel, ExpressionModel)>
    decreases list,
{
    Seq::new(
        list.len(),
        |i: int|
            if 0 <= i < list.len() {
                (list[i].0.model(), list[i].1.model())
            } else {
                arbitrary()
            },
    )
}

/// The models of keyword arguments.
pub open spec fn keyword_models(list: Seq<Keyword>) -> Seq<KeywordModel>
    decreases list,
{
    Seq::new(
        list.len(),
        |i: int|
            if 0 <= i < list.len() {
                list[i].model()
            } else {
                arbitrary()
            },
    )
}

/// The models of the parts of a comprehension.
pub open spec fn comprehension_models(list: Seq<Comprehension>) -> Seq<ComprehensionModel>
    decreases list,
{
    Seq::new(
        list.len(),
        |i: int|
            if 0 <= i < list.len() {
                list[i].model()
            } else {
                arbitrary()
            },
    )
}

/// One name that an import statement binds.
#[derive(Debug, PartialEq)]
pub struct SingleImport {
    pub module: String,
    pub symbol: Option<String>,
    pub alias: Option<String>,
}

/// The model of a [`SingleImport`].
#[verifier::ext_equal]
pub struct SingleImportModel {
    pub module: Seq<char>,
    pub symbol: Option<Seq<char>>,
    pub alias: Option<Seq<char>>,
}

impl SingleImport {
    pub open spec fn model(self) -> SingleImportModel
        decreases self,
    {
        SingleImportModel {
            module: self.module@,
            symbol: name_model(self.symbol),
            alias: name_model(self.alias),
        }
    }
}

/// One context manager of a `with` statement.
#[derive(Debug, PartialEq)]
pub struct WithItem {
    pub context_expr: Expression,
    pub optional_vars: Option<Expression>,
}

/// The model of a [`WithItem`].
#[verifier::ext_equal]
pub struct WithItemModel {
    pub context_expr: ExpressionModel,
    pub optional_vars: Option<ExpressionModel>,
}

impl WithItem {
    pub open spec fn model(self) -> WithItemModel
        decreases self,
    {
        WithItemModel {
            context_expr: self.context_expr.model(),
            optional_vars: match self.optional_vars {
                    Some(e) => Some(e.model()),
                    None => None,
                },
        }
    }
}

/// One `except` clause.
#[derive(Debug, PartialEq)]
pub struct ExceptHandler {
    pub typ: Option<Expression>,
    pub name: Option<String>,
    pub body: Vec<LocatedStatement>,
}

/// The model of a [`ExceptHandler`].
#[verifier::ext_equal]
pub struct ExceptHandlerModel {
    pub typ: Option<ExpressionModel>,
    pub name: Option<Seq<char>>,
    pub body: Seq<LocatedStatementModel>,
}

impl ExceptHandler {
    pub open spec fn model(self) -> ExceptHandlerModel
        decreases self,
    {
        ExceptHandlerModel {
            typ: match self.typ {
                    Some(e) => Some(e.model()),
                    None => None,
                },
            name: name_model(self.name),
            body: statement_models(self.body@),
        }
    }
}

/// A statement.
#[derive(Debug, PartialEq)]
#[allow(inconsistent_fields)]
pub enum Statement {
    Break,
    Continue,
    Pass,
    Return { value: Option<Expression> },
    Import { import_parts: Vec<SingleImport> },
    Assert { test: Expression, msg: Option<Expression> },
    Delete { targets: Vec<Expression> },
    Assign { targets: Vec<Expression>, value: Expression },
    AugAssign { target: Expression, op: Operator, value: Expression },
    Expression { expression: Expression },
    Global { names: Vec<String> },
    Nonlocal { names: Vec<String> },
    Raise { exception: Option<Expression>, cause: Option<Expression> },
    If { test: Expression, body: Vec<LocatedStatement>, orelse: Option<Vec<LocatedStatement>> },
    While { test: Expression, body: Vec<LocatedStatement>, orelse: Option<Vec<LocatedStatement>> },
    For {
        target: Expression,
        iter: Expression,
        body: Vec<LocatedStatement>,
        orelse: Option<Vec<LocatedStatement>>,
    },
    With { items: Vec<WithItem>, body: Vec<LocatedStatement> },
    Try {
        body: Vec<LocatedStatement>,
        handlers: Vec<ExceptHandler>,
        orelse: Option<Vec<LocatedStatement>>,
        finalbody: Option<Vec<LocatedStatement>>,
    },
    ClassDef {
        name: String,
        body: Vec<LocatedStatement>,
        bases: Vec<Expression>,
        keywords: Vec<Keyword>,
        decorator_list: Vec<Expression>,
    },
    FunctionDef {
        name: String,
        args: Parameters,
        body: Vec<LocatedStatement>,
        decorator_list: Vec<Expression>,
    },
}

/// The model of a [`Statement`].
#[allow(inconsistent_fields)]
#[verifier::ext_equal]
pub enum StatementModel {
    Break,
    Continue,
    Pass,
    Return { value: Option<ExpressionModel> },
    Import { import_parts: Seq<SingleImportModel> },
    Assert { test: ExpressionModel, msg: Option<ExpressionModel> },
    Delete { targets: Seq<ExpressionModel> },
    Assign { targets: Seq<ExpressionModel>, value: ExpressionModel },
    AugAssign { target: ExpressionModel, op: Operator, value: ExpressionModel },
    Expression { expression: ExpressionModel },
    Global { names: Seq<Seq<char>> },
    Nonlocal { names: Seq<Seq<char>> },
    Raise { exception: Option<ExpressionModel>, cause: Option<ExpressionModel> },
    If {
        test: ExpressionModel,
        body: Seq<LocatedStatementModel>,
        orelse: Option<Seq<LocatedStatementModel>>,
    },
    While {
        test: ExpressionModel,
        body: Seq<LocatedStatementModel>,
        orelse: Option<Seq<LocatedStatementModel>>,
    },
    For {
        target: ExpressionModel,
        iter: ExpressionModel,
        body: Seq<LocatedStatementModel>,
        orelse: Option<Seq<LocatedStatementModel>>,
    },
    With { items: Seq<WithItemModel>, body: Seq<LocatedStatementModel> },
    Try {
        body: Seq<LocatedStatementModel>,
        handlers: Seq<ExceptHandlerModel>,
        orelse: Option<Seq<LocatedStatementModel>>,
        finalbody: Option<Seq<LocatedStatementModel>>,
    },
    ClassDef {
        name: Seq<char>,
        body: Seq<LocatedStatementModel>,
        bases: Seq<ExpressionModel>,
        keywords: Seq<KeywordModel>,
        decorator_list: Seq<ExpressionModel>,
    },
    FunctionDef {
        name: Seq<char>,
        args: ParametersModel,
        body: Seq<LocatedStatementModel>,
        decorator_list: Seq<ExpressionModel>,
    },
}

impl Statement {
    pub open spec fn model(self) -> StatementModel
        decreases self,
    {
        match self {
            Statement::Break => StatementModel::Break,
            Statement::Continue => StatementModel::Continue,
            Statement::Pass => StatementModel::Pass,
            Statement::Return { value } => StatementModel::Return {
                value: match value {
                    Some(e) => Some(e.model()),
                    None => None,
                },
            },
            Statement::Import { import_parts } => StatementModel::Import {
                import_parts: import_models(import_parts@),
            },
            Statement::Assert { test, msg } => StatementModel::Assert {
                test: test.model(),
                msg: match msg {
                    Some(e) => Some(e.model()),
                    None => None,
                },
            },
            Statement::Delete { targets } => StatementModel::Delete {
                targets: expression_models(targets@),
            },
            Statement::Assign { targets, value } => StatementModel::Assign {
                targets: expression_models(targets@),
                value: value.model(),
            },
            Statement::AugAssign { target, op, value } => StatementModel::AugAssign {
                target: target.model(),
                op,
                value: value.model(),
            },
            Statement::Expression { expression } => StatementModel::Expression {
                expression: expression.model(),
            },
            Statement::Global { names } => StatementModel::Global {
                names: name_models(names@),
            },
            Statement::Nonlocal { names } => StatementModel::Nonlocal {
                names: name_models(names@),
            },
            Statement::Raise { exception, cause } => StatementModel::Raise {
                exception: match exception {
                    Some(e) => Some(e.model()),
                    None => None,
                },
                cause: match cause {
                    Some(e) => Some(e.model()),
                    None => None,
                },
            },
            Statement::If { test, body, orelse } => StatementModel::If {
                test: test.model(),
                body: statement_models(body@),
                orelse: match orelse {
                    Some(body) => Some(statement_models(body@)),
                    None => None,
                },
            },
            Statement::While { test, body, orelse } => StatementModel::While {
                test: test.model(),
                body: statement_models(body@),
                orelse: match orelse {
                    Some(body) => Some(statement_models(body@)),
                    None => None,
                },
            },
            Statement::For { target, iter, body, orelse } => StatementModel::For {
                target: target.model(),
                iter: iter.model(),
                body: statement_models(body@),
                orelse: match orelse {
                    Some(body) => Some(statement_models(body@)),
                    None => None,
                },
            },
            Statement::With { items, body } => StatementModel::With {
                items: item_models(items@),
                body: statement_models(body@),
            },
            Statement::Try { body, handlers, orelse, finalbody } => StatementModel::Try {
                body: statement_models(body@),
                handlers: handler_models(handlers@),
                orelse: match orelse {
                    Some(body) => Some(statement_models(body@)),
                    None => None,
                },
                finalbody: match finalbody {
                    Some(body) => Some(statement_models(body@)),
                    None => None,
                },
            },
            Statement::ClassDef { name, body, bases, keywords, decorator_list } => StatementModel::ClassDef {
                name: name@,
                body: statement_models(body@),
                bases: expression_models(bases@),
                keywords: keyword_models(keywords@),
                decorator_list: expression_models(decorator_list@),
            },
            Statement::FunctionDef { name, args, body, decorator_list } => StatementModel::FunctionDef {
                name: name@,
                args: args.model(),
                body: statement_models(body@),
                decorator_list: expression_models(decorator_list@),
            },
        }
    }
}

/// A statement, with the place where it begins.
#[derive(Debug, PartialEq)]
pub struct LocatedStatement {
    pub location: Location,
    pub node: Statement,
}

/// The model of a [`LocatedStatement`].
#[verifier::ext_equal]
pub struct LocatedStatementModel {
    pub location: Location,
    pub node: StatementModel,
}

impl LocatedStatement {
    pub open spec fn model(self) -> LocatedStatementModel
        decreases self,
    {
        LocatedStatementModel {
            location: self.location,
            node: self.node.model(),
        }
    }
}

/// The models of statements.
pub open spec fn statement_models(list: Seq<LocatedStatement>) -> Seq<LocatedStatementModel>
    decreases list,
{
    Seq::new(
        list.len(),
        |i: int|
            if 0 <= i < list.len() {
                list[i].model()
            } else {
                arbitrary()
            },
    )
}

/// The models of `except` clauses.
pub open spec fn handler_models(list: Seq<ExceptHandler>) -> Seq<ExceptHandlerModel>
    decreases list,
{
    Seq::new(
        list.len(),
        |i: int|
            if 0 <= i < list.len() {
                list[i].model()
            } else {
                arbitrary()
            },
    )
}

/// The models of context managers.
pub open spec fn item_models(list: Seq<WithItem>) -> Seq<WithItemModel>
    decreases list,
{
    Seq::new(
        list.len(),
        |i: int|
            if 0 <= i < list.len() {
                list[i].model()
            } else {
                arbitrary()
            },
    )
}

/// The models of imports.
pub open spec fn import_models(list: Seq<SingleImport>) -> Seq<SingleImportModel>
    decreases list,
{
    Seq::new(
        list.len(),
        |i: int|
            if 0 <= i < list.len() {
                list[i].model()
            } else {
                arbitrary()
            },
    )
}

/// A whole program.
#[derive(Debug, PartialEq)]
pub struct Program {
    pub statements: Vec<LocatedStatement>,
}

/// The model of a [`Program`].
#[verifier::ext_equal]
pub struct ProgramModel {
    pub statements: Seq<LocatedStatementModel>,
}

impl Program {
    pub open spec fn model(self) -> ProgramModel
        decreases self,
    {
        ProgramModel {
            statements: statement_models(self.statements@),
        }
    }
}

/// What a source text can be parsed as.
#[derive(Debug, PartialEq)]
pub enum Top {
    Program(Program),
    Statement(LocatedStatement),
    Expression(Expression),
}

/// The model of a [`Top`].
pub enum TopModel {
    Program(ProgramModel),
    Statement(LocatedStatementModel),
    Expression(ExpressionModel),
}

impl Top {
    pub open spec fn model(self) -> TopModel {
        match self {
            Top::Program(program) => TopModel::Program(program.model()),
            Top::Statement(statement) => TopModel::Statement(statement.model()),
            Top::Expression(expression) => TopModel::Expression(expression.model()),
        }
    }
}

// ---------------------------------------------------------------------------------------------
// Lists.

/// Adding to a list of expressions adds to its model.
pub broadcast proof fn lemma_expression_models(list: Seq<Expression>, item: Expression)
    ensures
        #[trigger] expression_models(list.push(item)) == expression_models(list).push(item.model()),
        expression_models(Seq::empty()) == Seq::<ExpressionModel>::empty(),
{
    assert(expression_models(list.push(item)) =~= expression_models(list).push(item.model()));
    assert(expression_models(Seq::empty()) =~= Seq::<ExpressionModel>::empty());
}

/// Adding to a list of optional expressions adds to its model.
pub broadcast proof fn lemma_optional_models(
    list: Seq<Option<Expression>>,
    item: Option<Expression>,
)
    ensures
        #[trigger] optional_models(list.push(item)) == optional_models(list).push(
            match item {
                Some(e) => Some(e.model()),
                None => None,
            },
        ),
        optional_models(Seq::empty()) == Seq::<Option<ExpressionModel>>::empty(),
{
    assert(optional_models(list.push(item)) =~= optional_models(list).push(
            match item {
                Some(e) => Some(e.model()),
                None => None,
            },
        ));
    assert(optional_models(Seq::empty()) =~= Seq::<Option<ExpressionModel>>::empty());
}

/// Adding to a list of pairs adds to its model.
pub broadcast proof fn lemma_pair_models(
    list: Seq<(Expression, Expression)>,
    item: (Expression, Expression),
)
    ensures
        #[trigger] pair_models(list.push(item)) == pair_models(list).push(
            (item.0.model(), item.1.model()),
        ),
        pair_models(Seq::empty()) == Seq::<(ExpressionModel, ExpressionModel)>::empty(),
{
    assert(pair_models(list.push(item)) =~= pair_models(list).push((item.0.model(), item.1.model())));
    assert(pair_models(Seq::empty()) =~= Seq::<(ExpressionModel, ExpressionModel)>::empty());
}

/// Adding to a list of keyword arguments adds to its model.
pub broadcast proof fn lemma_keyword_models(list: Seq<Keyword>, item: Keyword)
    ensures
        #[trigger] keyword_models(list.push(item)) == keyword_models(list).push(item.model()),
        keyword_models(Seq::empty()) == Seq::<KeywordModel>::empty(),
{
    assert(keyword_models(list.push(item)) =~= keyword_models(list).push(item.model()));
    assert(keyword_models(Seq::empty()) =~= Seq::<KeywordModel>::empty());
}

/// Adding to a list of comprehension clauses adds to its model.
pub broadcast proof fn lemma_comprehension_models(list: Seq<Comprehension>, item: Comprehension)
    ensures
        #[trigger] comprehension_models(
            list.push(item),
        ) == comprehension_models(list).push(item.model()),
        comprehension_models(Seq::empty()) == Seq::<ComprehensionModel>::empty(),
{
    assert(comprehension_models(list.push(item)) =~= comprehension_models(list).push(item.model()));
    assert(comprehension_models(Seq::empty()) =~= Seq::<ComprehensionModel>::empty());
}

/// Adding to a list of statements adds to its model.
pub broadcast proof fn lemma_statement_models(list: Seq<LocatedStatement>, item: LocatedStatement)
    ensures
        #[trigger] statement_models(list.push(item)) == statement_models(list).push(item.model()),
        statement_models(Seq::empty()) == Seq::<LocatedStatementModel>::empty(),
{
    assert(statement_models(list.push(item)) =~= statement_models(list).push(item.model()));
    assert(statement_models(Seq::empty()) =~= Seq::<LocatedStatementModel>::empty());
}

/// Adding to a list of handlers adds to its model.
pub broadcast proof fn lemma_handler_models(list: Seq<ExceptHandler>, item: ExceptHandler)
    ensures
        #[trigger] handler_models(list.push(item)) == handler_models(list).push(item.model()),
        handler_models(Seq::empty()) == Seq::<ExceptHandlerModel>::empty(),
{
    assert(handler_models(list.push(item)) =~= handler_models(list).push(item.model()));
    assert(handler_models(Seq::empty()) =~= Seq::<ExceptHandlerModel>::empty());
}

/// Adding to a list of context managers adds to its model.
pub broadcast proof fn lemma_item_models(list: Seq<WithItem>, item: WithItem)
    ensures
        #[trigger] item_models(list.push(item)) == item_models(list).push(item.model()),
        item_models(Seq::empty()) == Seq::<WithItemModel>::empty(),
{
    assert(item_models(list.push(item)) =~= item_models(list).push(item.model()));
    assert(item_models(Seq::empty()) =~= Seq::<WithItemModel>::empty());
}

/// Adding to a list of imports adds to its model.
pub broadcast proof fn lemma_import_models(list: Seq<SingleImport>, item: SingleImport)
    ensures
        #[trigger] import_models(list.push(item)) == import_models(list).push(item.model()),
        import_models(Seq::empty()) == Seq::<SingleImportModel>::empty(),
{
    assert(import_models(list.push(item)) =~= import_models(list).push(item.model()));
    assert(import_models(Seq::empty()) =~= Seq::<SingleImportModel>::empty());
}

/// Adding to a list of names adds to its model.
pub broadcast proof fn lemma_name_models(list: Seq<String>, item: String)
    ensures
        #[trigger] name_models(list.push(item)) == name_models(list).push(item@),
        name_models(Seq::empty()) == Seq::<Seq<char>>::empty(),
{
    assert(name_models(list.push(item)) =~= name_models(list).push(item@));
    assert(name_models(Seq::empty()) =~= Seq::<Seq<char>>::empty());
}

/// Joining lists of statements joins their models.
pub broadcast proof fn lemma_statement_models_join(
    list: Seq<LocatedStatement>,
    other: Seq<LocatedStatement>,
)
    ensures
        #[trigger] statement_models(list + other) == statement_models(list) + statement_models(
            other,
        ),
{
    assert(statement_models(list + other) =~= statement_models(list) + statement_models(other));
}

pub broadcast group group_models {
    lemma_expression_models,
    lemma_optional_models,
    lemma_pair_models,
    lemma_keyword_models,
    lemma_comprehension_models,
    lemma_statement_models,
    lemma_handler_models,
    lemma_item_models,
    lemma_import_models,
    lemma_name_models,
    lemma_statement_models_join,
}

} // verus!
