//! Tokens, grammar and errors of source text.
use rustpython::ast;
use rustpython::ast::{Expression, LocatedStatement, Number, Operator, Statement};
use rustpython::grammar::Start;
use rustpython::lexer::make_tokenizer;
use rustpython::location::Location;
use rustpython::parser::{
    describe_error, parse, parse_expression, parse_program, parse_source, parse_statement,
    read_file, ReadFailure, SyntaxError,
};
use rustpython::text::decimal_text;
use rustpython::token::{LexicalError, Symbol, Tok, Token};

fn name(text: &str) -> Expression {
    Expression::Identifier { name: text.to_string() }
}

fn integer(value: i32) -> Expression {
    Expression::Number { value: Number::Integer { value } }
}

fn binop(a: Expression, op: Operator, b: Expression) -> Expression {
    Expression::Binop { a: Box::new(a), op, b: Box::new(b) }
}

fn boxed(e: Expression) -> Box<Expression> {
    Box::new(e)
}

fn expression(source: &str) -> Expression {
    parse_expression(source).unwrap()
}

fn statement(source: &str) -> Statement {
    parse_statement(source).unwrap().node
}

fn at(row: usize, column: usize, node: Statement) -> LocatedStatement {
    LocatedStatement { location: Location::new(row, column), node }
}

fn toks(source: &str) -> Vec<Tok> {
    let tokenizer = make_tokenizer(source);
    assert_eq!(tokenizer.error, None);
    tokenizer.tokens.into_iter().map(|token| token.tok).collect()
}

fn lexical_error(source: &str) -> LexicalError {
    make_tokenizer(source).error.unwrap()
}

fn tok(text: &str) -> Tok {
    Tok::Name { name: text.to_string() }
}

fn text(value: &str) -> Tok {
    Tok::String { value: value.to_string() }
}

fn float(literal: &str) -> Tok {
    Tok::Float { literal: literal.to_string() }
}

// Tokens.

#[test]
fn lexes_numbers() {
    assert_eq!(
        toks("0x2F 0o17 0b1101 42 007"),
        vec![
            Tok::Int { value: 47 },
            Tok::Int { value: 15 },
            Tok::Int { value: 13 },
            Tok::Int { value: 42 },
            Tok::Int { value: 7 },
        ]
    );
    assert_eq!(
        toks("1.5 .25 3. 1e10 2.5E-3 7e"),
        vec![
            float("1.5"),
            float(".25"),
            float("3."),
            float("1e10"),
            float("2.5E-3"),
            Tok::Int { value: 7 },
            tok("e"),
        ]
    );
    assert_eq!(toks("2147483647"), vec![Tok::Int { value: i32::MAX }]);
    assert_eq!(lexical_error("2147483648"), LexicalError::NumberError);
    assert_eq!(lexical_error("99999999999999999999999999"), LexicalError::NumberError);
    assert_eq!(lexical_error("0x"), LexicalError::NumberError);
}

#[test]
fn lexes_strings() {
    assert_eq!(toks("'a' \"b\" ''"), vec![text("a"), text("b"), text("")]);
    assert_eq!(toks("'\\n\\t\\\\\\'\\q'"), vec![text("\n\t\\'\\q")]);
    assert_eq!(toks("r'\\n' R\"x\""), vec![text("\\n"), text("x")]);
    assert_eq!(toks("u'x'"), vec![text("x")]);
    assert_eq!(toks("'''a\n'b''' \"\"\"\"\"\""), vec![text("a\n'b"), text("")]);
    assert_eq!(
        toks("b'ab\\n' br'\\n' Rb'c'"),
        vec![
            Tok::Bytes { value: b"ab\n".to_vec() },
            Tok::Bytes { value: b"\\n".to_vec() },
            Tok::Bytes { value: b"c".to_vec() },
        ]
    );
    assert_eq!(toks("f 'x'"), vec![tok("f"), text("x")]);
    assert_eq!(lexical_error("'abc"), LexicalError::StringError);
    assert_eq!(lexical_error("'abc\n'"), LexicalError::StringError);
    assert_eq!(lexical_error("b'\u{e9}'"), LexicalError::StringError);
    assert_eq!(toks("'\u{e9}'"), vec![text("\u{e9}")]);
}

#[test]
fn lexes_operators_longest_first() {
    assert_eq!(
        toks("<<= << <= < **= ** * // //= != == ="),
        vec![
            Tok::Symbol(Symbol::LeftShiftEqual),
            Tok::Symbol(Symbol::LeftShift),
            Tok::Symbol(Symbol::LessEqual),
            Tok::Symbol(Symbol::Less),
            Tok::Symbol(Symbol::DoubleStarEqual),
            Tok::Symbol(Symbol::DoubleStar),
            Tok::Symbol(Symbol::Star),
            Tok::Symbol(Symbol::DoubleSlash),
            Tok::Symbol(Symbol::DoubleSlashEqual),
            Tok::Symbol(Symbol::NotEqual),
            Tok::Symbol(Symbol::EqEqual),
            Tok::Symbol(Symbol::Equal),
        ]
    );
    assert_eq!(
        lexical_error("a $ b"),
        LexicalError::UnrecognizedCharacter { character: '$' }
    );
    assert_eq!(
        lexical_error("!"),
        LexicalError::UnrecognizedCharacter { character: '!' }
    );
}

#[test]
fn lexes_keywords_and_names() {
    assert_eq!(
        toks("if iff None _none yield"),
        vec![
            Tok::Symbol(Symbol::If),
            tok("iff"),
            Tok::Symbol(Symbol::NoneWord),
            tok("_none"),
            Tok::Symbol(Symbol::Yield),
        ]
    );
}

#[test]
fn unifies_line_endings() {
    let expected = vec![
        tok("a"),
        Tok::Symbol(Symbol::Newline),
        tok("b"),
        Tok::Symbol(Symbol::Newline),
    ];
    assert_eq!(toks("a\r\nb\r\n"), expected);
    assert_eq!(toks("a\rb\r"), expected);
    assert_eq!(toks("a\nb\n"), expected);
}

#[test]
fn joins_lines_behind_a_backslash() {
    assert_eq!(toks("a \\\n b"), vec![tok("a"), tok("b")]);
}

#[test]
fn comments_are_skipped() {
    assert_eq!(
        toks("# first\na # second\n   # third\nb"),
        vec![tok("a"), Tok::Symbol(Symbol::Newline), tok("b")]
    );
}

#[test]
fn brackets_span_lines() {
    assert_eq!(
        toks("(\n  a)\n"),
        vec![
            Tok::Symbol(Symbol::Lpar),
            tok("a"),
            Tok::Symbol(Symbol::Rpar),
            Tok::Symbol(Symbol::Newline),
        ]
    );
    assert_eq!(lexical_error("(a"), LexicalError::NestingError);
    assert_eq!(lexical_error("a)"), LexicalError::NestingError);
}

/// Every block that is opened is closed, also at the end of the text.
#[test]
fn indentation_opens_and_closes_blocks() {
    assert_eq!(
        toks("a\n  b\n\n    c\nd\n e"),
        vec![
            tok("a"),
            Tok::Symbol(Symbol::Newline),
            Tok::Symbol(Symbol::Indent),
            tok("b"),
            Tok::Symbol(Symbol::Newline),
            Tok::Symbol(Symbol::Indent),
            tok("c"),
            Tok::Symbol(Symbol::Newline),
            Tok::Symbol(Symbol::Dedent),
            Tok::Symbol(Symbol::Dedent),
            tok("d"),
            Tok::Symbol(Symbol::Newline),
            Tok::Symbol(Symbol::Indent),
            tok("e"),
            Tok::Symbol(Symbol::Dedent),
        ]
    );
    assert_eq!(lexical_error("a\n    b\n  c\n"), LexicalError::IndentationError);
    assert_eq!(lexical_error("a\n\tb\n"), LexicalError::TabError);
}

#[test]
fn tokens_know_their_places() {
    assert_eq!(
        make_tokenizer("ab\n  c").tokens,
        vec![
            Token { start: Location::new(1, 1), tok: tok("ab"), end: Location::new(1, 3) },
            Token {
                start: Location::new(1, 3),
                tok: Tok::Symbol(Symbol::Newline),
                end: Location::new(2, 1),
            },
            Token {
                start: Location::new(2, 3),
                tok: Tok::Symbol(Symbol::Indent),
                end: Location::new(2, 3),
            },
            Token { start: Location::new(2, 3), tok: tok("c"), end: Location::new(2, 4) },
            Token {
                start: Location::new(2, 4),
                tok: Tok::Symbol(Symbol::Dedent),
                end: Location::new(2, 4),
            },
        ]
    );
}

// Expressions.

#[test]
fn operators_bind_as_strongly_as_they_should() {
    assert_eq!(
        expression("a + b * c"),
        binop(name("a"), Operator::Add, binop(name("b"), Operator::Mult, name("c")))
    );
    assert_eq!(
        expression("a - b - c"),
        binop(binop(name("a"), Operator::Sub, name("b")), Operator::Sub, name("c"))
    );
    assert_eq!(
        expression("a ** b ** c"),
        binop(name("a"), Operator::Pow, binop(name("b"), Operator::Pow, name("c")))
    );
    assert_eq!(
        expression("-a ** b"),
        Expression::Unop {
            op: ast::UnaryOperator::Neg,
            a: boxed(binop(name("a"), Operator::Pow, name("b"))),
        }
    );
    assert_eq!(
        expression("(a + b) * c"),
        binop(binop(name("a"), Operator::Add, name("b")), Operator::Mult, name("c"))
    );
    assert_eq!(
        expression("a | b ^ c & d << e"),
        binop(
            name("a"),
            Operator::BitOr,
            binop(
                name("b"),
                Operator::BitXor,
                binop(
                    name("c"),
                    Operator::BitAnd,
                    binop(name("d"), Operator::LShift, name("e"))
                )
            )
        )
    );
    assert_eq!(
        expression("a or not b and c"),
        Expression::BoolOp {
            a: boxed(name("a")),
            op: ast::BooleanOperator::Or,
            b: boxed(Expression::BoolOp {
                a: boxed(Expression::Unop { op: ast::UnaryOperator::Not, a: boxed(name("b")) }),
                op: ast::BooleanOperator::And,
                b: boxed(name("c")),
            }),
        }
    );
}

#[test]
fn comparisons_of_two_words() {
    for (source, op) in [
        ("a in b", ast::Comparison::In),
        ("a not in b", ast::Comparison::NotIn),
        ("a is b", ast::Comparison::Is),
        ("a is not b", ast::Comparison::IsNot),
        ("a != b", ast::Comparison::NotEqual),
    ] {
        assert_eq!(
            expression(source),
            Expression::Compare { a: boxed(name("a")), op, b: boxed(name("b")) }
        );
    }
}

#[test]
fn calls_subscripts_and_attributes_chain() {
    assert_eq!(
        expression("a.b[c](d)"),
        Expression::Call {
            function: boxed(Expression::Subscript {
                a: boxed(Expression::Attribute {
                    value: boxed(name("a")),
                    name: "b".to_string(),
                }),
                b: boxed(name("c")),
            }),
            args: vec![name("d")],
            keywords: vec![],
        }
    );
}

#[test]
fn arguments_of_all_kinds() {
    assert_eq!(
        expression("f(a, *b, c=d, **e,)"),
        Expression::Call {
            function: boxed(name("f")),
            args: vec![name("a"), Expression::Starred { value: boxed(name("b")) }],
            keywords: vec![
                ast::Keyword { name: Some("c".to_string()), value: name("d") },
                ast::Keyword { name: None, value: name("e") },
            ],
        }
    );
}

#[test]
fn slices() {
    let slice = |source: &str| match expression(source) {
        Expression::Subscript { b, .. } => *b,
        other => panic!("{:?}", other),
    };
    let none = || Expression::NoneValue;
    assert_eq!(
        slice("a[1:2:3]"),
        Expression::Slice { elements: vec![integer(1), integer(2), integer(3)] }
    );
    assert_eq!(slice("a[:]"), Expression::Slice { elements: vec![none(), none(), none()] });
    assert_eq!(slice("a[1:]"), Expression::Slice { elements: vec![integer(1), none(), none()] });
    assert_eq!(slice("a[::2]"), Expression::Slice { elements: vec![none(), none(), integer(2)] });
    assert_eq!(
        slice("a[1, :2]"),
        Expression::Tuple {
            elements: vec![
                integer(1),
                Expression::Slice { elements: vec![none(), integer(2), none()] },
            ],
        }
    );
}

#[test]
fn displays() {
    assert_eq!(expression("()"), Expression::Tuple { elements: vec![] });
    assert_eq!(expression("(1,)"), Expression::Tuple { elements: vec![integer(1)] });
    assert_eq!(expression("(1)"), integer(1));
    assert_eq!(expression("[1, 2,]"), Expression::List { elements: vec![integer(1), integer(2)] });
    assert_eq!(expression("{}"), Expression::Dict { elements: vec![] });
    assert_eq!(
        expression("{1: 2, 3: 4}"),
        Expression::Dict { elements: vec![(integer(1), integer(2)), (integer(3), integer(4))] }
    );
    assert_eq!(
        expression("{1, 2}"),
        Expression::SetLiteral { elements: vec![integer(1), integer(2)] }
    );
    assert_eq!(
        expression("'a' 'b'"),
        Expression::String { value: "ab".to_string() }
    );
    assert_eq!(expression("b'a'"), Expression::Bytes { value: vec![97] });
    assert_eq!(
        expression("1.5"),
        Expression::Number { value: Number::Float { literal: "1.5".to_string() } }
    );
    assert_eq!(expression("None"), Expression::NoneValue);
    assert_eq!(
        expression("True, False"),
        Expression::Tuple { elements: vec![Expression::True, Expression::False] }
    );
}

#[test]
fn comprehensions_of_all_kinds() {
    let clause = || {
        vec![ast::Comprehension { target: name("y"), iter: name("z"), ifs: vec![] }]
    };
    for (source, kind) in [
        (
            "{x for y in z}",
            ast::ComprehensionKind::SetBuilder { element: name("x") },
        ),
        (
            "{x: w for y in z}",
            ast::ComprehensionKind::Dict { key: name("x"), value: name("w") },
        ),
        (
            "(x for y in z)",
            ast::ComprehensionKind::GeneratorExpression { element: name("x") },
        ),
    ] {
        assert_eq!(
            expression(source),
            Expression::Comprehension { kind: Box::new(kind), generators: clause() }
        );
    }
    assert_eq!(
        expression("f(x for y in z)"),
        Expression::Call {
            function: boxed(name("f")),
            args: vec![Expression::Comprehension {
                kind: Box::new(ast::ComprehensionKind::GeneratorExpression {
                    element: name("x"),
                }),
                generators: clause(),
            }],
            keywords: vec![],
        }
    );
}

#[test]
fn conditional_expression() {
    assert_eq!(
        expression("a if b else c"),
        Expression::IfExpression {
            test: boxed(name("b")),
            body: boxed(name("a")),
            orelse: boxed(name("c")),
        }
    );
}

#[test]
fn parameters_of_all_kinds() {
    assert_eq!(
        expression("lambda a, b=1, *c, d, e=2, **f: a"),
        Expression::Lambda {
            args: ast::Parameters {
                args: vec!["a".to_string(), "b".to_string()],
                kwonlyargs: vec!["d".to_string(), "e".to_string()],
                vararg: Some(Some("c".to_string())),
                kwarg: Some(Some("f".to_string())),
                defaults: vec![integer(1)],
                kw_defaults: vec![None, Some(integer(2))],
            },
            body: boxed(name("a")),
        }
    );
    assert!(parse_expression("lambda a=1, b: a").is_err());
    assert!(parse_expression("lambda *a, *b: a").is_err());
}

// Statements.

#[test]
fn small_statements() {
    assert_eq!(statement("break\n"), Statement::Break);
    assert_eq!(statement("continue\n"), Statement::Continue);
    assert_eq!(statement("return\n"), Statement::Return { value: None });
    assert_eq!(
        statement("return 1, 2\n"),
        Statement::Return {
            value: Some(Expression::Tuple { elements: vec![integer(1), integer(2)] }),
        }
    );
    assert_eq!(statement("raise\n"), Statement::Raise { exception: None, cause: None });
    assert_eq!(
        statement("raise a from b\n"),
        Statement::Raise { exception: Some(name("a")), cause: Some(name("b")) }
    );
    assert_eq!(
        statement("assert a, b\n"),
        Statement::Assert { test: name("a"), msg: Some(name("b")) }
    );
    assert_eq!(statement("del a, b\n"), Statement::Delete { targets: vec![name("a"), name("b")] });
    assert_eq!(
        statement("global a, b\n"),
        Statement::Global { names: vec!["a".to_string(), "b".to_string()] }
    );
    assert_eq!(
        statement("nonlocal a\n"),
        Statement::Nonlocal { names: vec!["a".to_string()] }
    );
}

#[test]
fn assignments() {
    assert_eq!(
        statement("a = b = c\n"),
        Statement::Assign { targets: vec![name("a"), name("b")], value: name("c") }
    );
    assert_eq!(
        statement("a += 1\n"),
        Statement::AugAssign { target: name("a"), op: Operator::Add, value: integer(1) }
    );
    assert_eq!(
        statement("a = yield b\n"),
        Statement::Assign {
            targets: vec![name("a")],
            value: Expression::Yield { expression: Some(boxed(name("b"))) },
        }
    );
    assert_eq!(
        statement("yield from a\n"),
        Statement::Expression {
            expression: Expression::YieldFrom { expression: boxed(name("a")) },
        }
    );
}

#[test]
fn imports() {
    let part = |module: &str, symbol: Option<&str>, alias: Option<&str>| ast::SingleImport {
        module: module.to_string(),
        symbol: symbol.map(|symbol| symbol.to_string()),
        alias: alias.map(|alias| alias.to_string()),
    };
    assert_eq!(
        statement("import a.b as c, d\n"),
        Statement::Import {
            import_parts: vec![part("a.b", None, Some("c")), part("d", None, None)],
        }
    );
    let expected = || Statement::Import {
        import_parts: vec![part("a", Some("b"), Some("c")), part("a", Some("d"), None)],
    };
    assert_eq!(statement("from a import b as c, d\n"), expected());
    assert_eq!(statement("from a import (b as c, d,)\n"), expected());
    assert_eq!(
        statement("from a import *\n"),
        Statement::Import { import_parts: vec![part("a", Some("*"), None)] }
    );
}

#[test]
fn lines_of_several_statements() {
    let program = parse_program("a; b;\nc\n").unwrap();
    assert_eq!(
        program.statements,
        vec![
            at(1, 1, Statement::Expression { expression: name("a") }),
            at(1, 4, Statement::Expression { expression: name("b") }),
            at(2, 1, Statement::Expression { expression: name("c") }),
        ]
    );
    assert!(parse_statement("a; b\n").is_err());
}

#[test]
fn loops_and_their_else() {
    assert_eq!(
        statement("while a:\n  pass\nelse:\n  break\n"),
        Statement::While {
            test: name("a"),
            body: vec![at(2, 3, Statement::Pass)],
            orelse: Some(vec![at(4, 3, Statement::Break)]),
        }
    );
    assert_eq!(
        statement("for a, b in c: pass\n"),
        Statement::For {
            target: Expression::Tuple { elements: vec![name("a"), name("b")] },
            iter: name("c"),
            body: vec![at(1, 16, Statement::Pass)],
            orelse: None,
        }
    );
}

#[test]
fn try_statements() {
    assert_eq!(
        statement("try: pass\nexcept A as a: pass\nexcept: pass\nelse: pass\nfinally: pass\n"),
        Statement::Try {
            body: vec![at(1, 6, Statement::Pass)],
            handlers: vec![
                ast::ExceptHandler {
                    typ: Some(name("A")),
                    name: Some("a".to_string()),
                    body: vec![at(2, 16, Statement::Pass)],
                },
                ast::ExceptHandler {
                    typ: None,
                    name: None,
                    body: vec![at(3, 9, Statement::Pass)],
                },
            ],
            orelse: Some(vec![at(4, 7, Statement::Pass)]),
            finalbody: Some(vec![at(5, 10, Statement::Pass)]),
        }
    );
    assert!(parse_statement("try: pass\n").is_err());
    assert!(parse_statement("try: pass\nelse: pass\nfinally: pass\n").is_err());
}

#[test]
fn with_statements() {
    assert_eq!(
        statement("with a as b, c: pass\n"),
        Statement::With {
            items: vec![
                ast::WithItem { context_expr: name("a"), optional_vars: Some(name("b")) },
                ast::WithItem { context_expr: name("c"), optional_vars: None },
            ],
            body: vec![at(1, 17, Statement::Pass)],
        }
    );
}

#[test]
fn decorators_belong_to_the_definition() {
    let parsed = parse_statement("@a.b\n@c(1)\ndef f(): pass\n").unwrap();
    assert_eq!(parsed.location, Location::new(3, 1));
    match parsed.node {
        Statement::FunctionDef { name: found, decorator_list, .. } => {
            assert_eq!(found, "f");
            assert_eq!(decorator_list.len(), 2);
        }
        other => panic!("{:?}", other),
    }
    assert!(parse_statement("@a\npass\n").is_err());
}

#[test]
fn class_keywords() {
    match statement("class A(B, metaclass=C): pass\n") {
        Statement::ClassDef { bases, keywords, .. } => {
            assert_eq!(bases, vec![name("B")]);
            assert_eq!(
                keywords,
                vec![ast::Keyword { name: Some("metaclass".to_string()), value: name("C") }]
            );
        }
        other => panic!("{:?}", other),
    }
}

/// What is one statement is also a program of one statement.
#[test]
fn a_statement_is_a_program() {
    for source in ["a = 1\n", "if a:\n  b\n", "@d\nclass C: pass\n"] {
        let program = parse_program(source).unwrap();
        assert_eq!(program.statements, vec![parse_statement(source).unwrap()]);
    }
}

#[test]
fn blank_lines_are_the_empty_program() {
    for source in ["", "\n", "  \n\n   ", "   "] {
        assert_eq!(parse_program(source).unwrap().statements, vec![]);
    }
}

#[test]
fn a_text_is_parsed_as_what_was_asked_for() {
    assert!(matches!(parse_source(Start::Program, "a\n"), Ok(ast::Top::Program(_))));
    assert!(matches!(parse_source(Start::Statement, "a\n"), Ok(ast::Top::Statement(_))));
    assert!(matches!(parse_source(Start::Expression, "a"), Ok(ast::Top::Expression(_))));
}

// Errors.

fn unrecognized(symbol: Symbol, start: (usize, usize), end: (usize, usize)) -> SyntaxError {
    SyntaxError::UnrecognizedToken {
        token: Some(Token {
            start: Location::new(start.0, start.1),
            tok: Tok::Symbol(symbol),
            end: Location::new(end.0, end.1),
        }),
    }
}

#[test]
fn the_first_token_that_does_not_fit_is_reported() {
    assert_eq!(
        parse_source(Start::Expression, "a + * b"),
        Err(unrecognized(Symbol::Star, (1, 5), (1, 6)))
    );
    assert_eq!(
        parse_source(Start::Program, "a\nif b\n"),
        Err(unrecognized(Symbol::Newline, (2, 5), (3, 1)))
    );
    assert_eq!(
        parse_source(Start::Expression, "a\n"),
        Err(unrecognized(Symbol::Newline, (1, 2), (2, 1)))
    );
    assert_eq!(
        parse_source(Start::Expression, "a +"),
        Err(SyntaxError::UnrecognizedToken { token: None })
    );
    assert_eq!(
        parse_source(Start::Statement, "a"),
        Err(SyntaxError::UnrecognizedToken { token: None })
    );
}

#[test]
fn an_error_of_the_lexer_counts_where_it_is_reached() {
    assert_eq!(
        parse_source(Start::Expression, "a $"),
        Err(SyntaxError::Lexical {
            error: LexicalError::UnrecognizedCharacter { character: '$' },
        })
    );
    assert_eq!(
        parse_source(Start::Expression, "a + * b $"),
        Err(unrecognized(Symbol::Star, (1, 5), (1, 6)))
    );
}

#[test]
fn error_texts() {
    assert_eq!(
        parse_expression("a )").unwrap_err(),
        "User { error: NestingError }"
    );
    assert_eq!(
        parse_expression("+").unwrap_err(),
        "UnrecognizedToken { token: None, expected: [] }"
    );
    assert_eq!(
        parse_program("a b\n").unwrap_err(),
        "UnrecognizedToken { token: Some((Location { row: 1, column: 3 }, Name { name: \"b\" }, \
         Location { row: 1, column: 4 })), expected: [] }"
    );
    assert_eq!(
        describe_error(SyntaxError::Lexical { error: LexicalError::TooLong }),
        "User { error: TooLong }"
    );
}

#[test]
fn files_that_cannot_be_read() {
    let opening = || Err(ReadFailure::Opening("entity not found".to_string()));
    let reading = || Err(ReadFailure::Reading("stream did not contain valid UTF-8".to_string()));
    assert_eq!(read_file(Ok("a".to_string())), Ok("a".to_string()));
    assert_eq!(read_file(opening()), Err("Opening file failed: entity not found".to_string()));
    assert_eq!(
        read_file(reading()),
        Err("Reading file failed: stream did not contain valid UTF-8".to_string())
    );
    assert_eq!(parse(opening()), Err("Opening file failed: entity not found".to_string()));
}

#[test]
fn files_are_parsed_as_programs() {
    let program = parse(Ok("a\n".to_string())).unwrap();
    assert_eq!(
        program.statements,
        vec![at(1, 1, Statement::Expression { expression: name("a") })]
    );
    assert_eq!(parse(Ok("'".to_string())), Err("User { error: StringError }".to_string()));
}

#[test]
fn numbers_as_text() {
    assert_eq!(decimal_text(0), "0");
    assert_eq!(decimal_text(9), "9");
    assert_eq!(decimal_text(10), "10");
    assert_eq!(decimal_text(20480), "20480");
}
