//! Parsing source text.
use vstd::prelude::*;

use crate::ast::{
    Expression, ExpressionModel, LocatedStatement, LocatedStatementModel, Program, ProgramModel,
    Top, TopModel,
};
use crate::grammar;
use crate::grammar::Start;
use crate::lexer;
use crate::lexical;
use crate::location::Location;
use crate::python;
use crate::token;
use crate::token::{LexicalError, Tok, TokModel, Token, TokenModel};

verus! {

// ---------------------------------------------------------------------------------------------
// Files.

/// Why a file could not be read, each with what the system says of it.
#[derive(Debug, PartialEq, Eq)]
pub enum ReadFailure {
    Opening(String),
    Reading(String),
}

/// What is said of a file that could not be read.
pub open spec fn read_failure_text(failure: ReadFailure) -> Seq<char> {
    match failure {
        ReadFailure::Opening(why) => "Opening file failed: "@ + why@,
        ReadFailure::Reading(why) => "Reading file failed: "@ + why@,
    }
}

/// The contents of a file, or what is said if it could not be read.
pub fn read_file(contents: Result<String, ReadFailure>) -> (text: Result<String, String>)
    ensures
        match contents {
            Ok(contents) => text == Ok::<String, String>(contents),
            Err(failure) => text is Err && text->Err_0@ == read_failure_text(failure),
        },
{
    match contents {
        Ok(contents) => Ok(contents),
        Err(ReadFailure::Opening(why)) => {
            let mut text = "Opening file failed: ".to_owned();
            text.append(why.as_str());
            Err(text)
        },
        Err(ReadFailure::Reading(why)) => {
            let mut text = "Reading file failed: ".to_owned();
            text.append(why.as_str());
            Err(text)
        },
    }
}

// ---------------------------------------------------------------------------------------------
// Errors.

/// Why a text cannot be parsed.
#[derive(Debug, PartialEq)]
#[allow(inconsistent_fields)]
pub enum SyntaxError {
    /// A token does not fit, or the text ends where more is called for.
    UnrecognizedToken { token: Option<Token> },
    /// The text cannot be cut into tokens.
    Lexical { error: LexicalError },
}

/// The model of a [`SyntaxError`].
#[allow(inconsistent_fields)]
pub enum SyntaxErrorModel {
    UnrecognizedToken { token: Option<TokenModel> },
    Lexical { error: LexicalError },
}

impl SyntaxError {
    pub open spec fn model(self) -> SyntaxErrorModel {
        match self {
            SyntaxError::UnrecognizedToken { token } => SyntaxErrorModel::UnrecognizedToken {
                token: match token {
                    Some(token) => Some(token.model()),
                    None => None,
                },
            },
            SyntaxError::Lexical { error } => SyntaxErrorModel::Lexical { error },
        }
    }
}

/// The text that `lalrpop_util` gives of an unrecognized token.
pub uninterp spec fn unrecognized_token_text(
    token: Option<(Location, TokModel, Location)>,
    expected: Seq<Seq<char>>,
) -> Seq<char>;

/// The text that `lalrpop_util` gives of an error of the lexer.
pub uninterp spec fn user_error_text(error: LexicalError) -> Seq<char>;

/// A token as `lalrpop_util` takes it, by its views.
pub open spec fn spanned_model(token: Option<(Location, Tok, Location)>) -> Option<
    (Location, TokModel, Location),
> {
    match token {
        Some((start, tok, end)) => Some((start, tok@, end)),
        None => None,
    }
}

/// The texts of the tokens that would have fitted.
pub open spec fn expected_model(expected: Seq<String>) -> Seq<Seq<char>> {
    expected.map_values(|text: String| text@)
}

/// The debug text of `lalrpop_util::ParseError::UnrecognizedToken`. It is claimed only that the
/// same token and the same expected tokens give the same text.
#[verifier::external_body]
fn format_unrecognized_token(
    token: Option<(Location, Tok, Location)>,
    expected: Vec<String>,
) -> (text: String)
    ensures
        text@ == unrecognized_token_text(spanned_model(token), expected_model(expected@)),
{
    let error: lalrpop_util::ParseError<Location, Tok, LexicalError> =
        lalrpop_util::ParseError::UnrecognizedToken { token, expected };
    format!("{:?}", error)
}

/// The debug text of `lalrpop_util::ParseError::User`. It is claimed only that the same error of
/// the lexer gives the same text.
#[verifier::external_body]
fn format_user_error(error: LexicalError) -> (text: String)
    ensures
        text@ == user_error_text(error),
{
    let error: lalrpop_util::ParseError<Location, Tok, LexicalError> =
        lalrpop_util::ParseError::User { error };
    format!("{:?}", error)
}

/// What is said of a text that cannot be parsed.
pub open spec fn error_text(error: SyntaxErrorModel) -> Seq<char> {
    match error {
        SyntaxErrorModel::UnrecognizedToken { token } => unrecognized_token_text(
            match token {
                Some(token) => Some((token.start, token.tok, token.end)),
                None => None,
            },
            seq![],
        ),
        SyntaxErrorModel::Lexical { error } => user_error_text(error),
    }
}

/// What is said of a text that cannot be parsed.
pub fn describe_error(error: SyntaxError) -> (text: String)
    ensures
        text@ == error_text(error.model()),
{
    match error {
        SyntaxError::UnrecognizedToken { token } => {
            let spanned = match token {
                Some(token) => Some((token.start, token.tok, token.end)),
                None => None,
            };
            let expected: Vec<String> = Vec::new();
            assert(expected_model(expected@) =~= seq![]);
            format_unrecognized_token(spanned, expected)
        },
        SyntaxError::Lexical { error } => format_user_error(error),
    }
}

// ---------------------------------------------------------------------------------------------
// Source text.

/// What a source text is parsed as. An error of the lexer counts where the parser reaches it.
pub open spec fn syntax(start: Start, source: Seq<char>) -> Result<TopModel, SyntaxErrorModel> {
    let lexed = lexical::lex(source);
    match (grammar::top(start, lexed.tokens), lexed.error) {
        (Err(place), _) if 0 <= place < lexed.tokens.len() => Err(
            SyntaxErrorModel::UnrecognizedToken { token: Some(lexed.tokens[place]) },
        ),
        (_, Some(error)) => Err(SyntaxErrorModel::Lexical { error }),
        (Err(_), None) => Err(SyntaxErrorModel::UnrecognizedToken { token: None }),
        (Ok(top), None) => Ok(top),
    }
}

/// Parses a source text.
pub fn parse_source(start: Start, source: &str) -> (parsed: Result<Top, SyntaxError>)
    ensures
        match (parsed, syntax(start, source@)) {
            (Ok(top), Ok(expected)) => top.model() == expected,
            (Err(error), Err(expected)) => error.model() == expected,
            _ => false,
        },
{
    let tokenizer = lexer::make_tokenizer(source);
    let mut tokens: Vec<Token> = tokenizer.tokens;
    let parsed = python::parse_top(start, &tokens);
    match parsed {
        Err(place) if place < tokens.len() => {
            assert(token::token_models(tokens@)[place as int] == tokens@[place as int].model());
            let token = tokens.swap_remove(place);
            Err(SyntaxError::UnrecognizedToken { token: Some(token) })
        },
        parsed => match tokenizer.error {
            Some(error) => Err(SyntaxError::Lexical { error }),
            None => match parsed {
                Ok(top) => Ok(top),
                Err(_) => Err(SyntaxError::UnrecognizedToken { token: None }),
            },
        },
    }
}

/// The program that a source text is parsed as, or what is said if it cannot be.
pub open spec fn parsed_program(source: Seq<char>) -> Result<ProgramModel, Seq<char>> {
    match syntax(Start::Program, source) {
        Ok(top) => Ok(top->Program_0),
        Err(error) => Err(error_text(error)),
    }
}

/// The statement that a source text is parsed as, or what is said if it cannot be.
pub open spec fn parsed_statement(source: Seq<char>) -> Result<LocatedStatementModel, Seq<char>> {
    match syntax(Start::Statement, source) {
        Ok(top) => Ok(top->Statement_0),
        Err(error) => Err(error_text(error)),
    }
}

/// The expression that a source text is parsed as, or what is said if it cannot be.
pub open spec fn parsed_expression(source: Seq<char>) -> Result<ExpressionModel, Seq<char>> {
    match syntax(Start::Expression, source) {
        Ok(top) => Ok(top->Expression_0),
        Err(error) => Err(error_text(error)),
    }
}

/// Parses a file, given what came of reading it.
pub fn parse(contents: Result<String, ReadFailure>) -> (parsed: Result<Program, String>)
    ensures
        match contents {
            Ok(contents) => match (parsed, parsed_program(contents@)) {
                (Ok(program), Ok(expected)) => program.model() == expected,
                (Err(text), Err(expected)) => text@ == expected,
                _ => false,
            },
            Err(failure) => parsed is Err && parsed->Err_0@ == read_failure_text(failure),
        },
{
    match read_file(contents) {
        Ok(text) => parse_program(text.as_str()),
        Err(text) => Err(text),
    }
}

/// Parses a program.
pub fn parse_program(source: &str) -> (parsed: Result<Program, String>)
    ensures
        match (parsed, parsed_program(source@)) {
            (Ok(program), Ok(expected)) => program.model() == expected,
            (Err(text), Err(expected)) => text@ == expected,
            _ => false,
        },
{
    match parse_source(Start::Program, source) {
        Ok(Top::Program(program)) => Ok(program),
        Ok(_) => vstd::pervasive::unreached(),
        Err(error) => Err(describe_error(error)),
    }
}

/// Parses one statement.
pub fn parse_statement(source: &str) -> (parsed: Result<LocatedStatement, String>)
    ensures
        match (parsed, parsed_statement(source@)) {
            (Ok(statement), Ok(expected)) => statement.model() == expected,
            (Err(text), Err(expected)) => text@ == expected,
            _ => false,
        },
{
    match parse_source(Start::Statement, source) {
        Ok(Top::Statement(statement)) => Ok(statement),
        Ok(_) => vstd::pervasive::unreached(),
        Err(error) => Err(describe_error(error)),
    }
}

/// Parses one expression.
pub fn parse_expression(source: &str) -> (parsed: Result<Expression, String>)
    ensures
        match (parsed, parsed_expression(source@)) {
            (Ok(expression), Ok(expected)) => expression.model() == expected,
            (Err(text), Err(expected)) => text@ == expected,
            _ => false,
        },
{
    match parse_source(Start::Expression, source) {
        Ok(Top::Expression(expression)) => Ok(expression),
        Ok(_) => vstd::pervasive::unreached(),
        Err(error) => Err(describe_error(error)),
    }
}

} // verus!
