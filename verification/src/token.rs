//! Tokens.
use vstd::prelude::*;

use crate::location::Location;

verus! {

/// A token that carries no text.
#[derive(Clone, Copy, Debug, PartialEq, Eq, Structural)]
pub enum Symbol {
    Newline,
    Indent,
    Dedent,
    Lpar,
    Rpar,
    Lsqb,
    Rsqb,
    Lbrace,
    Rbrace,
    Colon,
    Comma,
    Semi,
    Plus,
    Minus,
    Star,
    Slash,
    Vbar,
    Amper,
    Less,
    Greater,
    Equal,
    Dot,
    Percent,
    EqEqual,
    NotEqual,
    LessEqual,
    GreaterEqual,
    Tilde,
    CircumFlex,
    LeftShift,
    RightShift,
    DoubleStar,
    PlusEqual,
    MinusEqual,
    StarEqual,
    SlashEqual,
    PercentEqual,
    AmperEqual,
    VbarEqual,
    CircumflexEqual,
    LeftShiftEqual,
    RightShiftEqual,
    DoubleStarEqual,
    DoubleSlash,
    DoubleSlashEqual,
    At,
    AtEqual,
    False,
    NoneWord,
    True,
    And,
    As,
    Assert,
    Break,
    Class,
    Continue,
    Def,
    Del,
    Elif,
    Else,
    Except,
    Finally,
    For,
    From,
    Global,
    If,
    Import,
    In,
    Is,
    Lambda,
    Nonlocal,
    Not,
    Or,
    Pass,
    Raise,
    Return,
    Try,
    While,
    With,
    Yield,
}

/// A token.
#[derive(Debug, PartialEq)]
#[allow(inconsistent_fields)]
pub enum Tok {
    Symbol(Symbol),
    Name { name: String },
    Int { value: i32 },
    /// A float, as it is written.
    Float { literal: String },
    String { value: String },
    Bytes { value: Vec<u8> },
}

/// The model of a [`Tok`].
#[allow(inconsistent_fields)]
#[verifier::ext_equal]
pub enum TokModel {
    Symbol(Symbol),
    Name { name: Seq<char> },
    Int { value: i32 },
    Float { literal: Seq<char> },
    String { value: Seq<char> },
    Bytes { value: Seq<u8> },
}

impl Tok {
    pub open spec fn model(self) -> TokModel {
        match self {
            Tok::Symbol(symbol) => TokModel::Symbol(symbol),
            Tok::Name { name } => TokModel::Name { name: name@ },
            Tok::Int { value } => TokModel::Int { value },
            Tok::Float { literal } => TokModel::Float { literal: literal@ },
            Tok::String { value } => TokModel::String { value: value@ },
            Tok::Bytes { value } => TokModel::Bytes { value: value@ },
        }
    }
}

impl View for Tok {
    type V = TokModel;

    open spec fn view(&self) -> TokModel {
        self.model()
    }
}

/// A token with the places where it begins and where it ends.
#[derive(Debug, PartialEq)]
pub struct Token {
    pub start: Location,
    pub tok: Tok,
    pub end: Location,
}

/// The model of a [`Token`].
#[verifier::ext_equal]
pub struct TokenModel {
    pub start: Location,
    pub tok: TokModel,
    pub end: Location,
}

impl Token {
    pub open spec fn model(self) -> TokenModel {
        TokenModel { start: self.start, tok: self.tok.model(), end: self.end }
    }
}

/// The models of tokens.
pub open spec fn token_models(tokens: Seq<Token>) -> Seq<TokenModel> {
    tokens.map_values(|token: Token| token.model())
}

/// Why a text cannot be cut into tokens.
#[derive(Clone, Copy, Debug, PartialEq, Eq, Structural)]
pub enum LexicalError {
    /// A string is not closed, or a byte string holds a character that is no byte.
    StringError,
    /// A bracket is not closed, or closes nothing.
    NestingError,
    /// A line goes back to an indentation that no line before it has.
    IndentationError,
    /// A line begins with a tab.
    TabError,
    /// A number has no digits, or does not fit.
    NumberError,
    /// No token begins with this character.
    UnrecognizedCharacter { character: char },
    /// The text is too long for its places to be counted.
    TooLong,
}

} // verus!
