//! What the tokens of a text are.
use vstd::prelude::*;

use crate::location::Location;
use crate::token::{LexicalError, Symbol, TokModel, TokenModel};

verus! {

// ---------------------------------------------------------------------------------------------
// Lines.

/// The text with every line ending written as one line feed.
pub open spec fn unified_newlines(text: Seq<char>) -> Seq<char>
    decreases text.len(),
{
    if text.len() == 0 {
        text
    } else if text[0] == '\r' {
        let rest = if text.len() > 1 && text[1] == '\n' {
            text.skip(2)
        } else {
            text.skip(1)
        };
        seq!['\n'] + unified_newlines(rest)
    } else {
        seq![text[0]] + unified_newlines(text.skip(1))
    }
}

/// The text without the line endings that follow a backslash, and without that backslash.
pub open spec fn joined_lines(text: Seq<char>) -> Seq<char>
    decreases text.len(),
{
    if text.len() == 0 {
        text
    } else if text.len() > 1 && text[0] == '\\' && text[1] == '\n' {
        joined_lines(text.skip(2))
    } else {
        seq![text[0]] + joined_lines(text.skip(1))
    }
}

/// The line that a place is in.
pub open spec fn row_at(text: Seq<char>, at: int) -> int
    decreases at,
{
    if at <= 0 {
        1
    } else if text[at - 1] == '\n' {
        row_at(text, at - 1) + 1
    } else {
        row_at(text, at - 1)
    }
}

/// The column of a place within its line.
pub open spec fn column_at(text: Seq<char>, at: int) -> int
    decreases at,
{
    if at <= 0 || text[at - 1] == '\n' {
        1
    } else {
        column_at(text, at - 1) + 1
    }
}

pub open spec fn location_at(text: Seq<char>, at: int) -> Location {
    Location { row: row_at(text, at) as usize, column: column_at(text, at) as usize }
}

// ---------------------------------------------------------------------------------------------
// Characters.

pub open spec fn is_digit(c: char) -> bool {
    '0' <= c <= '9'
}

pub open spec fn is_name_start(c: char) -> bool {
    ('a' <= c <= 'z') || ('A' <= c <= 'Z') || c == '_'
}

pub open spec fn is_name_char(c: char) -> bool {
    is_name_start(c) || is_digit(c)
}

pub open spec fn is_blank(c: char) -> bool {
    c == ' ' || c == '\t' || c == '\u{c}'
}

pub open spec fn is_quote(c: char) -> bool {
    c == '\'' || c == '"'
}

/// The value of a digit in a radix, if it is one.
pub open spec fn digit_value(c: char, radix: int) -> Option<int> {
    let value = if '0' <= c <= '9' {
        c as int - '0' as int
    } else if 'a' <= c <= 'f' {
        c as int - 'a' as int + 10
    } else if 'A' <= c <= 'F' {
        c as int - 'A' as int + 10
    } else {
        16
    };
    if value < radix {
        Some(value)
    } else {
        None
    }
}

/// Whether the character at a place is there and is the given one.
pub open spec fn is_at(text: Seq<char>, at: int, c: char) -> bool {
    0 <= at < text.len() && text[at] == c
}

/// The end of the run of digits of a radix that begins at a place.
pub open spec fn digits_end(text: Seq<char>, at: int, radix: int) -> int
    decreases text.len() - at,
{
    if 0 <= at < text.len() && digit_value(text[at], radix) is Some {
        digits_end(text, at + 1, radix)
    } else {
        at
    }
}

/// The end of the run of name characters that begins at a place.
pub open spec fn name_end(text: Seq<char>, at: int) -> int
    decreases text.len() - at,
{
    if 0 <= at < text.len() && is_name_char(text[at]) {
        name_end(text, at + 1)
    } else {
        at
    }
}

/// The end of the run of spaces that begins at a place.
pub open spec fn spaces_end(text: Seq<char>, at: int) -> int
    decreases text.len() - at,
{
    if is_at(text, at, ' ') {
        spaces_end(text, at + 1)
    } else {
        at
    }
}

/// The end of the line that a place is in.
pub open spec fn line_end(text: Seq<char>, at: int) -> int
    decreases text.len() - at,
{
    if 0 <= at < text.len() && text[at] != '\n' {
        line_end(text, at + 1)
    } else {
        at
    }
}

// ---------------------------------------------------------------------------------------------
// Numbers.

/// The number that digits stand for.
pub open spec fn number(digits: Seq<char>, radix: int) -> int
    decreases digits.len(),
{
    if digits.len() == 0 {
        0
    } else {
        number(digits.drop_last(), radix) * radix + digit_value(digits.last(), radix).unwrap_or(0)
    }
}

/// A token's content with the place after it, or why there is none.
pub type Lexeme = Result<(TokModel, int), LexicalError>;

/// An integer of the digits in a range.
pub open spec fn integer(text: Seq<char>, from: int, to: int, radix: int) -> Lexeme {
    let value = number(text.subrange(from, to), radix);
    if from < to && value <= i32::MAX {
        Ok((TokModel::Int { value: value as i32 }, to))
    } else {
        Err(LexicalError::NumberError)
    }
}

/// The radix that a prefix announces.
pub open spec fn prefix_radix(c: char) -> Option<int> {
    if c == 'x' || c == 'X' {
        Some(16int)
    } else if c == 'o' || c == 'O' {
        Some(8int)
    } else if c == 'b' || c == 'B' {
        Some(2int)
    } else {
        None
    }
}

/// The end of the exponent that begins at a place, or the place itself if none begins there.
pub open spec fn exponent_end(text: Seq<char>, at: int) -> int {
    if is_at(text, at, 'e') || is_at(text, at, 'E') {
        let digits = if is_at(text, at + 1, '+') || is_at(text, at + 1, '-') {
            at + 2
        } else {
            at + 1
        };
        let end = digits_end(text, digits, 10);
        if end > digits {
            end
        } else {
            at
        }
    } else {
        at
    }
}

/// A number: an integer, or a float, which has a fraction or an exponent.
pub open spec fn lex_number(text: Seq<char>, at: int) -> Lexeme {
    if is_at(text, at, '0') && at + 1 < text.len() && prefix_radix(text[at + 1]) is Some {
        let radix = prefix_radix(text[at + 1])->0;
        integer(text, at + 2, digits_end(text, at + 2, radix), radix)
    } else {
        let whole = digits_end(text, at, 10);
        let fraction = if is_at(text, whole, '.') {
            digits_end(text, whole + 1, 10)
        } else {
            whole
        };
        let end = exponent_end(text, fraction);
        if end == whole {
            integer(text, at, whole, 10)
        } else {
            Ok((TokModel::Float { literal: text.subrange(at, end) }, end))
        }
    }
}

// ---------------------------------------------------------------------------------------------
// Strings.

/// What a character behind a backslash stands for.
pub open spec fn escaped(c: char) -> Seq<char> {
    if c == '\\' || c == '\'' || c == '"' {
        seq![c]
    } else if c == '\n' {
        seq![]
    } else if c == 'a' {
        seq!['\u{7}']
    } else if c == 'b' {
        seq!['\u{8}']
    } else if c == 'f' {
        seq!['\u{c}']
    } else if c == 'n' {
        seq!['\n']
    } else if c == 'r' {
        seq!['\r']
    } else if c == 't' {
        seq!['\t']
    } else if c == 'v' {
        seq!['\u{b}']
    } else {
        seq!['\\', c]
    }
}

/// How a string is written.
pub struct Quotes {
    pub quote: char,
    pub triple: bool,
    pub raw: bool,
}

/// Whether the closing quotes are at a place.
pub open spec fn closes(text: Seq<char>, at: int, quotes: Quotes) -> bool {
    &&& is_at(text, at, quotes.quote)
    &&& quotes.triple ==> is_at(text, at + 1, quotes.quote) && is_at(text, at + 2, quotes.quote)
}

/// The content of a string from a place on, and the place after the closing quotes.
pub open spec fn string_rest(text: Seq<char>, at: int, quotes: Quotes) -> Option<(Seq<char>, int)>
    decreases text.len() - at,
{
    if at < 0 || at >= text.len() {
        None
    } else if closes(text, at, quotes) {
        Some(
            (
                Seq::empty(),
                if quotes.triple {
                    at + 3
                } else {
                    at + 1
                },
            ),
        )
    } else if text[at] == '\n' && !quotes.triple {
        None
    } else {
        let escape = text[at] == '\\' && at + 1 < text.len();
        let (content, next) = if escape && quotes.raw {
            (seq!['\\', text[at + 1]], at + 2)
        } else if escape {
            (escaped(text[at + 1]), at + 2)
        } else {
            (seq![text[at]], at + 1)
        };
        match string_rest(text, next, quotes) {
            Some((rest, end)) => Some((content + rest, end)),
            None => None,
        }
    }
}

/// The bytes that characters stand for, if each of them is a byte of its own.
pub open spec fn ascii_bytes(content: Seq<char>) -> Option<Seq<u8>> {
    if forall|i: int| 0 <= i < content.len() ==> #[trigger] content[i] <= '\u{7f}' {
        Some(content.map_values(|c: char| c as u8))
    } else {
        None
    }
}

/// The letters before a string.
pub struct StringPrefix {
    pub raw: bool,
    pub bytes: bool,
}

/// Whether a character is one of the two cases of a letter.
pub open spec fn is_letter(c: char, lower: char, upper: char) -> bool {
    c == lower || c == upper
}

/// The prefix that a word is, if it is one.
pub open spec fn string_prefix(word: Seq<char>) -> Option<StringPrefix> {
    let r = |i: int| is_letter(word[i], 'r', 'R');
    let b = |i: int| is_letter(word[i], 'b', 'B');
    if word.len() == 1 && is_letter(word[0], 'u', 'U') {
        Some(StringPrefix { raw: false, bytes: false })
    } else if word.len() == 1 && r(0) {
        Some(StringPrefix { raw: true, bytes: false })
    } else if word.len() == 1 && b(0) {
        Some(StringPrefix { raw: false, bytes: true })
    } else if word.len() == 2 && ((b(0) && r(1)) || (r(0) && b(1))) {
        Some(StringPrefix { raw: true, bytes: true })
    } else {
        None
    }
}

/// A string whose opening quotes are at a place.
pub open spec fn lex_string(text: Seq<char>, at: int, prefix: StringPrefix) -> Lexeme {
    let quote = text[at];
    let triple = is_at(text, at + 1, quote) && is_at(text, at + 2, quote);
    let quotes = Quotes { quote, triple, raw: prefix.raw };
    match string_rest(
        text,
        if triple {
            at + 3
        } else {
            at + 1
        },
        quotes,
    ) {
        Some((content, end)) => if prefix.bytes {
            match ascii_bytes(content) {
                Some(value) => Ok((TokModel::Bytes { value }, end)),
                None => Err(LexicalError::StringError),
            }
        } else {
            Ok((TokModel::String { value: content }, end))
        },
        None => Err(LexicalError::StringError),
    }
}

// ---------------------------------------------------------------------------------------------
// Words and operators.

/// The keyword that a word is, if it is one.
pub open spec fn keyword(word: Seq<char>) -> Option<Symbol> {
    if word == "False"@ {
        Some(Symbol::False)
    } else if word == "None"@ {
        Some(Symbol::NoneWord)
    } else if word == "True"@ {
        Some(Symbol::True)
    } else if word == "and"@ {
        Some(Symbol::And)
    } else if word == "as"@ {
        Some(Symbol::As)
    } else if word == "assert"@ {
        Some(Symbol::Assert)
    } else if word == "break"@ {
        Some(Symbol::Break)
    } else if word == "class"@ {
        Some(Symbol::Class)
    } else if word == "continue"@ {
        Some(Symbol::Continue)
    } else if word == "def"@ {
        Some(Symbol::Def)
    } else if word == "del"@ {
        Some(Symbol::Del)
    } else if word == "elif"@ {
        Some(Symbol::Elif)
    } else if word == "else"@ {
        Some(Symbol::Else)
    } else if word == "except"@ {
        Some(Symbol::Except)
    } else if word == "finally"@ {
        Some(Symbol::Finally)
    } else if word == "for"@ {
        Some(Symbol::For)
    } else if word == "from"@ {
        Some(Symbol::From)
    } else if word == "global"@ {
        Some(Symbol::Global)
    } else if word == "if"@ {
        Some(Symbol::If)
    } else if word == "import"@ {
        Some(Symbol::Import)
    } else if word == "in"@ {
        Some(Symbol::In)
    } else if word == "is"@ {
        Some(Symbol::Is)
    } else if word == "lambda"@ {
        Some(Symbol::Lambda)
    } else if word == "nonlocal"@ {
        Some(Symbol::Nonlocal)
    } else if word == "not"@ {
        Some(Symbol::Not)
    } else if word == "or"@ {
        Some(Symbol::Or)
    } else if word == "pass"@ {
        Some(Symbol::Pass)
    } else if word == "raise"@ {
        Some(Symbol::Raise)
    } else if word == "return"@ {
        Some(Symbol::Return)
    } else if word == "try"@ {
        Some(Symbol::Try)
    } else if word == "while"@ {
        Some(Symbol::While)
    } else if word == "with"@ {
        Some(Symbol::With)
    } else if word == "yield"@ {
        Some(Symbol::Yield)
    } else {
        None
    }
}

/// A name, a keyword, or a string with a prefix.
pub open spec fn lex_word(text: Seq<char>, at: int) -> Lexeme {
    let end = name_end(text, at);
    let word = text.subrange(at, end);
    if 0 <= end < text.len() && is_quote(text[end]) && string_prefix(word) is Some {
        lex_string(text, end, string_prefix(word)->0)
    } else {
        match keyword(word) {
            Some(symbol) => Ok((TokModel::Symbol(symbol), end)),
            None => Ok((TokModel::Name { name: word }, end)),
        }
    }
}

/// The operator of one character.
pub open spec fn operator1(a: char) -> Option<Symbol> {
    if a == '(' {
        Some(Symbol::Lpar)
    } else if a == ')' {
        Some(Symbol::Rpar)
    } else if a == '[' {
        Some(Symbol::Lsqb)
    } else if a == ']' {
        Some(Symbol::Rsqb)
    } else if a == '{' {
        Some(Symbol::Lbrace)
    } else if a == '}' {
        Some(Symbol::Rbrace)
    } else if a == ':' {
        Some(Symbol::Colon)
    } else if a == ',' {
        Some(Symbol::Comma)
    } else if a == ';' {
        Some(Symbol::Semi)
    } else if a == '+' {
        Some(Symbol::Plus)
    } else if a == '-' {
        Some(Symbol::Minus)
    } else if a == '*' {
        Some(Symbol::Star)
    } else if a == '/' {
        Some(Symbol::Slash)
    } else if a == '|' {
        Some(Symbol::Vbar)
    } else if a == '&' {
        Some(Symbol::Amper)
    } else if a == '<' {
        Some(Symbol::Less)
    } else if a == '>' {
        Some(Symbol::Greater)
    } else if a == '=' {
        Some(Symbol::Equal)
    } else if a == '.' {
        Some(Symbol::Dot)
    } else if a == '%' {
        Some(Symbol::Percent)
    } else if a == '~' {
        Some(Symbol::Tilde)
    } else if a == '^' {
        Some(Symbol::CircumFlex)
    } else if a == '@' {
        Some(Symbol::At)
    } else {
        None
    }
}

/// The operator of two characters.
pub open spec fn operator2(a: char, b: char) -> Option<Symbol> {
    if a == '=' && b == '=' {
        Some(Symbol::EqEqual)
    } else if a == '!' && b == '=' {
        Some(Symbol::NotEqual)
    } else if a == '<' && b == '=' {
        Some(Symbol::LessEqual)
    } else if a == '>' && b == '=' {
        Some(Symbol::GreaterEqual)
    } else if a == '<' && b == '<' {
        Some(Symbol::LeftShift)
    } else if a == '>' && b == '>' {
        Some(Symbol::RightShift)
    } else if a == '*' && b == '*' {
        Some(Symbol::DoubleStar)
    } else if a == '+' && b == '=' {
        Some(Symbol::PlusEqual)
    } else if a == '-' && b == '=' {
        Some(Symbol::MinusEqual)
    } else if a == '*' && b == '=' {
        Some(Symbol::StarEqual)
    } else if a == '/' && b == '=' {
        Some(Symbol::SlashEqual)
    } else if a == '%' && b == '=' {
        Some(Symbol::PercentEqual)
    } else if a == '&' && b == '=' {
        Some(Symbol::AmperEqual)
    } else if a == '|' && b == '=' {
        Some(Symbol::VbarEqual)
    } else if a == '^' && b == '=' {
        Some(Symbol::CircumflexEqual)
    } else if a == '/' && b == '/' {
        Some(Symbol::DoubleSlash)
    } else if a == '@' && b == '=' {
        Some(Symbol::AtEqual)
    } else {
        None
    }
}

/// The operator of three characters.
pub open spec fn operator3(a: char, b: char, c: char) -> Option<Symbol> {
    if a == '<' && b == '<' && c == '=' {
        Some(Symbol::LeftShiftEqual)
    } else if a == '>' && b == '>' && c == '=' {
        Some(Symbol::RightShiftEqual)
    } else if a == '*' && b == '*' && c == '=' {
        Some(Symbol::DoubleStarEqual)
    } else if a == '/' && b == '/' && c == '=' {
        Some(Symbol::DoubleSlashEqual)
    } else {
        None
    }
}

/// The longest operator at a place, and its length.
pub open spec fn operator(text: Seq<char>, at: int) -> Option<(Symbol, int)> {
    if at + 2 < text.len() && operator3(text[at], text[at + 1], text[at + 2]) is Some {
        Some((operator3(text[at], text[at + 1], text[at + 2])->0, 3))
    } else if at + 1 < text.len() && operator2(text[at], text[at + 1]) is Some {
        Some((operator2(text[at], text[at + 1])->0, 2))
    } else {
        match operator1(text[at]) {
            Some(symbol) => Some((symbol, 1)),
            None => None,
        }
    }
}

// ---------------------------------------------------------------------------------------------
// The whole text.

/// Where the cutting stands.
#[verifier::ext_equal]
pub struct Cursor {
    pub at: int,
    /// Whether a line begins here, so that its indentation counts.
    pub line_begins: bool,
    /// The number of brackets that are open.
    pub nesting: int,
    /// The indentations of the blocks that are open, the outermost first.
    pub indents: Seq<int>,
}

/// What happens at a cursor.
#[verifier::ext_equal]
pub enum Cut {
    /// Some tokens come, and the cutting goes on.
    Tokens(Seq<TokenModel>, Cursor),
    Error(LexicalError),
    /// Some last tokens come.
    End(Seq<TokenModel>),
}

/// The tokens of a text, up to its end or to the first error.
#[verifier::ext_equal]
pub struct Lexed {
    pub tokens: Seq<TokenModel>,
    pub error: Option<LexicalError>,
}

pub open spec fn token(text: Seq<char>, from: int, to: int, tok: TokModel) -> TokenModel {
    TokenModel { start: location_at(text, from), tok, end: location_at(text, to) }
}

pub open spec fn symbol_token(text: Seq<char>, from: int, to: int, symbol: Symbol) -> TokenModel {
    token(text, from, to, TokModel::Symbol(symbol))
}

/// The number of blocks that are deeper than an indentation.
pub open spec fn deeper(indents: Seq<int>, width: int) -> int
    decreases indents.len(),
{
    if indents.len() > 0 && width < indents.last() {
        deeper(indents.drop_last(), width) + 1
    } else {
        0
    }
}

pub open spec fn dedents(text: Seq<char>, at: int, count: int) -> Seq<TokenModel> {
    Seq::new(count as nat, |i: int| symbol_token(text, at, at, Symbol::Dedent))
}

/// The beginning of a line.
pub open spec fn cut_line_begin(text: Seq<char>, cursor: Cursor) -> Cut {
    let end = spaces_end(text, cursor.at);
    let width = if end == text.len() {
        0
    } else {
        end - cursor.at
    };
    let current = cursor.indents.last();
    if is_at(text, end, '#') {
        Cut::Tokens(seq![], Cursor { at: line_end(text, end), ..cursor })
    } else if is_at(text, end, '\n') {
        Cut::Tokens(seq![], Cursor { at: end + 1, ..cursor })
    } else if is_at(text, end, '\t') {
        Cut::Error(LexicalError::TabError)
    } else if width == current {
        Cut::Tokens(seq![], Cursor { at: end, line_begins: false, ..cursor })
    } else if width > current {
        Cut::Tokens(
            seq![symbol_token(text, end, end, Symbol::Indent)],
            Cursor {
                at: end,
                line_begins: false,
                indents: cursor.indents.push(width),
                ..cursor
            },
        )
    } else {
        let count = deeper(cursor.indents, width);
        let left = cursor.indents.take(cursor.indents.len() - count);
        if left.len() > 0 && left.last() == width {
            Cut::Tokens(
                dedents(text, end, count),
                Cursor { at: end, line_begins: false, indents: left, ..cursor },
            )
        } else {
            Cut::Error(LexicalError::IndentationError)
        }
    }
}

/// A token with a content of its own.
pub open spec fn cut_lexeme(text: Seq<char>, cursor: Cursor, lexeme: Lexeme) -> Cut {
    match lexeme {
        Ok((tok, end)) => Cut::Tokens(
            seq![token(text, cursor.at, end, tok)],
            Cursor { at: end, ..cursor },
        ),
        Err(error) => Cut::Error(error),
    }
}

pub open spec fn opens_bracket(symbol: Symbol) -> bool {
    symbol == Symbol::Lpar || symbol == Symbol::Lsqb || symbol == Symbol::Lbrace
}

pub open spec fn closes_bracket(symbol: Symbol) -> bool {
    symbol == Symbol::Rpar || symbol == Symbol::Rsqb || symbol == Symbol::Rbrace
}

/// An operator. Brackets are counted.
pub open spec fn cut_operator(text: Seq<char>, cursor: Cursor) -> Cut {
    match operator(text, cursor.at) {
        Some((symbol, length)) => if closes_bracket(symbol) && cursor.nesting == 0 {
            Cut::Error(LexicalError::NestingError)
        } else {
            let end = cursor.at + length;
            let nesting = if opens_bracket(symbol) {
                cursor.nesting + 1
            } else if closes_bracket(symbol) {
                cursor.nesting - 1
            } else {
                cursor.nesting
            };
            Cut::Tokens(
                seq![symbol_token(text, cursor.at, end, symbol)],
                Cursor { at: end, nesting, ..cursor },
            )
        },
        None => Cut::Error(
            LexicalError::UnrecognizedCharacter { character: text[cursor.at] },
        ),
    }
}

/// What happens at a cursor.
pub open spec fn cut(text: Seq<char>, cursor: Cursor) -> Cut {
    if cursor.line_begins {
        cut_line_begin(text, cursor)
    } else if cursor.at >= text.len() {
        if cursor.nesting > 0 {
            Cut::Error(LexicalError::NestingError)
        } else {
            Cut::End(dedents(text, text.len() as int, cursor.indents.len() - 1))
        }
    } else {
        let c = text[cursor.at];
        if is_digit(c) || (c == '.' && cursor.at + 1 < text.len() && is_digit(
            text[cursor.at + 1],
        )) {
            cut_lexeme(text, cursor, lex_number(text, cursor.at))
        } else if is_name_start(c) {
            cut_lexeme(text, cursor, lex_word(text, cursor.at))
        } else if is_quote(c) {
            cut_lexeme(
                text,
                cursor,
                lex_string(text, cursor.at, StringPrefix { raw: false, bytes: false }),
            )
        } else if c == '#' {
            Cut::Tokens(seq![], Cursor { at: line_end(text, cursor.at), ..cursor })
        } else if c == '\n' {
            if cursor.nesting == 0 {
                Cut::Tokens(
                    seq![symbol_token(text, cursor.at, cursor.at + 1, Symbol::Newline)],
                    Cursor { at: cursor.at + 1, line_begins: true, ..cursor },
                )
            } else {
                Cut::Tokens(seq![], Cursor { at: cursor.at + 1, ..cursor })
            }
        } else if is_blank(c) {
            Cut::Tokens(seq![], Cursor { at: cursor.at + 1, ..cursor })
        } else {
            cut_operator(text, cursor)
        }
    }
}

/// Whether the cutting has gone on: a character is behind the cursor, or the line has begun.
pub open spec fn goes_on(before: Cursor, after: Cursor, length: int) -> bool {
    ||| before.at < after.at <= length
    ||| before.at == after.at && before.line_begins && !after.line_begins
}

/// The tokens from a cursor on.
pub open spec fn lex_from(text: Seq<char>, cursor: Cursor) -> Lexed
    decreases
            text.len() - cursor.at,
            if cursor.line_begins {
                1nat
            } else {
                0nat
            },
{
    match cut(text, cursor) {
        Cut::Tokens(tokens, next) => if goes_on(cursor, next, text.len() as int) {
            let rest = lex_from(text, next);
            Lexed { tokens: tokens + rest.tokens, error: rest.error }
        } else {
            Lexed { tokens, error: None }
        },
        Cut::Error(error) => Lexed { tokens: seq![], error: Some(error) },
        Cut::End(tokens) => Lexed { tokens, error: None },
    }
}

/// Where the cutting begins.
pub open spec fn first_cursor() -> Cursor {
    Cursor { at: 0, line_begins: true, nesting: 0, indents: seq![0] }
}

/// The tokens of a source text.
pub open spec fn lex(source: Seq<char>) -> Lexed {
    let text = joined_lines(unified_newlines(source));
    if text.len() >= usize::MAX {
        Lexed { tokens: seq![], error: Some(LexicalError::TooLong) }
    } else {
        lex_from(text, first_cursor())
    }
}

} // verus!
