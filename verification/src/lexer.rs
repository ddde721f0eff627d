//! Cutting a source text into tokens.
use vstd::prelude::*;

use crate::lexical;
use crate::lexical::{Cursor, Cut, Lexed, Quotes, StringPrefix};
use crate::location::Location;
use crate::token;
use crate::token::{LexicalError, Symbol, Tok, Token, TokenModel};

verus! {

/// The tokens of a text, up to its end or to the first error.
#[derive(Debug, PartialEq)]
pub struct Tokenizer {
    pub tokens: Vec<Token>,
    pub error: Option<LexicalError>,
}

impl Tokenizer {
    pub open spec fn model(self) -> Lexed {
        Lexed { tokens: token::token_models(self.tokens@), error: self.error }
    }
}

// ---------------------------------------------------------------------------------------------
// Lines.

/// The characters of a text.
fn characters(source: &str) -> (text: Vec<char>)
    ensures
        text@ == source@,
{
    let mut text: Vec<char> = Vec::new();
    for c in it: source.chars()
        invariant
            text@ == it.seq().take(it.index()),
            it.seq() == source@,
    {
        text.push(c);
    }
    text
}

/// The text with every line ending written as one line feed.
fn unify_newlines(text: &Vec<char>) -> (unified: Vec<char>)
    ensures
        unified@ == lexical::unified_newlines(text@),
{
    let mut unified: Vec<char> = Vec::new();
    let mut at: usize = 0;
    assert(text@.skip(0) =~= text@);
    while at < text.len()
        invariant
            at <= text.len(),
            lexical::unified_newlines(text@) == unified@ + lexical::unified_newlines(
                text@.skip(at as int),
            ),
        decreases text.len() - at,
    {
        let ghost before = unified@;
        let ghost rest = text@.skip(at as int);
        assert(rest.skip(1) =~= text@.skip(at + 1));
        if text[at] == '\r' {
            unified.push('\n');
            if text.len() - at > 1 && text[at + 1] == '\n' {
                assert(rest.skip(2) =~= text@.skip(at + 2));
                at += 2;
            } else {
                at += 1;
            }
        } else {
            unified.push(text[at]);
            at += 1;
        }
        assert(lexical::unified_newlines(rest) == seq![unified@.last()] + lexical::unified_newlines(
            text@.skip(at as int),
        ));
        assert(unified@ + lexical::unified_newlines(text@.skip(at as int)) =~= before
            + lexical::unified_newlines(rest));
    }
    assert(text@.skip(at as int) =~= Seq::empty());
    assert(unified@ + Seq::<char>::empty() =~= unified@);
    unified
}

/// The text without the line endings that follow a backslash, and without that backslash.
fn join_lines(text: &Vec<char>) -> (joined: Vec<char>)
    ensures
        joined@ == lexical::joined_lines(text@),
{
    let mut joined: Vec<char> = Vec::new();
    let mut at: usize = 0;
    assert(text@.skip(0) =~= text@);
    while at < text.len()
        invariant
            at <= text.len(),
            lexical::joined_lines(text@) == joined@ + lexical::joined_lines(text@.skip(at as int)),
        decreases text.len() - at,
    {
        let ghost before = joined@;
        let ghost rest = text@.skip(at as int);
        assert(rest.skip(1) =~= text@.skip(at + 1));
        if text.len() - at > 1 && text[at] == '\\' && text[at + 1] == '\n' {
            assert(rest.skip(2) =~= text@.skip(at + 2));
            at += 2;
        } else {
            joined.push(text[at]);
            at += 1;
            assert(joined@ + lexical::joined_lines(text@.skip(at as int)) =~= before
                + lexical::joined_lines(rest));
        }
    }
    assert(text@.skip(at as int) =~= Seq::empty());
    assert(joined@ + Seq::<char>::empty() =~= joined@);
    joined
}

proof fn lemma_location_bounds(text: Seq<char>, at: int)
    requires
        0 <= at,
    ensures
        1 <= lexical::row_at(text, at) <= at + 1,
        1 <= lexical::column_at(text, at) <= at + 1,
    decreases at,
{
    if at > 0 {
        lemma_location_bounds(text, at - 1);
    }
}

/// The place that is reached by going on from a place.
fn advance(text: &Vec<char>, location: Location, from: usize, to: usize) -> (reached: Location)
    requires
        from <= to <= text.len() < usize::MAX,
        location == lexical::location_at(text@, from as int),
    ensures
        reached == lexical::location_at(text@, to as int),
{
    let mut row: usize = location.get_row();
    let mut column: usize = location.get_column();
    let mut at: usize = from;
    proof {
        lemma_location_bounds(text@, at as int);
    }
    while at < to
        invariant
            from <= at <= to <= text.len() < usize::MAX,
            row == lexical::row_at(text@, at as int),
            column == lexical::column_at(text@, at as int),
        decreases to - at,
    {
        proof {
            lemma_location_bounds(text@, at as int);
        }
        if text[at] == '\n' {
            row += 1;
            column = 1;
        } else {
            column += 1;
        }
        at += 1;
    }
    Location::new(row, column)
}

// ---------------------------------------------------------------------------------------------
// Characters.

fn is_digit(c: char) -> (yes: bool)
    ensures
        yes == lexical::is_digit(c),
{
    '0' <= c && c <= '9'
}

fn is_name_start(c: char) -> (yes: bool)
    ensures
        yes == lexical::is_name_start(c),
{
    ('a' <= c && c <= 'z') || ('A' <= c && c <= 'Z') || c == '_'
}

fn is_name_char(c: char) -> (yes: bool)
    ensures
        yes == lexical::is_name_char(c),
{
    is_name_start(c) || is_digit(c)
}

fn is_blank(c: char) -> (yes: bool)
    ensures
        yes == lexical::is_blank(c),
{
    c == ' ' || c == '\t' || c == '\u{c}'
}

fn is_quote(c: char) -> (yes: bool)
    ensures
        yes == lexical::is_quote(c),
{
    c == '\'' || c == '"'
}

fn digit_value(c: char, radix: u32) -> (value: Option<u32>)
    requires
        radix <= 16,
    ensures
        value is Some <==> lexical::digit_value(c, radix as int) is Some,
        value is Some ==> value->0 == lexical::digit_value(c, radix as int)->0,
{
    let value: u32 = if '0' <= c && c <= '9' {
        c as u32 - '0' as u32
    } else if 'a' <= c && c <= 'f' {
        c as u32 - 'a' as u32 + 10
    } else if 'A' <= c && c <= 'F' {
        c as u32 - 'A' as u32 + 10
    } else {
        16
    };
    if value < radix {
        Some(value)
    } else {
        None
    }
}

fn is_at(text: &Vec<char>, at: usize, c: char) -> (yes: bool)
    ensures
        yes == lexical::is_at(text@, at as int, c),
{
    at < text.len() && text[at] == c
}

fn digits_end(text: &Vec<char>, from: usize, radix: u32) -> (end: usize)
    requires
        from <= text.len(),
        radix <= 16,
    ensures
        end == lexical::digits_end(text@, from as int, radix as int),
        from <= end <= text.len(),
        forall|i: int|
            from <= i < end ==> #[trigger] lexical::digit_value(text@[i], radix as int) is Some,
{
    let mut at: usize = from;
    while at < text.len() && digit_value(text[at], radix).is_some()
        invariant
            from <= at <= text.len(),
            radix <= 16,
            lexical::digits_end(text@, from as int, radix as int) == lexical::digits_end(
                text@,
                at as int,
                radix as int,
            ),
            forall|i: int|
                from <= i < at ==> #[trigger] lexical::digit_value(text@[i], radix as int) is Some,
        decreases text.len() - at,
    {
        at += 1;
    }
    at
}

fn name_end(text: &Vec<char>, from: usize) -> (end: usize)
    requires
        from <= text.len(),
    ensures
        end == lexical::name_end(text@, from as int),
        from <= end <= text.len(),
        from < text.len() && lexical::is_name_char(text@[from as int]) ==> from < end,
{
    let mut at: usize = from;
    while at < text.len() && is_name_char(text[at])
        invariant
            from <= at <= text.len(),
            lexical::name_end(text@, from as int) == lexical::name_end(text@, at as int),
        decreases text.len() - at,
    {
        at += 1;
    }
    at
}

fn spaces_end(text: &Vec<char>, from: usize) -> (end: usize)
    requires
        from <= text.len(),
    ensures
        end == lexical::spaces_end(text@, from as int),
        from <= end <= text.len(),
{
    let mut at: usize = from;
    while is_at(text, at, ' ')
        invariant
            from <= at <= text.len(),
            lexical::spaces_end(text@, from as int) == lexical::spaces_end(text@, at as int),
        decreases text.len() - at,
    {
        at += 1;
    }
    at
}

fn line_end(text: &Vec<char>, from: usize) -> (end: usize)
    requires
        from <= text.len(),
    ensures
        end == lexical::line_end(text@, from as int),
        from <= end <= text.len(),
        from < text.len() && text@[from as int] != '\n' ==> from < end,
{
    let mut at: usize = from;
    while at < text.len() && text[at] != '\n'
        invariant
            from <= at <= text.len(),
            lexical::line_end(text@, from as int) == lexical::line_end(text@, at as int),
        decreases text.len() - at,
    {
        at += 1;
    }
    at
}

/// The characters in a range, as a string.
fn slice(text: &Vec<char>, from: usize, to: usize) -> (part: String)
    requires
        from <= to <= text.len(),
    ensures
        part@ == text@.subrange(from as int, to as int),
{
    let mut part: String = String::new();
    let mut at: usize = from;
    while at < to
        invariant
            from <= at <= to <= text.len(),
            part@ == text@.subrange(from as int, at as int),
        decreases to - at,
    {
        part.push(text[at]);
        at += 1;
    }
    part
}

// ---------------------------------------------------------------------------------------------
// Numbers.

/// What is cut out at a place: a token's content with the place after it.
type Lexeme = Result<(Tok, usize), LexicalError>;

/// Whether what was cut out is what the text calls for, and lies within the text.
spec fn cuts(lexeme: Lexeme, expected: lexical::Lexeme, at: int, length: int) -> bool {
    match (lexeme, expected) {
        (Ok((tok, end)), Ok((tok_model, end_model))) => {
            &&& tok.model() == tok_model
            &&& end == end_model
            &&& at < end <= length
        },
        (Err(error), Err(error_model)) => error == error_model,
        _ => false,
    }
}

proof fn lemma_number_grows(text: Seq<char>, from: int, at: int, to: int, radix: int)
    requires
        0 <= from <= at <= to <= text.len(),
        radix >= 1,
    ensures
        0 <= lexical::number(text.subrange(from, at), radix) <= lexical::number(
            text.subrange(from, to),
            radix,
        ),
    decreases to - from, to - at,
{
    let whole = text.subrange(from, to);
    if at < to {
        lemma_number_grows(text, from, at, to - 1, radix);
        assert(whole.drop_last() =~= text.subrange(from, to - 1));
        let less = lexical::number(whole.drop_last(), radix);
        assert(less * radix >= less) by (nonlinear_arith)
            requires
                less >= 0,
                radix >= 1,
        ;
    } else if from < at {
        lemma_number_grows(text, from, at - 1, to - 1, radix);
        assert(whole.drop_last() =~= text.subrange(from, to - 1));
        let less = lexical::number(whole.drop_last(), radix);
        assert(less * radix >= 0) by (nonlinear_arith)
            requires
                less >= 0,
                radix >= 1,
        ;
    }
}

/// An integer of the digits in a range.
fn integer(text: &Vec<char>, from: usize, to: usize, radix: u32) -> (lexeme: Lexeme)
    requires
        from <= to <= text.len(),
        1 <= radix <= 16,
        forall|i: int|
            from <= i < to ==> #[trigger] lexical::digit_value(text@[i], radix as int) is Some,
    ensures
        cuts(
            lexeme,
            lexical::integer(text@, from as int, to as int, radix as int),
            to - 1,
            text.len() as int,
        ),
        lexeme is Ok ==> from < to,
{
    if from == to {
        return Err(LexicalError::NumberError);
    }
    let mut value: u64 = 0;
    let mut at: usize = from;
    while at < to
        invariant
            from <= at <= to <= text.len(),
            from < to,
            1 <= radix <= 16,
            forall|i: int|
                from <= i < to ==> #[trigger] lexical::digit_value(text@[i], radix as int) is Some,
            value == lexical::number(text@.subrange(from as int, at as int), radix as int),
            value <= i32::MAX,
        decreases to - at,
    {
        let ghost next = text@.subrange(from as int, at + 1);
        assert(next.drop_last() =~= text@.subrange(from as int, at as int));
        assert(lexical::digit_value(text@[at as int], radix as int) is Some);
        match digit_value(text[at], radix) {
            Some(digit) => {
                assert(value * radix <= 0x7fff_ffff * 16) by (nonlinear_arith)
                    requires
                        value <= 0x7fff_ffff,
                        radix <= 16,
                ;
                value = value * radix as u64 + digit as u64;
            },
            None => {},
        }
        at += 1;
        assert(value == lexical::number(next, radix as int));
        if value > 0x7fff_ffff {
            proof {
                lemma_number_grows(text@, from as int, at as int, to as int, radix as int);
            }
            return Err(LexicalError::NumberError);
        }
    }
    Ok((Tok::Int { value: value as i32 }, to))
}

fn prefix_radix(c: char) -> (radix: Option<u32>)
    ensures
        radix is Some <==> lexical::prefix_radix(c) is Some,
        radix is Some ==> radix->0 == lexical::prefix_radix(c)->0 && 1 <= radix->0 <= 16,
{
    if c == 'x' || c == 'X' {
        Some(16)
    } else if c == 'o' || c == 'O' {
        Some(8)
    } else if c == 'b' || c == 'B' {
        Some(2)
    } else {
        None
    }
}

fn exponent_end(text: &Vec<char>, at: usize) -> (end: usize)
    requires
        at <= text.len() < usize::MAX,
    ensures
        end == lexical::exponent_end(text@, at as int),
        at <= end <= text.len(),
{
    if is_at(text, at, 'e') || is_at(text, at, 'E') {
        let digits: usize = if is_at(text, at + 1, '+') || is_at(text, at + 1, '-') {
            at + 2
        } else {
            at + 1
        };
        let end: usize = digits_end(text, digits, 10);
        if end > digits {
            end
        } else {
            at
        }
    } else {
        at
    }
}

/// A number.
fn lex_number(text: &Vec<char>, at: usize) -> (lexeme: Lexeme)
    requires
        at < text.len() < usize::MAX,
        lexical::is_digit(text@[at as int]) || text@[at as int] == '.',
    ensures
        cuts(lexeme, lexical::lex_number(text@, at as int), at as int, text.len() as int),
{
    if is_at(text, at, '0') && at + 1 < text.len() {
        match prefix_radix(text[at + 1]) {
            Some(radix) => {
                let end: usize = digits_end(text, at + 2, radix);
                return integer(text, at + 2, end, radix);
            },
            None => {},
        }
    }
    let whole: usize = digits_end(text, at, 10);
    let fraction: usize = if is_at(text, whole, '.') {
        digits_end(text, whole + 1, 10)
    } else {
        whole
    };
    let end: usize = exponent_end(text, fraction);
    if end == whole {
        integer(text, at, whole, 10)
    } else {
        Ok((Tok::Float { literal: slice(text, at, end) }, end))
    }
}

// ---------------------------------------------------------------------------------------------
// Strings.

/// Adds what a character behind a backslash stands for.
fn push_escaped(content: &mut Vec<char>, c: char)
    ensures
        final(content)@ == old(content)@ + lexical::escaped(c),
{
    if c == '\\' || c == '\'' || c == '"' {
        content.push(c);
    } else if c == '\n' {
    } else if c == 'a' {
        content.push('\u{7}');
    } else if c == 'b' {
        content.push('\u{8}');
    } else if c == 'f' {
        content.push('\u{c}');
    } else if c == 'n' {
        content.push('\n');
    } else if c == 'r' {
        content.push('\r');
    } else if c == 't' {
        content.push('\t');
    } else if c == 'v' {
        content.push('\u{b}');
    } else {
        content.push('\\');
        content.push(c);
    }
    assert(content@ =~= old(content)@ + lexical::escaped(c));
}

fn closes(text: &Vec<char>, at: usize, quotes: &Quotes) -> (yes: bool)
    requires
        at < text.len() < usize::MAX,
    ensures
        yes == lexical::closes(text@, at as int, *quotes),
{
    is_at(text, at, quotes.quote) && (!quotes.triple || (is_at(text, at + 1, quotes.quote) && is_at(
        text,
        at + 2,
        quotes.quote,
    )))
}

/// The content of a string from a place on, and the place after the closing quotes.
fn string_rest(text: &Vec<char>, from: usize, quotes: &Quotes) -> (rest: Option<
    (Vec<char>, usize),
>)
    requires
        from <= text.len() < usize::MAX,
    ensures
        match (rest, lexical::string_rest(text@, from as int, *quotes)) {
            (Some((content, end)), Some((content_model, end_model))) => {
                &&& content@ == content_model
                &&& end == end_model
                &&& from < end <= text.len()
            },
            (None, None) => true,
            _ => false,
        },
{
    let mut content: Vec<char> = Vec::new();
    let mut at: usize = from;
    while at < text.len()
        invariant
            from <= at <= text.len() < usize::MAX,
            match (
                lexical::string_rest(text@, from as int, *quotes),
                lexical::string_rest(text@, at as int, *quotes),
            ) {
                (Some((whole, end)), Some((rest, rest_end))) => {
                    &&& whole == content@ + rest
                    &&& end == rest_end
                },
                (None, None) => true,
                _ => false,
            },
        decreases text.len() - at,
    {
        if closes(text, at, quotes) {
            assert(content@ + Seq::<char>::empty() =~= content@);
            let end: usize = if quotes.triple {
                at + 3
            } else {
                at + 1
            };
            return Some((content, end));
        }
        if text[at] == '\n' && !quotes.triple {
            return None;
        }
        let ghost before = content@;
        let ghost old_at = at as int;
        if text[at] == '\\' && at + 1 < text.len() {
            if quotes.raw {
                content.push('\\');
                content.push(text[at + 1]);
            } else {
                push_escaped(&mut content, text[at + 1]);
            }
            at += 2;
        } else {
            content.push(text[at]);
            at += 1;
        }
        proof {
            let added = content@.skip(before.len() as int);
            assert(content@ =~= before + added);
            if text@[old_at] == '\\' && old_at + 1 < text.len() {
                if quotes.raw {
                    assert(added =~= seq!['\\', text@[old_at + 1]]);
                } else {
                    assert(added =~= lexical::escaped(text@[old_at + 1]));
                }
            } else {
                assert(added =~= seq![text@[old_at]]);
            }
            match lexical::string_rest(text@, at as int, *quotes) {
                Some((rest, end)) => {
                    assert(lexical::string_rest(text@, old_at, *quotes) == Some(
                        (added + rest, end),
                    ));
                    assert(before + (added + rest) =~= content@ + rest);
                },
                None => {
                    assert(lexical::string_rest(text@, old_at, *quotes) is None);
                },
            }
        }
    }
    None
}

/// The bytes that characters stand for, if each of them is a byte of its own.
fn ascii_bytes(content: &Vec<char>) -> (bytes: Option<Vec<u8>>)
    ensures
        match (bytes, lexical::ascii_bytes(content@)) {
            (Some(value), Some(model)) => value@ == model,
            (None, None) => true,
            _ => false,
        },
{
    let mut value: Vec<u8> = Vec::new();
    let mut at: usize = 0;
    while at < content.len()
        invariant
            at <= content.len(),
            value.len() == at,
            forall|i: int| 0 <= i < at ==> #[trigger] content@[i] <= '\u{7f}',
            forall|i: int| 0 <= i < at ==> #[trigger] value@[i] == content@[i] as u8,
        decreases content.len() - at,
    {
        let c: char = content[at];
        if c > '\u{7f}' {
            return None;
        }
        value.push(c as u8);
        at += 1;
    }
    assert(value@ =~= content@.map_values(|c: char| c as u8));
    Some(value)
}

/// The prefix that a word is, if it is one.
fn string_prefix(text: &Vec<char>, from: usize, to: usize) -> (prefix: Option<StringPrefix>)
    requires
        from <= to <= text.len(),
    ensures
        prefix == lexical::string_prefix(text@.subrange(from as int, to as int)),
{
    if to - from == 1 {
        let c: char = text[from];
        if c == 'u' || c == 'U' {
            Some(StringPrefix { raw: false, bytes: false })
        } else if c == 'r' || c == 'R' {
            Some(StringPrefix { raw: true, bytes: false })
        } else if c == 'b' || c == 'B' {
            Some(StringPrefix { raw: false, bytes: true })
        } else {
            None
        }
    } else if to - from == 2 {
        let c: char = text[from];
        let d: char = text[from + 1];
        if ((c == 'b' || c == 'B') && (d == 'r' || d == 'R')) || ((c == 'r' || c == 'R') && (d
            == 'b' || d == 'B')) {
            Some(StringPrefix { raw: true, bytes: true })
        } else {
            None
        }
    } else {
        None
    }
}

/// A string whose opening quotes are at a place.
fn lex_string(text: &Vec<char>, at: usize, prefix: &StringPrefix) -> (lexeme: Lexeme)
    requires
        at < text.len() < usize::MAX,
    ensures
        cuts(lexeme, lexical::lex_string(text@, at as int, *prefix), at as int, text.len() as int),
{
    let quote: char = text[at];
    let triple: bool = is_at(text, at + 1, quote) && is_at(text, at + 2, quote);
    let from: usize = if triple {
        at + 3
    } else {
        at + 1
    };
    match string_rest(text, from, &Quotes { quote, triple, raw: prefix.raw }) {
        Some((content, end)) => if prefix.bytes {
            match ascii_bytes(&content) {
                Some(value) => Ok((Tok::Bytes { value }, end)),
                None => Err(LexicalError::StringError),
            }
        } else {
            let value: String = slice(&content, 0, content.len());
            assert(content@.subrange(0, content.len() as int) =~= content@);
            Ok((Tok::String { value }, end))
        },
        None => Err(LexicalError::StringError),
    }
}

// ---------------------------------------------------------------------------------------------
// Words and operators.

/// Whether the characters in a range spell a word.
fn is_word(text: &Vec<char>, from: usize, to: usize, word: &str) -> (yes: bool)
    requires
        from <= to <= text.len(),
    ensures
        yes == (text@.subrange(from as int, to as int) == word@),
{
    let ghost part = text@.subrange(from as int, to as int);
    if word.unicode_len() != to - from {
        assert(part.len() != word@.len());
        return false;
    }
    let mut at: usize = 0;
    while at < to - from
        invariant
            from <= to <= text.len(),
            at <= to - from,
            part == text@.subrange(from as int, to as int),
            word@.len() == to - from,
            forall|i: int| 0 <= i < at ==> part[i] == #[trigger] word@[i],
        decreases to - from - at,
    {
        if text[from + at] != word.get_char(at) {
            assert(part[at as int] != word@[at as int]);
            return false;
        }
        at += 1;
    }
    assert(part =~= word@);
    true
}

/// The keyword that a word is, if it is one.
fn keyword(text: &Vec<char>, from: usize, to: usize) -> (symbol: Option<Symbol>)
    requires
        from <= to <= text.len(),
    ensures
        symbol == lexical::keyword(text@.subrange(from as int, to as int)),
{
    if is_word(text, from, to, "False") {
        Some(Symbol::False)
    } else if is_word(text, from, to, "None") {
        Some(Symbol::NoneWord)
    } else if is_word(text, from, to, "True") {
        Some(Symbol::True)
    } else if is_word(text, from, to, "and") {
        Some(Symbol::And)
    } else if is_word(text, from, to, "as") {
        Some(Symbol::As)
    } else if is_word(text, from, to, "assert") {
        Some(Symbol::Assert)
    } else if is_word(text, from, to, "break") {
        Some(Symbol::Break)
    } else if is_word(text, from, to, "class") {
        Some(Symbol::Class)
    } else if is_word(text, from, to, "continue") {
        Some(Symbol::Continue)
    } else if is_word(text, from, to, "def") {
        Some(Symbol::Def)
    } else if is_word(text, from, to, "del") {
        Some(Symbol::Del)
    } else if is_word(text, from, to, "elif") {
        Some(Symbol::Elif)
    } else if is_word(text, from, to, "else") {
        Some(Symbol::Else)
    } else if is_word(text, from, to, "except") {
        Some(Symbol::Except)
    } else if is_word(text, from, to, "finally") {
        Some(Symbol::Finally)
    } else if is_word(text, from, to, "for") {
        Some(Symbol::For)
    } else if is_word(text, from, to, "from") {
        Some(Symbol::From)
    } else if is_word(text, from, to, "global") {
        Some(Symbol::Global)
    } else if is_word(text, from, to, "if") {
        Some(Symbol::If)
    } else if is_word(text, from, to, "import") {
        Some(Symbol::Import)
    } else if is_word(text, from, to, "in") {
        Some(Symbol::In)
    } else if is_word(text, from, to, "is") {
        Some(Symbol::Is)
    } else if is_word(text, from, to, "lambda") {
        Some(Symbol::Lambda)
    } else if is_word(text, from, to, "nonlocal") {
        Some(Symbol::Nonlocal)
    } else if is_word(text, from, to, "not") {
        Some(Symbol::Not)
    } else if is_word(text, from, to, "or") {
        Some(Symbol::Or)
    } else if is_word(text, from, to, "pass") {
        Some(Symbol::Pass)
    } else if is_word(text, from, to, "raise") {
        Some(Symbol::Raise)
    } else if is_word(text, from, to, "return") {
        Some(Symbol::Return)
    } else if is_word(text, from, to, "try") {
        Some(Symbol::Try)
    } else if is_word(text, from, to, "while") {
        Some(Symbol::While)
    } else if is_word(text, from, to, "with") {
        Some(Symbol::With)
    } else if is_word(text, from, to, "yield") {
        Some(Symbol::Yield)
    } else {
        None
    }
}

/// A name, a keyword, or a string with a prefix.
fn lex_word(text: &Vec<char>, at: usize) -> (lexeme: Lexeme)
    requires
        at < text.len() < usize::MAX,
        lexical::is_name_start(text@[at as int]),
    ensures
        cuts(lexeme, lexical::lex_word(text@, at as int), at as int, text.len() as int),
{
    let end: usize = name_end(text, at);
    if end < text.len() && is_quote(text[end]) {
        match string_prefix(text, at, end) {
            Some(prefix) => {
                return lex_string(text, end, &prefix);
            },
            None => {},
        }
    }
    match keyword(text, at, end) {
        Some(symbol) => Ok((Tok::Symbol(symbol), end)),
        None => Ok((Tok::Name { name: slice(text, at, end) }, end)),
    }
}

fn operator1(a: char) -> (symbol: Option<Symbol>)
    ensures
        symbol == lexical::operator1(a),
{
    if a == '(' {
        Some(Symbol::Lpar)
    } else if a == ')' {
        Some(Symbol::Rpar)
    } else if a == '[' {
        Some(Symbol::Lsqb)
    } else if a == ']' {
        Some(Symbol::Rsqb)
    } else if a == '{' {
        Some(Symbol::Lbrace)
    } else if a == '}' {
        Some(Symbol::Rbrace)
    } else if a == ':' {
        Some(Symbol::Colon)
    } else if a == ',' {
        Some(Symbol::Comma)
    } else if a == ';' {
        Some(Symbol::Semi)
    } else if a == '+' {
        Some(Symbol::Plus)
    } else if a == '-' {
        Some(Symbol::Minus)
    } else if a == '*' {
        Some(Symbol::Star)
    } else if a == '/' {
        Some(Symbol::Slash)
    } else if a == '|' {
        Some(Symbol::Vbar)
    } else if a == '&' {
        Some(Symbol::Amper)
    } else if a == '<' {
        Some(Symbol::Less)
    } else if a == '>' {
        Some(Symbol::Greater)
    } else if a == '=' {
        Some(Symbol::Equal)
    } else if a == '.' {
        Some(Symbol::Dot)
    } else if a == '%' {
        Some(Symbol::Percent)
    } else if a == '~' {
        Some(Symbol::Tilde)
    } else if a == '^' {
        Some(Symbol::CircumFlex)
    } else if a == '@' {
        Some(Symbol::At)
    } else {
        None
    }
}

fn operator2(a: char, b: char) -> (symbol: Option<Symbol>)
    ensures
        symbol == lexical::operator2(a, b),
{
    if a == '=' && b == '=' {
        Some(Symbol::EqEqual)
    } else if a == '!' && b == '=' {
        Some(Symbol::NotEqual)
    } else if a == '<' && b == '=' {
        Some(Symbol::LessEqual)
    } else if a == '>' && b == '=' {
        Some(Symbol::GreaterEqual)
    } else if a == '<' && b == '<' {
        Some(Symbol::LeftShift)
    } else if a == '>' && b == '>' {
        Some(Symbol::RightShift)
    } else if a == '*' && b == '*' {
        Some(Symbol::DoubleStar)
    } else if a == '+' && b == '=' {
        Some(Symbol::PlusEqual)
    } else if a == '-' && b == '=' {
        Some(Symbol::MinusEqual)
    } else if a == '*' && b == '=' {
        Some(Symbol::StarEqual)
    } else if a == '/' && b == '=' {
        Some(Symbol::SlashEqual)
    } else if a == '%' && b == '=' {
        Some(Symbol::PercentEqual)
    } else if a == '&' && b == '=' {
        Some(Symbol::AmperEqual)
    } else if a == '|' && b == '=' {
        Some(Symbol::VbarEqual)
    } else if a == '^' && b == '=' {
        Some(Symbol::CircumflexEqual)
    } else if a == '/' && b == '/' {
        Some(Symbol::DoubleSlash)
    } else if a == '@' && b == '=' {
        Some(Symbol::AtEqual)
    } else {
        None
    }
}

fn operator3(a: char, b: char, c: char) -> (symbol: Option<Symbol>)
    ensures
        symbol == lexical::operator3(a, b, c),
{
    if a == '<' && b == '<' && c == '=' {
        Some(Symbol::LeftShiftEqual)
    } else if a == '>' && b == '>' && c == '=' {
        Some(Symbol::RightShiftEqual)
    } else if a == '*' && b == '*' && c == '=' {
        Some(Symbol::DoubleStarEqual)
    } else if a == '/' && b == '/' && c == '=' {
        Some(Symbol::DoubleSlashEqual)
    } else {
        None
    }
}

/// The longest operator at a place, and its length.
fn operator(text: &Vec<char>, at: usize) -> (found: Option<(Symbol, usize)>)
    requires
        at < text.len() < usize::MAX,
    ensures
        match (found, lexical::operator(text@, at as int)) {
            (Some((symbol, length)), Some((symbol_model, length_model))) => {
                &&& symbol == symbol_model
                &&& length == length_model
                &&& 0 < length <= text.len() - at
            },
            (None, None) => true,
            _ => false,
        },
{
    if text.len() - at > 2 {
        match operator3(text[at], text[at + 1], text[at + 2]) {
            Some(symbol) => {
                return Some((symbol, 3));
            },
            None => {},
        }
    }
    if text.len() - at > 1 {
        match operator2(text[at], text[at + 1]) {
            Some(symbol) => {
                return Some((symbol, 2));
            },
            None => {},
        }
    }
    match operator1(text[at]) {
        Some(symbol) => Some((symbol, 1)),
        None => None,
    }
}

// ---------------------------------------------------------------------------------------------
// The whole text.

/// Where the cutting stands.
struct Lexer {
    at: usize,
    location: Location,
    line_begins: bool,
    nesting: usize,
    indents: Vec<usize>,
}

/// How the cutting goes on.
enum Progress {
    GoesOn,
    Error(LexicalError),
    End,
}

impl Lexer {
    spec fn cursor(self) -> Cursor {
        Cursor {
            at: self.at as int,
            line_begins: self.line_begins,
            nesting: self.nesting as int,
            indents: widths(self.indents@),
        }
    }

    spec fn well_formed(self, text: Seq<char>) -> bool {
        &&& self.at <= text.len() < usize::MAX
        &&& self.location == lexical::location_at(text, self.at as int)
        &&& self.nesting <= self.at
        &&& self.indents.len() > 0
        &&& self.indents@[0] == 0
    }
}

spec fn widths(indents: Seq<usize>) -> Seq<int> {
    indents.map_values(|width: usize| width as int)
}

/// Whether one cut was made as the text calls for.
spec fn has_cut(
    text: Seq<char>,
    before: Lexer,
    tokens_before: Seq<Token>,
    after: Lexer,
    tokens_after: Seq<Token>,
    progress: Progress,
) -> bool {
    match (progress, lexical::cut(text, before.cursor())) {
        (Progress::GoesOn, Cut::Tokens(tokens, cursor)) => {
            &&& after.well_formed(text)
            &&& after.cursor() == cursor
            &&& lexical::goes_on(before.cursor(), cursor, text.len() as int)
            &&& token::token_models(tokens_after) == token::token_models(tokens_before) + tokens
        },
        (Progress::Error(error), Cut::Error(error_model)) => {
            &&& error == error_model
            &&& tokens_after == tokens_before
        },
        (Progress::End, Cut::End(tokens)) => token::token_models(tokens_after)
            == token::token_models(tokens_before) + tokens,
        _ => false,
    }
}

proof fn lemma_push_token(tokens: Seq<Token>, token: Token)
    ensures
        token::token_models(tokens.push(token)) == token::token_models(tokens).push(token.model()),
        token::token_models(tokens.push(token)) == token::token_models(tokens) + seq![
            token.model(),
        ],
{
    assert(token::token_models(tokens.push(token)) =~= token::token_models(tokens).push(
        token.model(),
    ));
    assert(token::token_models(tokens).push(token.model()) =~= token::token_models(tokens) + seq![
        token.model(),
    ]);
}

/// Adds tokens for blocks that end at a place.
fn push_dedents(
    tokens: &mut Vec<Token>,
    location: Location,
    count: usize,
    Ghost(text): Ghost<Seq<char>>,
    Ghost(at): Ghost<int>,
)
    requires
        location == lexical::location_at(text, at),
    ensures
        token::token_models(final(tokens)@) == token::token_models(old(tokens)@)
            + lexical::dedents(text, at, count as int),
{
    let mut added: usize = 0;
    assert(token::token_models(tokens@) + lexical::dedents(text, at, 0) =~= token::token_models(
        tokens@,
    ));
    while added < count
        invariant
            added <= count,
            location == lexical::location_at(text, at),
            token::token_models(tokens@) == token::token_models(old(tokens)@) + lexical::dedents(
                text,
                at,
                added as int,
            ),
        decreases count - added,
    {
        let dedent = Token { start: location, tok: Tok::Symbol(Symbol::Dedent), end: location };
        proof {
            lemma_push_token(tokens@, dedent);
            assert(lexical::dedents(text, at, added + 1) =~= lexical::dedents(
                text,
                at,
                added as int,
            ).push(dedent.model()));
        }
        tokens.push(dedent);
        added += 1;
        assert(token::token_models(tokens@) =~= token::token_models(old(tokens)@)
            + lexical::dedents(text, at, added as int));
    }
}

impl Lexer {
    /// The number of blocks that are deeper than an indentation.
    fn deeper(&self, width: usize) -> (count: usize)
        ensures
            count == lexical::deeper(widths(self.indents@), width as int),
            count <= self.indents.len(),
    {
        let ghost all = widths(self.indents@);
        let mut count: usize = 0;
        let mut left: usize = self.indents.len();
        assert(all.take(left as int) =~= all);
        while left > 0 && width < self.indents[left - 1]
            invariant
                all == widths(self.indents@),
                left + count == self.indents.len(),
                lexical::deeper(all, width as int) == lexical::deeper(
                    all.take(left as int),
                    width as int,
                ) + count,
            decreases left,
        {
            assert(all.take(left as int).drop_last() =~= all.take(left - 1));
            left -= 1;
            count += 1;
        }
        count
    }

    /// Cuts at the beginning of a line.
    fn cut_line_begin(&mut self, text: &Vec<char>, tokens: &mut Vec<Token>) -> (progress: Progress)
        requires
            old(self).well_formed(text@),
            old(self).line_begins,
        ensures
            has_cut(text@, *old(self), old(tokens)@, *final(self), final(tokens)@, progress),
    {
        let ghost before = *self;
        let ghost models = token::token_models(tokens@);
        assert(models + Seq::<TokenModel>::empty() =~= models);
        let end: usize = spaces_end(text, self.at);
        let width: usize = if end == text.len() {
            0
        } else {
            end - self.at
        };
        let current: usize = self.indents[self.indents.len() - 1];
        assert(current as int == self.cursor().indents.last());
        if is_at(text, end, '#') {
            let next: usize = line_end(text, end);
            self.location = advance(text, self.location, self.at, next);
            self.at = next;
            return Progress::GoesOn;
        }
        if is_at(text, end, '\n') {
            self.location = advance(text, self.location, self.at, end + 1);
            self.at = end + 1;
            return Progress::GoesOn;
        }
        if is_at(text, end, '\t') {
            return Progress::Error(LexicalError::TabError);
        }
        let place = advance(text, self.location, self.at, end);
        if width == current {
            self.location = place;
            self.at = end;
            self.line_begins = false;
            return Progress::GoesOn;
        }
        if width > current {
            let indent = Token { start: place, tok: Tok::Symbol(Symbol::Indent), end: place };
            proof {
                lemma_push_token(tokens@, indent);
            }
            tokens.push(indent);
            self.location = place;
            self.at = end;
            self.line_begins = false;
            self.indents.push(width);
            assert(self.cursor().indents =~= before.cursor().indents.push(width as int));
            return Progress::GoesOn;
        }
        let count: usize = self.deeper(width);
        let left: usize = self.indents.len() - count;
        assert(widths(self.indents@.take(left as int)) =~= before.cursor().indents.take(
            left as int,
        ));
        if left > 0 && self.indents[left - 1] == width {
            assert(before.cursor().indents.take(left as int).last() == width as int);
            self.indents.truncate(left);
            assert(self.indents@ =~= before.indents@.take(left as int));
            push_dedents(tokens, place, count, Ghost(text@), Ghost(end as int));
            self.location = place;
            self.at = end;
            self.line_begins = false;
            Progress::GoesOn
        } else {
            Progress::Error(LexicalError::IndentationError)
        }
    }

    /// Takes in a token with a content of its own.
    fn cut_lexeme(
        &mut self,
        text: &Vec<char>,
        tokens: &mut Vec<Token>,
        lexeme: Lexeme,
        Ghost(expected): Ghost<lexical::Lexeme>,
    ) -> (progress: Progress)
        requires
            old(self).well_formed(text@),
            !old(self).line_begins,
            cuts(lexeme, expected, old(self).at as int, text.len() as int),
            lexical::cut(text@, old(self).cursor()) == lexical::cut_lexeme(
                text@,
                old(self).cursor(),
                expected,
            ),
        ensures
            has_cut(text@, *old(self), old(tokens)@, *final(self), final(tokens)@, progress),
    {
        match lexeme {
            Ok((tok, end)) => {
                let place = advance(text, self.location, self.at, end);
                let token = Token { start: self.location, tok, end: place };
                proof {
                    lemma_push_token(tokens@, token);
                }
                tokens.push(token);
                self.location = place;
                self.at = end;
                Progress::GoesOn
            },
            Err(error) => Progress::Error(error),
        }
    }

    /// Cuts an operator.
    fn cut_operator(&mut self, text: &Vec<char>, tokens: &mut Vec<Token>) -> (progress: Progress)
        requires
            old(self).well_formed(text@),
            !old(self).line_begins,
            old(self).at < text.len(),
            lexical::cut(text@, old(self).cursor()) == lexical::cut_operator(
                text@,
                old(self).cursor(),
            ),
        ensures
            has_cut(text@, *old(self), old(tokens)@, *final(self), final(tokens)@, progress),
    {
        match operator(text, self.at) {
            Some((symbol, length)) => {
                let opens: bool = symbol == Symbol::Lpar || symbol == Symbol::Lsqb || symbol
                    == Symbol::Lbrace;
                let closes: bool = symbol == Symbol::Rpar || symbol == Symbol::Rsqb || symbol
                    == Symbol::Rbrace;
                if closes && self.nesting == 0 {
                    return Progress::Error(LexicalError::NestingError);
                }
                let end: usize = self.at + length;
                let place = advance(text, self.location, self.at, end);
                let token = Token { start: self.location, tok: Tok::Symbol(symbol), end: place };
                proof {
                    lemma_push_token(tokens@, token);
                }
                tokens.push(token);
                if opens {
                    self.nesting += 1;
                } else if closes {
                    self.nesting -= 1;
                }
                self.location = place;
                self.at = end;
                Progress::GoesOn
            },
            None => Progress::Error(
                LexicalError::UnrecognizedCharacter { character: text[self.at] },
            ),
        }
    }

    /// Goes on to a place without a token.
    fn skip_to(&mut self, text: &Vec<char>, to: usize)
        requires
            old(self).well_formed(text@),
            old(self).at <= to <= text.len(),
        ensures
            final(self).well_formed(text@),
            final(self).cursor() == (Cursor { at: to as int, ..old(self).cursor() }),
            final(self).line_begins == old(self).line_begins,
            final(self).at == to,
    {
        self.location = advance(text, self.location, self.at, to);
        self.at = to;
    }

    /// Makes one cut.
    fn cut(&mut self, text: &Vec<char>, tokens: &mut Vec<Token>) -> (progress: Progress)
        requires
            old(self).well_formed(text@),
        ensures
            has_cut(text@, *old(self), old(tokens)@, *final(self), final(tokens)@, progress),
    {
        if self.line_begins {
            return self.cut_line_begin(text, tokens);
        }
        let ghost models = token::token_models(tokens@);
        assert(models + Seq::<TokenModel>::empty() =~= models);
        let at: usize = self.at;
        if at == text.len() {
            if self.nesting > 0 {
                return Progress::Error(LexicalError::NestingError);
            }
            push_dedents(
                tokens,
                self.location,
                self.indents.len() - 1,
                Ghost(text@),
                Ghost(at as int),
            );
            return Progress::End;
        }
        let c: char = text[at];
        if is_digit(c) || (c == '.' && at + 1 < text.len() && is_digit(text[at + 1])) {
            let lexeme = lex_number(text, at);
            self.cut_lexeme(text, tokens, lexeme, Ghost(lexical::lex_number(text@, at as int)))
        } else if is_name_start(c) {
            let lexeme = lex_word(text, at);
            self.cut_lexeme(text, tokens, lexeme, Ghost(lexical::lex_word(text@, at as int)))
        } else if is_quote(c) {
            let prefix = StringPrefix { raw: false, bytes: false };
            let lexeme = lex_string(text, at, &prefix);
            self.cut_lexeme(
                text,
                tokens,
                lexeme,
                Ghost(lexical::lex_string(text@, at as int, prefix)),
            )
        } else if c == '#' {
            let end: usize = line_end(text, at);
            self.skip_to(text, end);
            Progress::GoesOn
        } else if c == '\n' {
            if self.nesting == 0 {
                let start = self.location;
                self.skip_to(text, at + 1);
                self.line_begins = true;
                let newline = Token {
                    start,
                    tok: Tok::Symbol(Symbol::Newline),
                    end: self.location,
                };
                proof {
                    lemma_push_token(tokens@, newline);
                }
                tokens.push(newline);
                Progress::GoesOn
            } else {
                self.skip_to(text, at + 1);
                Progress::GoesOn
            }
        } else if is_blank(c) {
            self.skip_to(text, at + 1);
            Progress::GoesOn
        } else {
            self.cut_operator(text, tokens)
        }
    }
}

/// Cuts a source text into tokens.
pub fn make_tokenizer(source: &str) -> (tokenizer: Tokenizer)
    ensures
        tokenizer.model() == lexical::lex(source@),
{
    let characters = characters(source);
    let unified = unify_newlines(&characters);
    let text = join_lines(&unified);
    let mut tokens: Vec<Token> = Vec::new();
    if text.len() == usize::MAX {
        assert(token::token_models(tokens@) =~= Seq::empty());
        return Tokenizer { tokens, error: Some(LexicalError::TooLong) };
    }
    let mut indents: Vec<usize> = Vec::new();
    indents.push(0);
    let mut lexer = Lexer {
        at: 0,
        location: Location::new(1, 1),
        line_begins: true,
        nesting: 0,
        indents,
    };
    proof {
        assert(lexer.cursor().indents =~= seq![0]);
        let rest = lexical::lex_from(text@, lexer.cursor()).tokens;
        assert(token::token_models(tokens@) + rest =~= rest);
    }
    loop
        invariant
            lexer.well_formed(text@),
            lexical::lex(source@) == (Lexed {
                tokens: token::token_models(tokens@) + lexical::lex_from(
                    text@,
                    lexer.cursor(),
                ).tokens,
                error: lexical::lex_from(text@, lexer.cursor()).error,
            }),
        decreases
                text.len() - lexer.at,
                if lexer.line_begins {
                    1nat
                } else {
                    0nat
                },
    {
        let ghost before = lexer.cursor();
        let ghost models = token::token_models(tokens@);
        match lexer.cut(&text, &mut tokens) {
            Progress::GoesOn => {
                proof {
                    let added = lexical::cut(text@, before)->Tokens_0;
                    let rest = lexical::lex_from(text@, lexer.cursor());
                    assert(lexical::lex_from(text@, before) == (Lexed {
                        tokens: added + rest.tokens,
                        error: rest.error,
                    }));
                    assert(models + (added + rest.tokens) =~= token::token_models(tokens@)
                        + rest.tokens);
                }
            },
            Progress::Error(error) => {
                assert(models + Seq::<TokenModel>::empty() =~= models);
                return Tokenizer { tokens, error: Some(error) };
            },
            Progress::End => {
                return Tokenizer { tokens, error: None };
            },
        }
    }
}

} // verus!
