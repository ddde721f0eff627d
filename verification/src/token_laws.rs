//! What the tokens of a text are, told from its characters alone.
//!
//! How each symbol is spelled is written down here once more, symbol by symbol.
use vstd::prelude::*;

use crate::lexical;
use crate::lexical::{Cursor, Cut, Quotes, StringPrefix};
use crate::location::Location;
use crate::text::{decimal, law_decimal_is_read_back, number_of};
use crate::token::{LexicalError, Symbol, TokModel, TokenModel};

verus! {

// ---------------------------------------------------------------------------------------------
// Spelling.

/// How a symbol is spelled; the ends of lines and blocks are not.
pub open spec fn spelling(symbol: Symbol) -> Seq<char> {
    match symbol {
        Symbol::Newline => seq![],
        Symbol::Indent => seq![],
        Symbol::Dedent => seq![],
        Symbol::False => "False"@,
        Symbol::NoneWord => "None"@,
        Symbol::True => "True"@,
        Symbol::And => "and"@,
        Symbol::As => "as"@,
        Symbol::Assert => "assert"@,
        Symbol::Break => "break"@,
        Symbol::Class => "class"@,
        Symbol::Continue => "continue"@,
        Symbol::Def => "def"@,
        Symbol::Del => "del"@,
        Symbol::Elif => "elif"@,
        Symbol::Else => "else"@,
        Symbol::Except => "except"@,
        Symbol::Finally => "finally"@,
        Symbol::For => "for"@,
        Symbol::From => "from"@,
        Symbol::Global => "global"@,
        Symbol::If => "if"@,
        Symbol::Import => "import"@,
        Symbol::In => "in"@,
        Symbol::Is => "is"@,
        Symbol::Lambda => "lambda"@,
        Symbol::Nonlocal => "nonlocal"@,
        Symbol::Not => "not"@,
        Symbol::Or => "or"@,
        Symbol::Pass => "pass"@,
        Symbol::Raise => "raise"@,
        Symbol::Return => "return"@,
        Symbol::Try => "try"@,
        Symbol::While => "while"@,
        Symbol::With => "with"@,
        Symbol::Yield => "yield"@,
        Symbol::Lpar => seq!['('],
        Symbol::Rpar => seq![')'],
        Symbol::Lsqb => seq!['['],
        Symbol::Rsqb => seq![']'],
        Symbol::Lbrace => seq!['{'],
        Symbol::Rbrace => seq!['}'],
        Symbol::Colon => seq![':'],
        Symbol::Comma => seq![','],
        Symbol::Semi => seq![';'],
        Symbol::Plus => seq!['+'],
        Symbol::Minus => seq!['-'],
        Symbol::Star => seq!['*'],
        Symbol::Slash => seq!['/'],
        Symbol::Vbar => seq!['|'],
        Symbol::Amper => seq!['&'],
        Symbol::Less => seq!['<'],
        Symbol::Greater => seq!['>'],
        Symbol::Equal => seq!['='],
        Symbol::Dot => seq!['.'],
        Symbol::Percent => seq!['%'],
        Symbol::EqEqual => seq!['=', '='],
        Symbol::NotEqual => seq!['!', '='],
        Symbol::LessEqual => seq!['<', '='],
        Symbol::GreaterEqual => seq!['>', '='],
        Symbol::Tilde => seq!['~'],
        Symbol::CircumFlex => seq!['^'],
        Symbol::LeftShift => seq!['<', '<'],
        Symbol::RightShift => seq!['>', '>'],
        Symbol::DoubleStar => seq!['*', '*'],
        Symbol::PlusEqual => seq!['+', '='],
        Symbol::MinusEqual => seq!['-', '='],
        Symbol::StarEqual => seq!['*', '='],
        Symbol::SlashEqual => seq!['/', '='],
        Symbol::PercentEqual => seq!['%', '='],
        Symbol::AmperEqual => seq!['&', '='],
        Symbol::VbarEqual => seq!['|', '='],
        Symbol::CircumflexEqual => seq!['^', '='],
        Symbol::LeftShiftEqual => seq!['<', '<', '='],
        Symbol::RightShiftEqual => seq!['>', '>', '='],
        Symbol::DoubleStarEqual => seq!['*', '*', '='],
        Symbol::DoubleSlash => seq!['/', '/'],
        Symbol::DoubleSlashEqual => seq!['/', '/', '='],
        Symbol::At => seq!['@'],
        Symbol::AtEqual => seq!['@', '='],
    }
}

/// Whether a symbol is a word.
pub open spec fn is_word(symbol: Symbol) -> bool {
    match symbol {
        Symbol::False => true,
        Symbol::NoneWord => true,
        Symbol::True => true,
        Symbol::And => true,
        Symbol::As => true,
        Symbol::Assert => true,
        Symbol::Break => true,
        Symbol::Class => true,
        Symbol::Continue => true,
        Symbol::Def => true,
        Symbol::Del => true,
        Symbol::Elif => true,
        Symbol::Else => true,
        Symbol::Except => true,
        Symbol::Finally => true,
        Symbol::For => true,
        Symbol::From => true,
        Symbol::Global => true,
        Symbol::If => true,
        Symbol::Import => true,
        Symbol::In => true,
        Symbol::Is => true,
        Symbol::Lambda => true,
        Symbol::Nonlocal => true,
        Symbol::Not => true,
        Symbol::Or => true,
        Symbol::Pass => true,
        Symbol::Raise => true,
        Symbol::Return => true,
        Symbol::Try => true,
        Symbol::While => true,
        Symbol::With => true,
        Symbol::Yield => true,
        _ => false,
    }
}

/// Whether a symbol is made of signs.
pub open spec fn is_sign(symbol: Symbol) -> bool {
    &&& !is_word(symbol)
    &&& symbol != Symbol::Newline
    &&& symbol != Symbol::Indent
    &&& symbol != Symbol::Dedent
}

/// Whether characters stand in a text from a place on.
pub open spec fn spells(text: Seq<char>, at: int, part: Seq<char>) -> bool {
    &&& 0 <= at
    &&& at + part.len() <= text.len()
    &&& forall|k: int| 0 <= k < part.len() ==> text[at + k] == #[trigger] part[k]
}

/// Letters and the underscore.
pub open spec fn letter(c: char) -> bool {
    'a' <= c <= 'z' || 'A' <= c <= 'Z' || c == '_'
}

pub open spec fn figure(c: char) -> bool {
    '0' <= c <= '9'
}

/// Whether a character that a name can hold stands at a place.
pub open spec fn name_goes_on(text: Seq<char>, at: int) -> bool {
    0 <= at < text.len() && (letter(text[at]) || figure(text[at]))
}

/// Whether a decimal digit stands at a place.
pub open spec fn figure_at(text: Seq<char>, at: int) -> bool {
    0 <= at < text.len() && figure(text[at])
}

pub open spec fn char_at(text: Seq<char>, at: int, c: char) -> bool {
    0 <= at < text.len() && text[at] == c
}

/// Whether the cutting stands before a character within a line.
pub open spec fn within_line(text: Seq<char>, cursor: Cursor) -> bool {
    !cursor.line_begins && 0 <= cursor.at < text.len()
}

/// Whether one token is cut off, from the cursor to a place, and nothing else changes.
pub open spec fn cuts_off(text: Seq<char>, cursor: Cursor, tok: TokModel, end: int) -> bool {
    lexical::cut(text, cursor) == Cut::Tokens(
        seq![
            TokenModel {
                start: lexical::location_at(text, cursor.at),
                tok,
                end: lexical::location_at(text, end),
            },
        ],
        Cursor { at: end, ..cursor },
    )
}

/// Whether the text cannot be cut, for a reason.
pub open spec fn cannot_cut(text: Seq<char>, cursor: Cursor, error: LexicalError) -> bool {
    lexical::cut(text, cursor) == Cut::Error(error)
}

// ---------------------------------------------------------------------------------------------
// Places.

/// The first character is in the first column of the first row. A line ending begins the next row,
/// and any other character the next column.
pub proof fn law_places(text: Seq<char>, at: int)
    requires
        0 <= at < text.len() < usize::MAX,
    ensures
        lexical::location_at(text, 0) == (Location { row: 1, column: 1 }),
        lexical::location_at(text, at + 1) == if text[at] == '\n' {
            Location { row: (lexical::location_at(text, at).row + 1) as usize, column: 1 }
        } else {
            Location {
                row: lexical::location_at(text, at).row,
                column: (lexical::location_at(text, at).column + 1) as usize,
            }
        },
        lexical::location_at(text, at).row < usize::MAX,
        lexical::location_at(text, at).column < usize::MAX,
{
    lemma_places(text, at);
}

proof fn lemma_places(text: Seq<char>, at: int)
    requires
        0 <= at,
    ensures
        1 <= lexical::row_at(text, at) <= at + 1,
        1 <= lexical::column_at(text, at) <= at + 1,
    decreases at,
{
    if at > 0 {
        lemma_places(text, at - 1);
    }
}

// ---------------------------------------------------------------------------------------------
// Words.

#[verifier::spinoff_prover]
#[verifier::rlimit(60)]
proof fn lemma_keyword(symbol: Symbol)
    requires
        is_word(symbol),
    ensures
        lexical::keyword(spelling(symbol)) == Some(symbol),
{
    reveal_strlit("False");
    reveal_strlit("None");
    reveal_strlit("True");
    reveal_strlit("and");
    reveal_strlit("as");
    reveal_strlit("assert");
    reveal_strlit("break");
    reveal_strlit("class");
    reveal_strlit("continue");
    reveal_strlit("def");
    reveal_strlit("del");
    reveal_strlit("elif");
    reveal_strlit("else");
    reveal_strlit("except");
    reveal_strlit("finally");
    reveal_strlit("for");
    reveal_strlit("from");
    reveal_strlit("global");
    reveal_strlit("if");
    reveal_strlit("import");
    reveal_strlit("in");
    reveal_strlit("is");
    reveal_strlit("lambda");
    reveal_strlit("nonlocal");
    reveal_strlit("not");
    reveal_strlit("or");
    reveal_strlit("pass");
    reveal_strlit("raise");
    reveal_strlit("return");
    reveal_strlit("try");
    reveal_strlit("while");
    reveal_strlit("with");
    reveal_strlit("yield");
    assert("False"@.len() == 5);
    assert("False"@[0] == 'F');
    assert("None"@.len() == 4);
    assert("None"@[0] == 'N');
    assert("None"@[2] == 'n');
    assert("True"@.len() == 4);
    assert("True"@[0] == 'T');
    assert("True"@[2] == 'u');
    assert("and"@.len() == 3);
    assert("and"@[2] == 'd');
    assert("as"@.len() == 2);
    assert("as"@[0] == 'a');
    assert("as"@[1] == 's');
    assert("assert"@.len() == 6);
    assert("assert"@[0] == 'a');
    assert("break"@.len() == 5);
    assert("break"@[0] == 'b');
    assert("class"@.len() == 5);
    assert("class"@[0] == 'c');
    assert("continue"@.len() == 8);
    assert("continue"@[0] == 'c');
    assert("def"@.len() == 3);
    assert("def"@[2] == 'f');
    assert("del"@.len() == 3);
    assert("del"@[2] == 'l');
    assert("elif"@.len() == 4);
    assert("elif"@[0] == 'e');
    assert("elif"@[2] == 'i');
    assert("else"@.len() == 4);
    assert("else"@[0] == 'e');
    assert("else"@[2] == 's');
    assert("except"@.len() == 6);
    assert("except"@[0] == 'e');
    assert("finally"@.len() == 7);
    assert("finally"@[0] == 'f');
    assert("for"@.len() == 3);
    assert("for"@[2] == 'r');
    assert("from"@.len() == 4);
    assert("from"@[0] == 'f');
    assert("from"@[2] == 'o');
    assert("global"@.len() == 6);
    assert("global"@[0] == 'g');
    assert("if"@.len() == 2);
    assert("if"@[0] == 'i');
    assert("if"@[1] == 'f');
    assert("import"@.len() == 6);
    assert("import"@[0] == 'i');
    assert("in"@.len() == 2);
    assert("in"@[0] == 'i');
    assert("in"@[1] == 'n');
    assert("is"@.len() == 2);
    assert("is"@[0] == 'i');
    assert("is"@[1] == 's');
    assert("lambda"@.len() == 6);
    assert("lambda"@[0] == 'l');
    assert("nonlocal"@.len() == 8);
    assert("nonlocal"@[0] == 'n');
    assert("not"@.len() == 3);
    assert("not"@[2] == 't');
    assert("or"@.len() == 2);
    assert("or"@[0] == 'o');
    assert("or"@[1] == 'r');
    assert("pass"@.len() == 4);
    assert("pass"@[0] == 'p');
    assert("pass"@[2] == 's');
    assert("raise"@.len() == 5);
    assert("raise"@[0] == 'r');
    assert("return"@.len() == 6);
    assert("return"@[0] == 'r');
    assert("try"@.len() == 3);
    assert("try"@[2] == 'y');
    assert("while"@.len() == 5);
    assert("while"@[0] == 'w');
    assert("with"@.len() == 4);
    assert("with"@[0] == 'w');
    assert("with"@[2] == 't');
    assert("yield"@.len() == 5);
    assert("yield"@[0] == 'y');
}

proof fn lemma_name_end(text: Seq<char>, at: int, end: int)
    requires
        0 <= at <= end <= text.len(),
        forall|i: int| at <= i < end ==> #[trigger] name_goes_on(text, i),
        !name_goes_on(text, end),
    ensures
        lexical::name_end(text, at) == end,
    decreases end - at,
{
    if at < end {
        assert(name_goes_on(text, at));
        lemma_name_end(text, at + 1, end);
    }
}

/// Whether a whole word stands in a text: a letter, then letters and digits, and no more of them.
pub open spec fn word_stands(text: Seq<char>, at: int, end: int) -> bool {
    &&& 0 <= at < end <= text.len()
    &&& letter(text[at])
    &&& forall|i: int| at <= i < end ==> #[trigger] name_goes_on(text, i)
    &&& !name_goes_on(text, end)
}

/// Whether a word is the prefix of a string, if one stands behind it.
pub open spec fn is_prefix(word: Seq<char>) -> bool {
    ||| word.len() == 1 && (either(word[0], 'u', 'U') || either(word[0], 'r', 'R') || either(
        word[0],
        'b',
        'B',
    ))
    ||| word.len() == 2 && (either(word[0], 'b', 'B') && either(word[1], 'r', 'R') || either(
        word[0],
        'r',
        'R',
    ) && either(word[1], 'b', 'B'))
}

/// A word that spells a symbol is that symbol, and any other one is a name, unless it is the
/// prefix of a string.
pub proof fn law_words(text: Seq<char>, cursor: Cursor, end: int)
    requires
        within_line(text, cursor),
        word_stands(text, cursor.at, end),
        char_at(text, end, '"') || char_at(text, end, '\'') ==> !is_prefix(
            text.subrange(cursor.at, end),
        ),
    ensures
        ({
            let word = text.subrange(cursor.at, end);
            &&& forall|symbol: Symbol|
                is_word(symbol) && #[trigger] spelling(symbol) == word ==> cuts_off(
                    text,
                    cursor,
                    TokModel::Symbol(symbol),
                    end,
                )
            &&& (forall|symbol: Symbol|
                is_word(symbol) ==> #[trigger] spelling(symbol) != word) ==> cuts_off(
                text,
                cursor,
                TokModel::Name { name: word },
                end,
            )
        }),
{
    let word = text.subrange(cursor.at, end);
    lemma_name_end(text, cursor.at, end);
    assert(name_goes_on(text, cursor.at));
    assert forall|symbol: Symbol| is_word(symbol) && #[trigger] spelling(symbol)
        == word implies cuts_off(text, cursor, TokModel::Symbol(symbol), end) by {
        lemma_keyword(symbol);
    }
    match lexical::keyword(word) {
        Some(symbol) => {
            assert(is_word(symbol) && spelling(symbol) == word);
        },
        None => {},
    }
}

// ---------------------------------------------------------------------------------------------
// Signs.

proof fn lemma_signs(a: char, b: char, c: char)
    ensures
        lexical::operator1(a) matches Some(symbol) ==> is_sign(symbol) && spelling(symbol)
            == seq![a],
        lexical::operator2(a, b) matches Some(symbol) ==> is_sign(symbol) && spelling(symbol)
            == seq![a, b],
        lexical::operator3(a, b, c) matches Some(symbol) ==> is_sign(symbol) && spelling(symbol)
            == seq![a, b, c],
{
}

#[verifier::spinoff_prover]
#[verifier::rlimit(40)]
proof fn lemma_spelled_signs(symbol: Symbol)
    requires
        is_sign(symbol),
    ensures
        1 <= spelling(symbol).len() <= 3,
        spelling(symbol).len() == 1 ==> lexical::operator1(spelling(symbol)[0]) == Some(symbol),
        spelling(symbol).len() == 2 ==> lexical::operator2(spelling(symbol)[0], spelling(symbol)[1])
            == Some(symbol),
        spelling(symbol).len() == 3 ==> lexical::operator3(
            spelling(symbol)[0],
            spelling(symbol)[1],
            spelling(symbol)[2],
        ) == Some(symbol),
        ({
            let first = spelling(symbol)[0];
            &&& !letter(first)
            &&& !figure(first)
            &&& first != '\'' && first != '"' && first != '#' && first != '\n'
            &&& first != ' ' && first != '\t' && first != '\u{c}'
        }),
{
}

/// Whether a symbol is the longest one that is spelled at a place.
pub open spec fn longest_sign(text: Seq<char>, at: int, symbol: Symbol) -> bool {
    &&& is_sign(symbol)
    &&& spells(text, at, spelling(symbol))
    &&& forall|other: Symbol|
        is_sign(other) && spells(text, at, #[trigger] spelling(other)) ==> spelling(other).len()
            <= spelling(symbol).len()
}

proof fn lemma_longest(text: Seq<char>, at: int, symbol: Symbol)
    requires
        longest_sign(text, at, symbol),
    ensures
        lexical::operator(text, at) == Some((symbol, spelling(symbol).len() as int)),
{
    let own = spelling(symbol);
    lemma_spelled_signs(symbol);
    assert(text[at + 0] == own[0]);
    if own.len() >= 2 {
        assert(text[at + 1] == own[1]);
    }
    if own.len() == 3 {
        assert(text[at + 2] == own[2]);
    }
    if at + 2 < text.len() {
        lemma_signs(text[at], text[at + 1], text[at + 2]);
        match lexical::operator3(text[at], text[at + 1], text[at + 2]) {
            Some(other) => {
                assert(spells(text, at, spelling(other)));
            },
            None => {},
        }
    }
    if at + 1 < text.len() {
        lemma_signs(text[at], text[at + 1], text[at]);
        match lexical::operator2(text[at], text[at + 1]) {
            Some(other) => {
                assert(spells(text, at, spelling(other)));
            },
            None => {},
        }
    }
}

/// The longest symbol that is spelled at a place is cut off. Brackets are counted, and one that
/// closes nothing is an error.
pub proof fn law_signs(text: Seq<char>, cursor: Cursor, symbol: Symbol)
    requires
        within_line(text, cursor),
        longest_sign(text, cursor.at, symbol),
        symbol == Symbol::Dot ==> !figure_at(text, cursor.at + 1),
    ensures
        ({
            let end = cursor.at + spelling(symbol).len();
            let opens = symbol == Symbol::Lpar || symbol == Symbol::Lsqb || symbol
                == Symbol::Lbrace;
            let closes = symbol == Symbol::Rpar || symbol == Symbol::Rsqb || symbol
                == Symbol::Rbrace;
            if closes && cursor.nesting == 0 {
                cannot_cut(text, cursor, LexicalError::NestingError)
            } else {
                lexical::cut(text, cursor) == Cut::Tokens(
                    seq![
                        TokenModel {
                            start: lexical::location_at(text, cursor.at),
                            tok: TokModel::Symbol(symbol),
                            end: lexical::location_at(text, end),
                        },
                    ],
                    Cursor {
                        at: end,
                        nesting: if opens {
                            cursor.nesting + 1
                        } else if closes {
                            cursor.nesting - 1
                        } else {
                            cursor.nesting
                        },
                        ..cursor
                    },
                )
            }
        }),
{
    lemma_longest(text, cursor.at, symbol);
    lemma_spelled_signs(symbol);
    assert(text[cursor.at + 0] == spelling(symbol)[0]);
    if text[cursor.at] == '.' {
        assert(longest_sign(text, cursor.at, symbol));
        assert(lexical::operator1('.') == Some(Symbol::Dot));
        assert(lexical::operator(text, cursor.at) == Some((Symbol::Dot, 1int)));
    }
}

/// A character with which no symbol, no word, no number and no string begins is an error.
pub proof fn law_unknown_character(text: Seq<char>, cursor: Cursor)
    requires
        within_line(text, cursor),
        forall|symbol: Symbol|
            is_sign(symbol) ==> !spells(text, cursor.at, #[trigger] spelling(symbol)),
        ({
            let c = text[cursor.at];
            &&& !letter(c)
            &&& !figure(c)
            &&& c != '\'' && c != '"' && c != '#' && c != '\n'
            &&& c != ' ' && c != '\t' && c != '\u{c}'
        }),
    ensures
        cannot_cut(
            text,
            cursor,
            LexicalError::UnrecognizedCharacter { character: text[cursor.at] },
        ),
{
    let at = cursor.at;
    lemma_signs(text[at], text[at], text[at]);
    match lexical::operator1(text[at]) {
        Some(other) => {
            assert(spells(text, at, spelling(other)));
        },
        None => {},
    }
    if at + 1 < text.len() {
        lemma_signs(text[at], text[at + 1], text[at]);
        match lexical::operator2(text[at], text[at + 1]) {
            Some(other) => {
                assert(spells(text, at, spelling(other)));
            },
            None => {},
        }
    }
    if at + 2 < text.len() {
        lemma_signs(text[at], text[at + 1], text[at + 2]);
        match lexical::operator3(text[at], text[at + 1], text[at + 2]) {
            Some(other) => {
                assert(spells(text, at, spelling(other)));
            },
            None => {},
        }
    }
}

// ---------------------------------------------------------------------------------------------
// Between tokens.

/// Blanks are skipped, a comment is skipped up to the end of its line, and the end of a line is a
/// token but within brackets. At the end of the text all blocks end, if no bracket is open.
pub proof fn law_between_tokens(text: Seq<char>, cursor: Cursor, end: int)
    requires
        !cursor.line_begins,
        0 <= cursor.at <= text.len(),
        cursor.indents.len() >= 1,
    ensures
        char_at(text, cursor.at, ' ') || char_at(text, cursor.at, '\t') || char_at(
            text,
            cursor.at,
            '\u{c}',
        ) ==> lexical::cut(text, cursor) == Cut::Tokens(
            seq![],
            Cursor { at: cursor.at + 1, ..cursor },
        ),
        char_at(text, cursor.at, '#') && cursor.at < end <= text.len() && (forall|i: int|
            cursor.at <= i < end ==> #[trigger] text[i] != '\n') && (end < text.len() ==> text[end]
            == '\n') ==> lexical::cut(text, cursor) == Cut::Tokens(
            seq![],
            Cursor { at: end, ..cursor },
        ),
        char_at(text, cursor.at, '\n') && cursor.nesting != 0 ==> lexical::cut(text, cursor)
            == Cut::Tokens(seq![], Cursor { at: cursor.at + 1, ..cursor }),
        char_at(text, cursor.at, '\n') && cursor.nesting == 0 ==> lexical::cut(text, cursor)
            == Cut::Tokens(
            seq![
                TokenModel {
                    start: lexical::location_at(text, cursor.at),
                    tok: TokModel::Symbol(Symbol::Newline),
                    end: lexical::location_at(text, cursor.at + 1),
                },
            ],
            Cursor { at: cursor.at + 1, line_begins: true, ..cursor },
        ),
        cursor.at == text.len() && cursor.nesting > 0 ==> cannot_cut(
            text,
            cursor,
            LexicalError::NestingError,
        ),
        cursor.at == text.len() && cursor.nesting <= 0 ==> ({
            &&& lexical::cut(text, cursor) matches Cut::End(last)
            &&& last.len() == cursor.indents.len() - 1
            &&& forall|k: int| 0 <= k < last.len() ==> #[trigger] last[k] == block_end(text, cursor.at)
        }),
{
    if char_at(text, cursor.at, '#') && cursor.at < end <= text.len() && (forall|i: int|
        cursor.at <= i < end ==> #[trigger] text[i] != '\n') && (end < text.len() ==> text[end]
        == '\n') {
        lemma_line_end(text, cursor.at, end);
    }
}

/// The end of a block, at a place.
pub open spec fn block_end(text: Seq<char>, at: int) -> TokenModel {
    TokenModel {
        start: lexical::location_at(text, at),
        tok: TokModel::Symbol(Symbol::Dedent),
        end: lexical::location_at(text, at),
    }
}

proof fn lemma_line_end(text: Seq<char>, at: int, end: int)
    requires
        0 <= at <= end <= text.len(),
        forall|i: int| at <= i < end ==> #[trigger] text[i] != '\n',
        end < text.len() ==> text[end] == '\n',
    ensures
        lexical::line_end(text, at) == end,
    decreases end - at,
{
    if at < end {
        assert(text[at] != '\n');
        lemma_line_end(text, at + 1, end);
    }
}

proof fn lemma_spaces_end(text: Seq<char>, at: int, end: int)
    requires
        0 <= at <= end <= text.len(),
        forall|i: int| at <= i < end ==> #[trigger] text[i] == ' ',
        !char_at(text, end, ' '),
    ensures
        lexical::spaces_end(text, at) == end,
    decreases end - at,
{
    if at < end {
        assert(text[at] == ' ');
        lemma_spaces_end(text, at + 1, end);
    }
}

proof fn lemma_deeper(indents: Seq<int>, width: int)
    requires
        forall|i: int, j: int| 0 <= i < j < indents.len() ==> #[trigger] indents[i] < #[trigger] indents[j],
    ensures
        ({
            let left = indents.len() - lexical::deeper(indents, width);
            &&& 0 <= left <= indents.len()
            &&& forall|i: int| 0 <= i < left ==> #[trigger] indents[i] <= width
            &&& forall|i: int| left <= i < indents.len() ==> #[trigger] indents[i] > width
        }),
    decreases indents.len(),
{
    if indents.len() > 0 && width < indents.last() {
        lemma_deeper(indents.drop_last(), width);
        let left = indents.len() - lexical::deeper(indents, width);
        assert forall|i: int| left <= i < indents.len() implies #[trigger] indents[i] > width by {
            if i < indents.len() - 1 {
                assert(indents.drop_last()[i] == indents[i]);
            }
        }
        assert forall|i: int| 0 <= i < left implies #[trigger] indents[i] <= width by {
            assert(indents.drop_last()[i] == indents[i]);
        }
    } else if indents.len() > 0 {
        assert forall|i: int| 0 <= i < indents.len() implies #[trigger] indents[i] <= width by {
            if i < indents.len() - 1 {
                assert(indents[i] < indents[indents.len() - 1]);
            }
        }
    }
}

/// The spaces at the beginning of a line are its indentation. A line with nothing else, or with a
/// comment only, has none. The same indentation as before goes on, a deeper one begins a block, and
/// a shallower one ends the blocks that are deeper than it, if it is that of a block around them.
/// A tab is an error.
#[verifier::spinoff_prover]
pub proof fn law_indentation(text: Seq<char>, cursor: Cursor, end: int, level: int)
    requires
        cursor.line_begins,
        0 <= cursor.at <= end <= text.len(),
        forall|i: int| cursor.at <= i < end ==> #[trigger] text[i] == ' ',
        !char_at(text, end, ' '),
        cursor.indents.len() >= 1,
        cursor.indents[0] == 0,
        forall|i: int, j: int|
            0 <= i < j < cursor.indents.len() ==> #[trigger] cursor.indents[i]
                < #[trigger] cursor.indents[j],
    ensures
        ({
            let width = if end == text.len() {
                0
            } else {
                end - cursor.at
            };
            let depth = cursor.indents.len() - 1;
            let current = cursor.indents[depth];
            let step = lexical::cut(text, cursor);
            let counts = end == text.len() || (text[end] != '#' && text[end] != '\n' && text[end]
                != '\t');
            &&& char_at(text, end, '\t') ==> cannot_cut(text, cursor, LexicalError::TabError)
            &&& char_at(text, end, '\n') ==> step == Cut::Tokens(
                seq![],
                Cursor { at: end + 1, ..cursor },
            )
            &&& counts && width == current ==> step == Cut::Tokens(
                seq![],
                Cursor { at: end, line_begins: false, ..cursor },
            )
            &&& counts && width > current ==> step == Cut::Tokens(
                seq![
                    TokenModel {
                        start: lexical::location_at(text, end),
                        tok: TokModel::Symbol(Symbol::Indent),
                        end: lexical::location_at(text, end),
                    },
                ],
                Cursor {
                    at: end,
                    line_begins: false,
                    indents: cursor.indents.push(width),
                    ..cursor
                },
            )
            &&& counts && 0 <= level < depth && cursor.indents[level] == width ==> {
                &&& step matches Cut::Tokens(tokens, next)
                &&& tokens.len() == depth - level
                &&& forall|k: int|
                    0 <= k < tokens.len() ==> #[trigger] tokens[k] == block_end(text, end)
                &&& next == (Cursor {
                    at: end,
                    line_begins: false,
                    indents: cursor.indents.subrange(0, level + 1),
                    ..cursor
                })
            }
            &&& counts && width < current && (forall|i: int|
                0 <= i < cursor.indents.len() ==> #[trigger] cursor.indents[i] != width)
                ==> cannot_cut(text, cursor, LexicalError::IndentationError)
        }),
{
    lemma_spaces_end(text, cursor.at, end);
    let width = if end == text.len() {
        0
    } else {
        end - cursor.at
    };
    let indents = cursor.indents;
    lemma_deeper(indents, width);
    let left = indents.len() - lexical::deeper(indents, width);
    if 0 <= level < indents.len() - 1 && indents[level] == width {
        assert(indents[level] < indents[indents.len() - 1]);
        assert(level + 1 == left) by {
            if level + 1 < left {
                assert(indents[level] < indents[level + 1]);
            }
        }
        assert(indents.take(left) =~= indents.subrange(0, level + 1));
        assert(indents.take(left).last() == width);
    }
    if forall|i: int| 0 <= i < indents.len() ==> #[trigger] indents[i] != width {
        if left > 0 {
            assert(indents.take(left).last() == indents[left - 1]);
        }
    }
}

/// At the beginning of a line a comment is skipped up to the end of the line.
pub proof fn law_comment_lines(text: Seq<char>, cursor: Cursor, start: int, end: int)
    requires
        cursor.line_begins,
        0 <= cursor.at <= start < end <= text.len(),
        forall|i: int| cursor.at <= i < start ==> #[trigger] text[i] == ' ',
        text[start] == '#',
        forall|i: int| start <= i < end ==> #[trigger] text[i] != '\n',
        end < text.len() ==> text[end] == '\n',
    ensures
        lexical::cut(text, cursor) == Cut::Tokens(seq![], Cursor { at: end, ..cursor }),
{
    lemma_spaces_end(text, cursor.at, start);
    lemma_line_end(text, start, end);
}

// ---------------------------------------------------------------------------------------------
// Numbers.

/// A digit has its value in a radix that is greater than the value, and each digit counts the radix
/// times as much as the one behind it.
pub proof fn law_positional_notation(digits: Seq<char>, c: char, radix: int)
    requires
        2 <= radix <= 16,
    ensures
        lexical::digit_value(c, radix) == (if '0' <= c <= '9' && (c as int - '0' as int) < radix {
            Some(c as int - '0' as int)
        } else if 'a' <= c <= 'f' && c as int - 'a' as int + 10 < radix {
            Some(c as int - 'a' as int + 10)
        } else if 'A' <= c <= 'F' && c as int - 'A' as int + 10 < radix {
            Some(c as int - 'A' as int + 10)
        } else {
            None::<int>
        }),
        lexical::number(Seq::empty(), radix) == 0,
        lexical::digit_value(c, radix) matches Some(value) ==> lexical::number(
            digits.push(c),
            radix,
        ) == radix * lexical::number(digits, radix) + value,
{
    assert(digits.push(c).drop_last() =~= digits);
    assert(lexical::number(digits, radix) * radix == radix * lexical::number(digits, radix))
        by (nonlinear_arith);
}

/// Whether digits of a radix stand in a text from one place to another, and no more of them.
pub open spec fn digits_stand(text: Seq<char>, from: int, to: int, radix: int) -> bool {
    &&& 0 <= from <= to <= text.len()
    &&& forall|i: int| from <= i < to ==> lexical::digit_value(#[trigger] text[i], radix) is Some
    &&& to < text.len() ==> lexical::digit_value(text[to], radix) is None
}

/// Whether decimal digits stand in a text from one place to another, and no more of them.
pub open spec fn figures_stand(text: Seq<char>, from: int, to: int) -> bool {
    &&& 0 <= from <= to <= text.len()
    &&& forall|i: int| from <= i < to ==> figure(#[trigger] text[i])
    &&& !figure_at(text, to)
}

proof fn lemma_digits_end(text: Seq<char>, from: int, to: int, radix: int)
    requires
        digits_stand(text, from, to, radix),
    ensures
        lexical::digits_end(text, from, radix) == to,
    decreases to - from,
{
    if from < to {
        assert(lexical::digit_value(text[from], radix) is Some);
        lemma_digits_end(text, from + 1, to, radix);
    }
}

proof fn lemma_figures_end(text: Seq<char>, from: int, to: int)
    requires
        figures_stand(text, from, to),
    ensures
        lexical::digits_end(text, from, 10) == to,
{
    assert(digits_stand(text, from, to, 10));
    lemma_digits_end(text, from, to, 10);
}

proof fn lemma_decimal_number(digits: Seq<char>)
    requires
        forall|i: int| 0 <= i < digits.len() ==> figure(#[trigger] digits[i]),
    ensures
        lexical::number(digits, 10) == number_of(digits),
    decreases digits.len(),
{
    if digits.len() > 0 {
        let rest = digits.drop_last();
        assert forall|i: int| 0 <= i < rest.len() implies figure(#[trigger] rest[i]) by {
            assert(rest[i] == digits[i]);
        }
        assert(figure(digits[digits.len() - 1]));
        lemma_decimal_number(rest);
    }
}

/// Whether no exponent begins at a place.
pub open spec fn no_exponent(text: Seq<char>, at: int) -> bool {
    !char_at(text, at, 'e') && !char_at(text, at, 'E')
}

/// Whether a letter stands at a place that announces another radix behind a zero.
pub open spec fn announces_radix(text: Seq<char>, at: int) -> bool {
    ||| char_at(text, at, 'x') || char_at(text, at, 'X')
    ||| char_at(text, at, 'o') || char_at(text, at, 'O')
    ||| char_at(text, at, 'b') || char_at(text, at, 'B')
}

/// Decimal digits without a fraction and an exponent are the integer that they stand for, if it
/// fits.
pub proof fn law_decimal_integers(text: Seq<char>, cursor: Cursor, end: int)
    requires
        within_line(text, cursor),
        cursor.at < end,
        figures_stand(text, cursor.at, end),
        !char_at(text, end, '.'),
        no_exponent(text, end),
        text[cursor.at] == '0' ==> !announces_radix(text, cursor.at + 1),
    ensures
        ({
            let value = number_of(text.subrange(cursor.at, end));
            if value <= i32::MAX {
                cuts_off(text, cursor, TokModel::Int { value: value as i32 }, end)
            } else {
                cannot_cut(text, cursor, LexicalError::NumberError)
            }
        }),
{
    let digits = text.subrange(cursor.at, end);
    assert(figure(text[cursor.at]));
    lemma_figures_end(text, cursor.at, end);
    assert forall|i: int| 0 <= i < digits.len() implies figure(#[trigger] digits[i]) by {
        assert(digits[i] == text[cursor.at + i]);
    }
    lemma_decimal_number(digits);
}

/// A number that fits is read back from its decimal notation.
pub proof fn law_decimal_notation_is_lexed(text: Seq<char>, cursor: Cursor, n: nat)
    requires
        within_line(text, cursor),
        n <= i32::MAX,
        spells(text, cursor.at, decimal(n)),
        ({
            let end = cursor.at + decimal(n).len();
            &&& !name_goes_on(text, end)
            &&& !char_at(text, end, '.')
        }),
    ensures
        cuts_off(
            text,
            cursor,
            TokModel::Int { value: n as i32 },
            cursor.at + decimal(n).len(),
        ),
{
    let end = cursor.at + decimal(n).len();
    law_decimal_is_read_back(n);
    assert forall|i: int| cursor.at <= i < end implies figure(#[trigger] text[i]) by {
        assert(text[cursor.at + (i - cursor.at)] == decimal(n)[i - cursor.at]);
    }
    assert(text.subrange(cursor.at, end) =~= decimal(n)) by {
        assert forall|k: int| 0 <= k < decimal(n).len() implies text.subrange(cursor.at, end)[k]
            == decimal(n)[k] by {
            assert(text[cursor.at + k] == decimal(n)[k]);
        }
    }
    assert(figures_stand(text, cursor.at, end));
    if text[cursor.at] == '0' {
        assert(text[cursor.at + 0] == decimal(n)[0]);
        assert(decimal(n).len() == 1);
    }
    law_decimal_integers(text, cursor, end);
}

/// The radix that a letter behind a zero announces.
pub open spec fn announced_radix(c: char) -> int {
    if c == 'x' || c == 'X' {
        16
    } else if c == 'o' || c == 'O' {
        8
    } else {
        2
    }
}

/// Digits behind a zero and a letter are an integer in the radix of the letter. There is a digit at
/// least, and the integer fits.
pub proof fn law_integers_of_a_radix(text: Seq<char>, cursor: Cursor, end: int)
    requires
        within_line(text, cursor),
        text[cursor.at] == '0',
        announces_radix(text, cursor.at + 1),
        digits_stand(text, cursor.at + 2, end, announced_radix(text[cursor.at + 1])),
    ensures
        ({
            let radix = announced_radix(text[cursor.at + 1]);
            let value = lexical::number(text.subrange(cursor.at + 2, end), radix);
            if cursor.at + 2 < end && value <= i32::MAX {
                cuts_off(text, cursor, TokModel::Int { value: value as i32 }, end)
            } else {
                cannot_cut(text, cursor, LexicalError::NumberError)
            }
        }),
{
    lemma_digits_end(text, cursor.at + 2, end, announced_radix(text[cursor.at + 1]));
}

/// The place where the digits of an exponent begin.
pub open spec fn exponent_digits(text: Seq<char>, at: int) -> int {
    if char_at(text, at + 1, '+') || char_at(text, at + 1, '-') {
        at + 2
    } else {
        at + 1
    }
}

/// Digits with a fraction or an exponent are a float, kept as it is written. A fraction may be
/// empty, and so may be the digits before it if it is not. A letter that no exponent follows is not
/// part of the number.
#[verifier::spinoff_prover]
pub proof fn law_floats(text: Seq<char>, cursor: Cursor, whole: int, fraction: int, end: int)
    requires
        within_line(text, cursor),
        figures_stand(text, cursor.at, whole),
        cursor.at < whole || figure_at(text, cursor.at + 1),
        text[cursor.at] == '0' ==> !announces_radix(text, cursor.at + 1),
        if char_at(text, whole, '.') {
            figures_stand(text, whole + 1, fraction)
        } else {
            cursor.at < whole && fraction == whole
        },
        no_exponent(text, fraction) || figures_stand(
            text,
            exponent_digits(text, fraction),
            end,
        ),
    ensures
        ({
            let exponent = !no_exponent(text, fraction) && exponent_digits(text, fraction) < end;
            let last = if exponent {
                end
            } else {
                fraction
            };
            char_at(text, whole, '.') || exponent ==> cuts_off(
                text,
                cursor,
                TokModel::Float { literal: text.subrange(cursor.at, last) },
                last,
            )
        }),
{
    lemma_figures_end(text, cursor.at, whole);
    if cursor.at < whole {
        assert(figure(text[cursor.at]));
    } else {
        assert(char_at(text, cursor.at, '.'));
    }
    if char_at(text, whole, '.') {
        lemma_figures_end(text, whole + 1, fraction);
    }
    if !no_exponent(text, fraction) {
        lemma_figures_end(text, exponent_digits(text, fraction), end);
    }
}

// ---------------------------------------------------------------------------------------------
// Strings.

/// The character that a letter behind a backslash stands for, for those that stand for one.
pub open spec fn escape(c: char) -> Option<Seq<char>> {
    if c == '\\' {
        Some(seq!['\\'])
    } else if c == '\'' {
        Some(seq!['\''])
    } else if c == '"' {
        Some(seq!['"'])
    } else if c == '\n' {
        Some(seq![])
    } else if c == 'a' {
        Some(seq!['\u{7}'])
    } else if c == 'b' {
        Some(seq!['\u{8}'])
    } else if c == 'f' {
        Some(seq!['\u{c}'])
    } else if c == 'n' {
        Some(seq!['\n'])
    } else if c == 'r' {
        Some(seq!['\r'])
    } else if c == 't' {
        Some(seq!['\t'])
    } else if c == 'v' {
        Some(seq!['\u{b}'])
    } else {
        None
    }
}

/// Whether the quotes that close a string stand at a place.
pub open spec fn quotes_close(text: Seq<char>, at: int, quotes: Quotes) -> bool {
    if quotes.triple {
        spells(text, at, seq![quotes.quote, quotes.quote, quotes.quote])
    } else {
        char_at(text, at, quotes.quote)
    }
}

/// Whether the content of a string from a place on is some characters and then its content from
/// another place on.
pub open spec fn content_goes_on(
    text: Seq<char>,
    at: int,
    quotes: Quotes,
    first: Seq<char>,
    next: int,
) -> bool {
    match lexical::string_rest(text, next, quotes) {
        Some((rest, end)) => lexical::string_rest(text, at, quotes) == Some((first + rest, end)),
        None => lexical::string_rest(text, at, quotes) is None,
    }
}

/// The content of a string goes up to its closing quotes. A backslash and the character behind it
/// stand for one character, or for themselves in a raw string and where they have no meaning. All
/// other characters stand for themselves. Only three quotes hold a line ending.
pub proof fn law_string_contents(text: Seq<char>, at: int, quotes: Quotes)
    requires
        0 <= at <= text.len(),
        quotes.quote == '\'' || quotes.quote == '"',
    ensures
        at == text.len() ==> lexical::string_rest(text, at, quotes) is None,
        quotes_close(text, at, quotes) ==> lexical::string_rest(text, at, quotes) == Some(
            (
                Seq::<char>::empty(),
                if quotes.triple {
                    at + 3
                } else {
                    at + 1
                },
            ),
        ),
        char_at(text, at, '\n') && !quotes.triple ==> lexical::string_rest(text, at, quotes) is None,
        at + 1 < text.len() && text[at] == '\\' ==> content_goes_on(
            text,
            at,
            quotes,
            match escape(text[at + 1]) {
                Some(meant) if !quotes.raw => meant,
                _ => seq!['\\', text[at + 1]],
            },
            at + 2,
        ),
        at < text.len() && !quotes_close(text, at, quotes) && (text[at] != '\\' || at + 1
            == text.len()) && (text[at] != '\n' || quotes.triple) ==> content_goes_on(
            text,
            at,
            quotes,
            seq![text[at]],
            at + 1,
        ),
{
    if quotes.triple {
        let three = seq![quotes.quote, quotes.quote, quotes.quote];
        if spells(text, at, three) {
            assert(text[at + 0] == three[0]);
            assert(text[at + 1] == three[1]);
            assert(text[at + 2] == three[2]);
        }
        assert(quotes_close(text, at, quotes) == lexical::closes(text, at, quotes));
    }
}

/// A string with nothing special in it is its content.
pub proof fn law_plain_strings(text: Seq<char>, at: int, quotes: Quotes, end: int)
    requires
        0 <= at <= end < text.len(),
        quotes.quote == '\'' || quotes.quote == '"',
        !quotes.triple,
        forall|i: int|
            at <= i < end ==> #[trigger] text[i] != quotes.quote && text[i] != '\\' && text[i]
                != '\n',
        text[end] == quotes.quote,
    ensures
        lexical::string_rest(text, at, quotes) == Some((text.subrange(at, end), end + 1)),
    decreases end - at,
{
    law_string_contents(text, at, quotes);
    if at < end {
        assert(text[at] != quotes.quote);
        law_plain_strings(text, at + 1, quotes, end);
        assert(seq![text[at]] + text.subrange(at + 1, end) =~= text.subrange(at, end));
    } else {
        assert(text.subrange(at, end) =~= Seq::<char>::empty());
    }
}

/// Whether a token of a string's content has been cut off: its characters, or its bytes, of which
/// each is one character of seven bits.
pub open spec fn string_token(
    text: Seq<char>,
    cursor: Cursor,
    content: Seq<char>,
    bytes: bool,
    end: int,
) -> bool {
    let narrow = forall|i: int| 0 <= i < content.len() ==> (#[trigger] content[i] as int) < 128;
    if !bytes {
        cuts_off(text, cursor, TokModel::String { value: content }, end)
    } else if narrow {
        exists|value: Seq<u8>|
            {
                &&& value.len() == content.len()
                &&& forall|i: int|
                    0 <= i < value.len() ==> #[trigger] value[i] as int == content[i] as int
                &&& #[trigger] cuts_off(text, cursor, TokModel::Bytes { value }, end)
            }
    } else {
        cannot_cut(text, cursor, LexicalError::StringError)
    }
}

proof fn lemma_narrow(c: char)
    requires
        c <= '\u{7f}',
    ensures
        (c as u8) as int == c as int,
{
    assert((c as u32) < 128);
    let n: u32 = c as u32;
    assert((n as u8) as u32 == n) by (bit_vector)
        requires
            n < 128,
    ;
}

proof fn lemma_string_token(
    text: Seq<char>,
    cursor: Cursor,
    content: Seq<char>,
    bytes: bool,
    end: int,
)
    requires
        lexical::cut(text, cursor) == lexical::cut_lexeme(
            text,
            cursor,
            if bytes {
                match lexical::ascii_bytes(content) {
                    Some(value) => Ok((TokModel::Bytes { value }, end)),
                    None => Err(LexicalError::StringError),
                }
            } else {
                Ok((TokModel::String { value: content }, end))
            },
        ),
    ensures
        string_token(text, cursor, content, bytes, end),
{
    if bytes {
        match lexical::ascii_bytes(content) {
            Some(value) => {
                assert forall|i: int| 0 <= i < content.len() implies (#[trigger] content[i] as int)
                    < 128 by {
                    assert(content[i] <= '\u{7f}');
                }
                assert forall|i: int| 0 <= i < value.len() implies #[trigger] value[i] as int
                    == content[i] as int by {
                    assert(content[i] <= '\u{7f}');
                    assert(value == content.map_values(|c: char| c as u8));
                    lemma_narrow(content[i]);
                }
                assert(cuts_off(text, cursor, TokModel::Bytes { value }, end));
            },
            None => {
                assert(!(forall|i: int|
                    0 <= i < content.len() ==> (#[trigger] content[i] as int) < 128)) by {
                    if forall|i: int|
                        0 <= i < content.len() ==> (#[trigger] content[i] as int) < 128 {
                        assert(forall|i: int|
                            0 <= i < content.len() ==> #[trigger] content[i] <= '\u{7f}');
                    }
                }
            },
        }
    }
}

/// A string begins with one quote or with three of them, and one without an end is an error.
pub proof fn law_strings(text: Seq<char>, cursor: Cursor)
    requires
        within_line(text, cursor),
        text[cursor.at] == '\'' || text[cursor.at] == '"',
    ensures
        ({
            let quote = text[cursor.at];
            let triple = spells(text, cursor.at, seq![quote, quote, quote]);
            let begin = if triple {
                cursor.at + 3
            } else {
                cursor.at + 1
            };
            match lexical::string_rest(text, begin, Quotes { quote, triple, raw: false }) {
                Some((content, end)) => string_token(text, cursor, content, false, end),
                None => cannot_cut(text, cursor, LexicalError::StringError),
            }
        }),
{
    let quote = text[cursor.at];
    let three = seq![quote, quote, quote];
    if spells(text, cursor.at, three) {
        assert(text[cursor.at + 1] == three[1]);
        assert(text[cursor.at + 2] == three[2]);
    }
}

/// Whether a character is a letter, in either case.
pub open spec fn either(c: char, lower: char, upper: char) -> bool {
    c == lower || c == upper
}

/// A string may have a prefix: `u` says nothing, `r` makes it raw, `b` makes it bytes, and `br` and
/// `rb` do both.
#[verifier::spinoff_prover]
pub proof fn law_prefixed_strings(text: Seq<char>, cursor: Cursor, quote_at: int)
    requires
        within_line(text, cursor),
        char_at(text, quote_at, '\'') || char_at(text, quote_at, '"'),
        ({
            let first = text[cursor.at];
            let second = text[cursor.at + 1];
            ||| quote_at == cursor.at + 1 && (either(first, 'u', 'U') || either(first, 'r', 'R')
                || either(first, 'b', 'B'))
            ||| quote_at == cursor.at + 2 && (either(first, 'b', 'B') && either(second, 'r', 'R')
                || either(first, 'r', 'R') && either(second, 'b', 'B'))
        }),
    ensures
        ({
            let first = text[cursor.at];
            let quote = text[quote_at];
            let triple = spells(text, quote_at, seq![quote, quote, quote]);
            let begin = if triple {
                quote_at + 3
            } else {
                quote_at + 1
            };
            let raw = quote_at == cursor.at + 2 || either(first, 'r', 'R');
            let bytes = quote_at == cursor.at + 2 || either(first, 'b', 'B');
            match lexical::string_rest(text, begin, Quotes { quote, triple, raw }) {
                Some((content, end)) => string_token(text, cursor, content, bytes, end),
                None => cannot_cut(text, cursor, LexicalError::StringError),
            }
        }),
{
    let quote = text[quote_at];
    let three = seq![quote, quote, quote];
    if spells(text, quote_at, three) {
        assert(text[quote_at + 1] == three[1]);
        assert(text[quote_at + 2] == three[2]);
    }
    let triple = spells(text, quote_at, three);
    let begin = if triple {
        quote_at + 3
    } else {
        quote_at + 1
    };
    let first = text[cursor.at];
    let raw = quote_at == cursor.at + 2 || either(first, 'r', 'R');
    let bytes = quote_at == cursor.at + 2 || either(first, 'b', 'B');
    assert forall|i: int| cursor.at <= i < quote_at implies #[trigger] name_goes_on(text, i) by {}
    lemma_name_end(text, cursor.at, quote_at);
    let word = text.subrange(cursor.at, quote_at);
    assert(word[0] == first);
    assert(lexical::string_prefix(word) == Some(StringPrefix { raw, bytes }));
    let lexeme = lexical::lex_string(text, quote_at, StringPrefix { raw, bytes });
    assert(lexical::cut(text, cursor) == lexical::cut_lexeme(text, cursor, lexeme));
    match lexical::string_rest(text, begin, Quotes { quote, triple, raw }) {
        Some((content, end)) => {
            lemma_string_token(text, cursor, content, bytes, end);
        },
        None => {},
    }
}

// ---------------------------------------------------------------------------------------------
// Whole texts.

/// Every line ending is read as one line feed, and one behind a backslash is not read at all.
pub proof fn law_line_endings(rest: Seq<char>, c: char)
    ensures
        lexical::unified_newlines(Seq::empty()) == Seq::<char>::empty(),
        c != '\r' ==> lexical::unified_newlines(seq![c] + rest) == seq![c]
            + lexical::unified_newlines(rest),
        lexical::unified_newlines(seq!['\r', '\n'] + rest) == seq!['\n']
            + lexical::unified_newlines(rest),
        !(rest.len() > 0 && rest[0] == '\n') ==> lexical::unified_newlines(seq!['\r'] + rest)
            == seq!['\n'] + lexical::unified_newlines(rest),
        lexical::joined_lines(Seq::empty()) == Seq::<char>::empty(),
        lexical::joined_lines(seq!['\\', '\n'] + rest) == lexical::joined_lines(rest),
        c != '\\' || !(rest.len() > 0 && rest[0] == '\n') ==> lexical::joined_lines(
            seq![c] + rest,
        ) == seq![c] + lexical::joined_lines(rest),
{
    assert((seq![c] + rest).skip(1) =~= rest);
    assert((seq!['\r'] + rest).skip(1) =~= rest);
    assert((seq!['\r', '\n'] + rest).skip(2) =~= rest);
    assert((seq!['\\', '\n'] + rest).skip(2) =~= rest);
    if rest.len() > 0 {
        assert((seq![c] + rest)[1] == rest[0]);
        assert((seq!['\r'] + rest)[1] == rest[0]);
    }
}

/// A text that is too long for its places to be counted is an error.
pub proof fn law_too_long_texts(source: Seq<char>)
    requires
        lexical::joined_lines(lexical::unified_newlines(source)).len() >= usize::MAX,
    ensures
        lexical::lex(source).tokens.len() == 0,
        lexical::lex(source).error == Some(LexicalError::TooLong),
{
}

/// The tokens of a text are cut off one after the other, from its beginning, where a line begins
/// that nothing is indented in.
pub proof fn law_tokens_are_cut_off(source: Seq<char>, text: Seq<char>, cursor: Cursor)
    requires
        text == lexical::joined_lines(lexical::unified_newlines(source)),
        text.len() < usize::MAX,
    ensures
        lexical::lex(source) == lexical::lex_from(
            text,
            Cursor { at: 0, line_begins: true, nesting: 0, indents: seq![0] },
        ),
        lexical::cut(text, cursor) matches Cut::Tokens(tokens, next) ==> {
            let rest = lexical::lex_from(text, next);
            let all = lexical::lex_from(text, cursor);
            cursor.at < next.at <= text.len() || cursor.at == next.at && cursor.line_begins
                && !next.line_begins ==> all.tokens == tokens + rest.tokens && all.error
                == rest.error
        },
        lexical::cut(text, cursor) matches Cut::Error(error) ==> {
            let all = lexical::lex_from(text, cursor);
            all.tokens == Seq::<TokenModel>::empty() && all.error == Some(error)
        },
        lexical::cut(text, cursor) matches Cut::End(tokens) ==> {
            let all = lexical::lex_from(text, cursor);
            all.tokens == tokens && all.error is None
        },
{
}

} // verus!
