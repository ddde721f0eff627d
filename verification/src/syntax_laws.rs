//! Properties of the syntax.
use vstd::prelude::*;

use crate::ast::ProgramModel;
use crate::grammar;
use crate::grammar::{Start, Tokens, LEVELS};
use crate::lexical;
use crate::lexical::{Cursor, Cut, Lexed, Quotes, StringPrefix};
use crate::parser;
use crate::token::{Symbol, TokModel, TokenModel};

verus! {

// ---------------------------------------------------------------------------------------------
// Texts.

/// A text is parsed as what was asked for.
pub proof fn law_syntax_fits_start(start: Start, source: Seq<char>)
    ensures
        parser::syntax(start, source) matches Ok(top) ==> match start {
            Start::Program => top is Program,
            Start::Statement => top is Statement,
            Start::Expression => top is Expression,
        },
{
}

/// Whatever is parsed as one statement is parsed as the program of that statement.
pub proof fn law_statement_is_a_program(source: Seq<char>)
    ensures
        parser::parsed_statement(source) matches Ok(statement) ==> parser::parsed_program(source)
            == Ok::<ProgramModel, Seq<char>>(ProgramModel { statements: seq![statement] }),
{
    reveal(grammar::single);
    reveal(grammar::program);
    let ts = lexical::lex(source).tokens;
    match grammar::statement(ts, 0) {
        Ok((found, p)) => if found.len() == 1 && p == ts.len() {
            if ts.len() == 0 {
                lemma_no_statement(ts);
            }
            assert(seq![] + found =~= found);
            assert(found =~= seq![found[0]]);
            assert(grammar::program(ts, p, found) == Ok::<ProgramModel, int>(
                ProgramModel { statements: found },
            ));
        },
        Err(_) => {},
    }
}

/// No statement is empty.
proof fn lemma_no_statement(ts: Tokens)
    requires
        ts.len() == 0,
    ensures
        grammar::statement(ts, 0) is Err,
{
    reveal(grammar::statement);
    reveal(grammar::line);
    reveal(grammar::small_statement);
    reveal(grammar::expression_statement);
    reveal(grammar::assigned);
    reveal(grammar::testlist);
    reveal(grammar::element);
    reveal(grammar::test);
    lemma_no_operation(ts, 0);
}

proof fn lemma_no_operation(ts: Tokens, level: u8)
    requires
        ts.len() == 0,
        level <= LEVELS,
    ensures
        grammar::operation(ts, 0, level) is Err,
    decreases LEVELS - level,
{
    reveal(grammar::operation);
    if level < LEVELS {
        lemma_no_operation(ts, (level + 1) as u8);
    } else {
        reveal(grammar::factor);
        reveal(grammar::power);
        reveal(grammar::atom_expression);
        reveal(grammar::atom);
        reveal(grammar::literal);
        assert(grammar::atom(ts, 0) is Err);
        assert(grammar::atom_expression(ts, 0) is Err);
        assert(grammar::power(ts, 0) is Err);
        assert(grammar::factor(ts, 0) is Err);
    }
}

/// Whether a text holds nothing but spaces and line endings.
pub open spec fn is_blank(source: Seq<char>) -> bool {
    forall|i: int| 0 <= i < source.len() ==> #[trigger] source[i] == ' ' || source[i] == '\n'
}

/// Blank lines are the empty program.
pub proof fn law_blank_text_is_the_empty_program(source: Seq<char>)
    requires
        is_blank(source),
        source.len() < usize::MAX,
    ensures
        parser::parsed_program(source) == Ok::<ProgramModel, Seq<char>>(
            ProgramModel { statements: seq![] },
        ),
{
    lemma_blank_lines(source);
    lemma_blank_tokens(source, 0);
    reveal(grammar::program);
    assert(lexical::lex(source).tokens =~= seq![]);
}

proof fn lemma_blank_lines(text: Seq<char>)
    requires
        is_blank(text),
    ensures
        lexical::unified_newlines(text) == text,
        lexical::joined_lines(text) == text,
    decreases text.len(),
{
    if text.len() > 0 {
        let rest = text.skip(1);
        assert forall|i: int| 0 <= i < rest.len() implies #[trigger] rest[i] == ' ' || rest[i]
            == '\n' by {
            assert(rest[i] == text[i + 1]);
        }
        assert(text[0] == ' ' || text[0] == '\n');
        lemma_blank_lines(rest);
        assert(seq![text[0]] + rest =~= text);
    }
}

proof fn lemma_blank_tokens(text: Seq<char>, at: int)
    requires
        is_blank(text),
        0 <= at <= text.len(),
    ensures
        lexical::lex_from(text, Cursor { at, ..lexical::first_cursor() }) == (Lexed {
            tokens: seq![],
            error: None,
        }),
    decreases text.len() - at,
{
    let cursor = Cursor { at, ..lexical::first_cursor() };
    let end = lexical::spaces_end(text, at);
    lemma_spaces_end(text, at);
    if end < text.len() {
        assert(text[end] == '\n');
        lemma_blank_tokens(text, end + 1);
        let next = Cursor { at: end + 1, ..cursor };
        assert(lexical::cut(text, cursor) == Cut::Tokens(seq![], next));
        assert(next == (Cursor { at: end + 1, ..lexical::first_cursor() }));
        assert(Seq::<TokenModel>::empty() + Seq::<TokenModel>::empty() =~= seq![]);
    } else {
        let next = Cursor { at: end, line_begins: false, ..cursor };
        assert(lexical::cut(text, cursor) == Cut::Tokens(seq![], next));
        assert(lexical::cut(text, next) == Cut::End(lexical::dedents(text, end, 0)));
        assert(lexical::dedents(text, end, 0) =~= seq![]);
        assert(lexical::lex_from(text, next) == (Lexed { tokens: seq![], error: None }));
        assert(Seq::<TokenModel>::empty() + Seq::<TokenModel>::empty() =~= seq![]);
    }
}

// ---------------------------------------------------------------------------------------------
// Blocks and brackets.

/// How many blocks a token opens.
pub open spec fn opened_blocks(tok: TokModel) -> int {
    match tok {
        TokModel::Symbol(Symbol::Indent) => 1,
        TokModel::Symbol(Symbol::Dedent) => -1,
        _ => 0,
    }
}

/// How many brackets a token opens.
pub open spec fn opened_brackets(tok: TokModel) -> int {
    match tok {
        TokModel::Symbol(symbol) => if lexical::opens_bracket(symbol) {
            1
        } else if lexical::closes_bracket(symbol) {
            -1
        } else {
            0
        },
        _ => 0,
    }
}

/// How many blocks tokens open beyond those that they close.
pub open spec fn block_depth(tokens: Tokens) -> int
    decreases tokens.len(),
{
    if tokens.len() == 0 {
        0
    } else {
        block_depth(tokens.drop_last()) + opened_blocks(tokens.last().tok)
    }
}

/// How many brackets tokens open beyond those that they close.
pub open spec fn bracket_depth(tokens: Tokens) -> int
    decreases tokens.len(),
{
    if tokens.len() == 0 {
        0
    } else {
        bracket_depth(tokens.drop_last()) + opened_brackets(tokens.last().tok)
    }
}

/// In a text that can be cut into tokens, every block and every bracket that is opened is closed.
pub proof fn law_blocks_and_brackets_are_closed(source: Seq<char>)
    ensures
        lexical::lex(source).error is None ==> {
            &&& block_depth(lexical::lex(source).tokens) == 0
            &&& bracket_depth(lexical::lex(source).tokens) == 0
        },
{
    let text = lexical::joined_lines(lexical::unified_newlines(source));
    lemma_depths(text, lexical::first_cursor());
}

proof fn lemma_depth_join(a: Tokens, b: Tokens)
    ensures
        block_depth(a + b) == block_depth(a) + block_depth(b),
        bracket_depth(a + b) == bracket_depth(a) + bracket_depth(b),
    decreases b.len(),
{
    if b.len() == 0 {
        assert(a + b =~= a);
    } else {
        lemma_depth_join(a, b.drop_last());
        assert((a + b).drop_last() =~= a + b.drop_last());
    }
}

proof fn lemma_depth_one(token: TokenModel)
    ensures
        block_depth(seq![token]) == opened_blocks(token.tok),
        bracket_depth(seq![token]) == opened_brackets(token.tok),
{
    assert(seq![token].drop_last() =~= seq![]);
    assert(block_depth(seq![token].drop_last()) == 0);
    assert(bracket_depth(seq![token].drop_last()) == 0);
}

proof fn lemma_depth_dedents(text: Seq<char>, at: int, count: int)
    requires
        count >= 0,
    ensures
        block_depth(lexical::dedents(text, at, count)) == -count,
        bracket_depth(lexical::dedents(text, at, count)) == 0,
    decreases count,
{
    if count > 0 {
        lemma_depth_dedents(text, at, count - 1);
        assert(lexical::dedents(text, at, count).drop_last() =~= lexical::dedents(
            text,
            at,
            count - 1,
        ));
    }
}

/// Whether a cursor is within the text and at least the outermost block is open.
spec fn is_cursor(text: Seq<char>, cursor: Cursor) -> bool {
    &&& 0 <= cursor.at <= text.len()
    &&& cursor.nesting >= 0
    &&& cursor.indents.len() >= 1
}

proof fn lemma_depths(text: Seq<char>, cursor: Cursor)
    requires
        is_cursor(text, cursor),
    ensures
        lexical::lex_from(text, cursor).error is None ==> {
            let tokens = lexical::lex_from(text, cursor).tokens;
            &&& block_depth(tokens) == 1 - cursor.indents.len()
            &&& bracket_depth(tokens) == -cursor.nesting
        },
    decreases
            text.len() - cursor.at,
            if cursor.line_begins {
                1nat
            } else {
                0nat
            },
{
    lemma_cut(text, cursor);
    match lexical::cut(text, cursor) {
        Cut::Tokens(tokens, next) => {
            lemma_depths(text, next);
            lemma_depth_join(tokens, lexical::lex_from(text, next).tokens);
        },
        _ => {},
    }
}

/// One cut goes on, and its tokens open what the cursor then counts as open.
proof fn lemma_cut(text: Seq<char>, cursor: Cursor)
    requires
        is_cursor(text, cursor),
    ensures
        match lexical::cut(text, cursor) {
            Cut::Tokens(tokens, next) => {
                &&& is_cursor(text, next)
                &&& lexical::goes_on(cursor, next, text.len() as int)
                &&& block_depth(tokens) == next.indents.len() - cursor.indents.len()
                &&& bracket_depth(tokens) == next.nesting - cursor.nesting
            },
            Cut::Error(_) => true,
            Cut::End(tokens) => {
                &&& block_depth(tokens) == 1 - cursor.indents.len()
                &&& bracket_depth(tokens) == -cursor.nesting
            },
        },
{
    let at = cursor.at;
    if cursor.line_begins {
        lemma_cut_line_begin(text, cursor);
    } else if at >= text.len() {
        lemma_depth_dedents(text, text.len() as int, cursor.indents.len() - 1);
    } else {
        let c = text[at];
        if lexical::is_digit(c) || (c == '.' && at + 1 < text.len() && lexical::is_digit(
            text[at + 1],
        )) {
            lemma_number(text, at);
            lemma_cut_lexeme(text, cursor, lexical::lex_number(text, at));
        } else if lexical::is_name_start(c) {
            lemma_word(text, at);
            lemma_cut_lexeme(text, cursor, lexical::lex_word(text, at));
        } else if lexical::is_quote(c) {
            let prefix = StringPrefix { raw: false, bytes: false };
            lemma_string(text, at, prefix);
            lemma_cut_lexeme(text, cursor, lexical::lex_string(text, at, prefix));
        } else if c == '#' {
            lemma_line_end(text, at);
        } else if c == '\n' {
            lemma_depth_one(lexical::symbol_token(text, at, at + 1, Symbol::Newline));
        } else if lexical::is_blank(c) {
        } else {
            match lexical::operator(text, at) {
                Some((symbol, length)) => {
                    lemma_depth_one(lexical::symbol_token(text, at, at + length, symbol));
                },
                None => {},
            }
        }
    }
}

proof fn lemma_cut_line_begin(text: Seq<char>, cursor: Cursor)
    requires
        is_cursor(text, cursor),
    ensures
        match lexical::cut_line_begin(text, cursor) {
            Cut::Tokens(tokens, next) => {
                &&& is_cursor(text, next)
                &&& cursor.at < next.at <= text.len() || (cursor.at == next.at
                    && !next.line_begins)
                &&& block_depth(tokens) == next.indents.len() - cursor.indents.len()
                &&& bracket_depth(tokens) == next.nesting - cursor.nesting
            },
            _ => true,
        },
{
    let end = lexical::spaces_end(text, cursor.at);
    lemma_spaces_end(text, cursor.at);
    lemma_line_end(text, end);
    lemma_depth_one(lexical::symbol_token(text, end, end, Symbol::Indent));
    let width = if end == text.len() {
        0
    } else {
        end - cursor.at
    };
    let count = lexical::deeper(cursor.indents, width);
    lemma_deeper(cursor.indents, width);
    lemma_depth_dedents(text, end, count);
}

proof fn lemma_deeper(indents: Seq<int>, width: int)
    ensures
        0 <= lexical::deeper(indents, width) <= indents.len(),
    decreases indents.len(),
{
    if indents.len() > 0 {
        lemma_deeper(indents.drop_last(), width);
    }
}

/// Whether a lexeme lies within the text and is neither a bracket nor the edge of a block.
spec fn is_plain(lexeme: lexical::Lexeme, at: int, length: int) -> bool {
    lexeme matches Ok((tok, end)) ==> {
        &&& at < end <= length
        &&& opened_blocks(tok) == 0
        &&& opened_brackets(tok) == 0
    }
}

proof fn lemma_cut_lexeme(text: Seq<char>, cursor: Cursor, lexeme: lexical::Lexeme)
    requires
        is_plain(lexeme, cursor.at, text.len() as int),
    ensures
        lexical::cut_lexeme(text, cursor, lexeme) matches Cut::Tokens(tokens, next) ==> {
            &&& block_depth(tokens) == 0
            &&& bracket_depth(tokens) == 0
        },
{
    match lexeme {
        Ok((tok, end)) => lemma_depth_one(lexical::token(text, cursor.at, end, tok)),
        Err(_) => {},
    }
}

proof fn lemma_spaces_end(text: Seq<char>, at: int)
    requires
        0 <= at <= text.len(),
    ensures
        at <= lexical::spaces_end(text, at) <= text.len(),
        lexical::spaces_end(text, at) < text.len() ==> text[lexical::spaces_end(text, at)] != ' ',
    decreases text.len() - at,
{
    if lexical::is_at(text, at, ' ') {
        lemma_spaces_end(text, at + 1);
    }
}

proof fn lemma_line_end(text: Seq<char>, at: int)
    requires
        0 <= at <= text.len(),
    ensures
        at <= lexical::line_end(text, at) <= text.len(),
        at < text.len() && text[at] != '\n' ==> at < lexical::line_end(text, at),
    decreases text.len() - at,
{
    if at < text.len() && text[at] != '\n' {
        lemma_line_end(text, at + 1);
    }
}

proof fn lemma_name_end(text: Seq<char>, at: int)
    requires
        0 <= at <= text.len(),
    ensures
        at <= lexical::name_end(text, at) <= text.len(),
        at < text.len() && lexical::is_name_char(text[at]) ==> at < lexical::name_end(text, at),
    decreases text.len() - at,
{
    if at < text.len() && lexical::is_name_char(text[at]) {
        lemma_name_end(text, at + 1);
    }
}

proof fn lemma_digits_end(text: Seq<char>, at: int, radix: int)
    requires
        0 <= at <= text.len(),
    ensures
        at <= lexical::digits_end(text, at, radix) <= text.len(),
    decreases text.len() - at,
{
    if at < text.len() && lexical::digit_value(text[at], radix) is Some {
        lemma_digits_end(text, at + 1, radix);
    }
}

proof fn lemma_number(text: Seq<char>, at: int)
    requires
        0 <= at < text.len(),
    ensures
        is_plain(lexical::lex_number(text, at), at, text.len() as int),
{
    if lexical::is_at(text, at, '0') && at + 1 < text.len() && lexical::prefix_radix(
        text[at + 1],
    ) is Some {
        lemma_digits_end(text, at + 2, lexical::prefix_radix(text[at + 1])->0);
    } else {
        let whole = lexical::digits_end(text, at, 10);
        lemma_digits_end(text, at, 10);
        let fraction = if lexical::is_at(text, whole, '.') {
            lemma_digits_end(text, whole + 1, 10);
            lexical::digits_end(text, whole + 1, 10)
        } else {
            whole
        };
        if lexical::is_at(text, fraction, 'e') || lexical::is_at(text, fraction, 'E') {
            if lexical::is_at(text, fraction + 1, '+') || lexical::is_at(text, fraction + 1, '-') {
                lemma_digits_end(text, fraction + 2, 10);
            } else {
                lemma_digits_end(text, fraction + 1, 10);
            }
        }
    }
}

proof fn lemma_string_rest(text: Seq<char>, at: int, quotes: Quotes)
    requires
        0 <= at,
    ensures
        lexical::string_rest(text, at, quotes) matches Some((_, end)) ==> at < end <= text.len(),
    decreases text.len() - at,
{
    if at < text.len() {
        lemma_string_rest(text, at + 1, quotes);
        if at + 1 < text.len() {
            lemma_string_rest(text, at + 2, quotes);
        }
    }
}

proof fn lemma_string(text: Seq<char>, at: int, prefix: StringPrefix)
    requires
        0 <= at < text.len(),
    ensures
        is_plain(lexical::lex_string(text, at, prefix), at, text.len() as int),
{
    let quote = text[at];
    let triple = lexical::is_at(text, at + 1, quote) && lexical::is_at(text, at + 2, quote);
    let quotes = Quotes { quote, triple, raw: prefix.raw };
    lemma_string_rest(text, at + 1, quotes);
    lemma_string_rest(text, at + 3, quotes);
}

proof fn lemma_word(text: Seq<char>, at: int)
    requires
        0 <= at < text.len(),
        lexical::is_name_start(text[at]),
    ensures
        is_plain(lexical::lex_word(text, at), at, text.len() as int),
{
    let end = lexical::name_end(text, at);
    let word = text.subrange(at, end);
    lemma_name_end(text, at);
    if end < text.len() && lexical::is_quote(text[end]) && lexical::string_prefix(
        word,
    ) is Some {
        lemma_string(text, end, lexical::string_prefix(word)->0);
    }
}

} // verus!
