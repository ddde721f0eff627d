//! What source text is parsed as, from its characters to the tree.
use vstd::prelude::*;

use crate::ast::{ExpressionModel, NumberModel, TopModel};
use crate::expression_laws::{law_atoms, law_strings_are_joined, law_trailers_belong_to_the_left};
use crate::grammar;
use crate::grammar::{Infix, Start, Tokens};
use crate::lexical;
use crate::lexical::{Cursor, Cut, Lexed, Quotes};
use crate::operator_laws::{
    identifier, is_operation, is_parsed_as, joined, law_exponent_binds, law_names_with_operator,
    lemma_climb, lemma_nothing_follows, lemma_whole, names, reads, stands, written, written_at,
};
use crate::parser;
use crate::parser::{ReadFailure, SyntaxErrorModel};
use crate::text::{decimal, law_decimal_is_read_back};
use crate::token::{LexicalError, Symbol, TokModel, TokenModel};
use crate::token_laws::{
    char_at, cuts_off, figure, is_sign, is_word, law_between_tokens, law_decimal_notation_is_lexed,
    law_indentation, law_plain_strings, law_signs, law_strings, law_tokens_are_cut_off, law_words,
    letter, name_goes_on, spelling, spells, within_line,
};

verus! {

// ---------------------------------------------------------------------------------------------
// Results and errors.

/// A text whose tokens all fit is parsed as what they are parsed as. Otherwise the first token
/// that does not fit is the error. If all tokens fit up to the place where the text cannot be cut,
/// that is the error, and if the text ends too early, no token is.
pub proof fn law_syntax(start: Start, source: Seq<char>)
    ensures
        ({
            let lexed = lexical::lex(source);
            let parsed = grammar::top(start, lexed.tokens);
            let result = parser::syntax(start, source);
            &&& parsed is Err && 0 <= parsed->Err_0 < lexed.tokens.len() ==> match result {
                Err(SyntaxErrorModel::UnrecognizedToken { token: Some(token) }) => token
                    == lexed.tokens[parsed->Err_0],
                _ => false,
            }
            &&& !(parsed is Err && 0 <= parsed->Err_0 < lexed.tokens.len()) ==> match (
                lexed.error,
                parsed,
            ) {
                (Some(why), _) => result matches Err(SyntaxErrorModel::Lexical { error }) && error
                    == why,
                (None, Err(_)) => result matches Err(
                    SyntaxErrorModel::UnrecognizedToken { token: None },
                ),
                (None, Ok(top)) => result matches Ok(found) && found == top,
            }
        }),
{
}

/// A program, a statement or an expression is what the text is parsed as, and what is said
/// otherwise is told by the error.
pub proof fn law_parsed_texts(source: Seq<char>)
    ensures
        match parser::syntax(Start::Program, source) {
            Ok(TopModel::Program(program)) => parser::parsed_program(source) matches Ok(found)
                && found == program,
            Ok(_) => false,
            Err(error) => parser::parsed_program(source) matches Err(said) && said
                == parser::error_text(error),
        },
        match parser::syntax(Start::Statement, source) {
            Ok(TopModel::Statement(statement)) => parser::parsed_statement(source) matches Ok(found)
                && found == statement,
            Ok(_) => false,
            Err(error) => parser::parsed_statement(source) matches Err(said) && said
                == parser::error_text(error),
        },
        match parser::syntax(Start::Expression, source) {
            Ok(TopModel::Expression(expression)) => parser::parsed_expression(source) matches Ok(
                found,
            ) && found == expression,
            Ok(_) => false,
            Err(error) => parser::parsed_expression(source) matches Err(said) && said
                == parser::error_text(error),
        },
{
}

/// What is said of a token that does not fit is told by the token with its places, without any
/// tokens that would have fitted, and what is said of a text that cannot be cut by the reason.
pub proof fn law_error_texts(token: TokenModel, error: LexicalError, why: String)
    ensures
        parser::error_text(SyntaxErrorModel::UnrecognizedToken { token: Some(token) })
            == parser::unrecognized_token_text(
            Some((token.start, token.tok, token.end)),
            Seq::<Seq<char>>::empty(),
        ),
        parser::error_text(SyntaxErrorModel::UnrecognizedToken { token: None })
            == parser::unrecognized_token_text(None, Seq::<Seq<char>>::empty()),
        parser::error_text(SyntaxErrorModel::Lexical { error }) == parser::user_error_text(error),
        parser::read_failure_text(ReadFailure::Opening(why)) == "Opening file failed: "@ + why@,
        parser::read_failure_text(ReadFailure::Reading(why)) == "Reading file failed: "@ + why@,
{
}

// ---------------------------------------------------------------------------------------------
// Names and operators.

/// Whether a text is a name: a letter, then letters and digits, and no word of the language.
pub open spec fn is_identifier(name: Seq<char>) -> bool {
    &&& name.len() >= 1
    &&& letter(name[0])
    &&& forall|i: int| 0 <= i < name.len() ==> letter(#[trigger] name[i]) || figure(name[i])
    &&& forall|symbol: Symbol| is_word(symbol) ==> #[trigger] spelling(symbol) != name
}

/// An operator as text. Two words have a space between them.
pub open spec fn operator_text(infix: Infix) -> Seq<char> {
    let symbols = written(infix);
    if symbols.len() == 2 {
        spelling(symbols[0]) + seq![' '] + spelling(symbols[1])
    } else {
        spelling(symbols[0])
    }
}

/// The text of two names with an operator between them, and spaces around it.
pub open spec fn operation_text(a: Seq<char>, infix: Infix, b: Seq<char>) -> Seq<char> {
    a + seq![' '] + operator_text(infix) + seq![' '] + b
}

proof fn lemma_plain_lines(text: Seq<char>)
    requires
        forall|i: int| 0 <= i < text.len() ==> #[trigger] text[i] != '\r' && text[i] != '\\',
    ensures
        lexical::unified_newlines(text) == text,
        lexical::joined_lines(text) == text,
    decreases text.len(),
{
    if text.len() > 0 {
        let rest = text.skip(1);
        assert forall|i: int| 0 <= i < rest.len() implies #[trigger] rest[i] != '\r' && rest[i]
            != '\\' by {
            assert(rest[i] == text[i + 1]);
        }
        lemma_plain_lines(rest);
        assert(text[0] != '\r');
        assert(seq![text[0]] + rest =~= text);
    }
}

/// The words among the operators are made of letters.
#[verifier::spinoff_prover]
proof fn lemma_operator_words(symbol: Symbol)
    requires
        symbol == Symbol::Or || symbol == Symbol::And || symbol == Symbol::In || symbol
            == Symbol::Not || symbol == Symbol::Is,
    ensures
        spelling(symbol).len() >= 2,
        forall|k: int| 0 <= k < spelling(symbol).len() ==> letter(#[trigger] spelling(symbol)[k]),
{
    reveal_strlit("or");
    reveal_strlit("and");
    reveal_strlit("in");
    reveal_strlit("not");
    reveal_strlit("is");
    assert("or"@ =~= seq!['o', 'r']);
    assert("and"@ =~= seq!['a', 'n', 'd']);
    assert("in"@ =~= seq!['i', 'n']);
    assert("not"@ =~= seq!['n', 'o', 't']);
    assert("is"@ =~= seq!['i', 's']);
}

/// Whether a symbol is one that operators are written with.
pub open spec fn operator_symbol(symbol: Symbol) -> bool {
    ||| symbol == Symbol::Or || symbol == Symbol::And || symbol == Symbol::In || symbol
        == Symbol::Not || symbol == Symbol::Is
    ||| is_sign(symbol) && symbol != Symbol::Dot && symbol != Symbol::Lpar && symbol
        != Symbol::Rpar && symbol != Symbol::Lsqb && symbol != Symbol::Rsqb && symbol
        != Symbol::Lbrace && symbol != Symbol::Rbrace
}

#[verifier::spinoff_prover]
proof fn lemma_sign_characters(symbol: Symbol)
    requires
        is_sign(symbol),
    ensures
        1 <= spelling(symbol).len() <= 3,
        forall|k: int|
            0 <= k < spelling(symbol).len() ==> #[trigger] spelling(symbol)[k] != ' '
                && spelling(symbol)[k] != '\r' && spelling(symbol)[k] != '\\' && spelling(
                symbol,
            )[k] != '\n',
{
}

/// A symbol with a space behind it is cut off.
proof fn lemma_symbol_before_space(text: Seq<char>, cursor: Cursor, symbol: Symbol)
    requires
        operator_symbol(symbol),
        within_line(text, cursor),
        spells(text, cursor.at, spelling(symbol)),
        char_at(text, cursor.at + spelling(symbol).len(), ' '),
    ensures
        cuts_off(text, cursor, TokModel::Symbol(symbol), cursor.at + spelling(symbol).len()),
        spelling(symbol).len() >= 1,
{
    let part = spelling(symbol);
    let end = cursor.at + part.len();
    if is_sign(symbol) {
        lemma_sign_characters(symbol);
        assert forall|other: Symbol|
            is_sign(other) && spells(text, cursor.at, #[trigger] spelling(other)) implies spelling(
            other,
        ).len() <= part.len() by {
            lemma_sign_characters(other);
            if spelling(other).len() > part.len() {
                assert(text[cursor.at + part.len()] == spelling(other)[part.len() as int]);
            }
        }
        law_signs(text, cursor, symbol);
    } else {
        lemma_operator_words(symbol);
        assert forall|i: int| cursor.at <= i < end implies #[trigger] name_goes_on(text, i) by {
            assert(text[cursor.at + (i - cursor.at)] == part[i - cursor.at]);
        }
        assert(text[cursor.at + 0] == part[0]);
        assert(text.subrange(cursor.at, end) =~= part) by {
            assert forall|k: int| 0 <= k < part.len() implies text.subrange(cursor.at, end)[k]
                == part[k] by {
                assert(text[cursor.at + k] == part[k]);
            }
        }
        law_words(text, cursor, end);
    }
}

/// A name is cut off where nothing of it follows.
proof fn lemma_name_is_cut(text: Seq<char>, cursor: Cursor, name: Seq<char>)
    requires
        is_identifier(name),
        within_line(text, cursor),
        spells(text, cursor.at, name),
        ({
            let end = cursor.at + name.len();
            end == text.len() || char_at(text, end, ' ')
        }),
    ensures
        cuts_off(text, cursor, TokModel::Name { name }, cursor.at + name.len()),
{
    let end = cursor.at + name.len();
    assert forall|i: int| cursor.at <= i < end implies #[trigger] name_goes_on(text, i) by {
        assert(text[cursor.at + (i - cursor.at)] == name[i - cursor.at]);
    }
    assert(text[cursor.at + 0] == name[0]);
    assert(text.subrange(cursor.at, end) =~= name) by {
        assert forall|k: int| 0 <= k < name.len() implies text.subrange(cursor.at, end)[k]
            == name[k] by {
            assert(text[cursor.at + k] == name[k]);
        }
    }
    law_words(text, cursor, end);
}

/// Where the cutting stands within the first line.
pub open spec fn in_first_line(at: int) -> Cursor {
    Cursor { at, line_begins: false, nesting: 0, indents: seq![0] }
}

/// The tokens from a place within the first line on.
#[verifier::opaque]
pub open spec fn rest_of_line(text: Seq<char>, at: int) -> Lexed {
    lexical::lex_from(text, in_first_line(at))
}

/// Whether a token comes first, and then the tokens from another place on.
spec fn token_comes(text: Seq<char>, at: int, tok: TokModel, end: int) -> bool {
    let all = rest_of_line(text, at);
    let rest = rest_of_line(text, end);
    &&& all.error == rest.error
    &&& all.tokens.len() == rest.tokens.len() + 1
    &&& all.tokens[0].tok == tok
    &&& forall|k: int| 0 <= k < rest.tokens.len() ==> all.tokens[k + 1] == #[trigger] rest.tokens[k]
}

proof fn lemma_token_comes(text: Seq<char>, at: int, tok: TokModel, end: int)
    requires
        0 <= at < end <= text.len(),
        cuts_off(text, in_first_line(at), tok, end),
    ensures
        token_comes(text, at, tok, end),
{
    reveal(rest_of_line);
    let rest = rest_of_line(text, end);
    assert(lexical::cut(text, in_first_line(at)) matches Cut::Tokens(_, next) && next
        == in_first_line(end));
}

proof fn lemma_space_is_skipped(text: Seq<char>, at: int)
    requires
        char_at(text, at, ' '),
    ensures
        rest_of_line(text, at) == rest_of_line(text, at + 1),
{
    reveal(rest_of_line);
    law_between_tokens(text, in_first_line(at), at);
    assert(lexical::cut(text, in_first_line(at)) == Cut::Tokens(seq![], in_first_line(at + 1)));
    let rest = rest_of_line(text, at + 1);
    assert(Seq::<TokenModel>::empty() + rest.tokens =~= rest.tokens);
}

proof fn lemma_name_comes(text: Seq<char>, at: int, name: Seq<char>)
    requires
        0 <= at,
        is_identifier(name),
        spells(text, at, name),
        at + name.len() == text.len() || char_at(text, at + name.len(), ' '),
    ensures
        token_comes(text, at, TokModel::Name { name }, at + name.len()),
{
    lemma_name_is_cut(text, in_first_line(at), name);
    lemma_token_comes(text, at, TokModel::Name { name }, at + name.len());
}

proof fn lemma_symbol_comes(text: Seq<char>, at: int, symbol: Symbol)
    requires
        0 <= at,
        operator_symbol(symbol),
        spells(text, at, spelling(symbol)),
        char_at(text, at + spelling(symbol).len(), ' '),
    ensures
        token_comes(text, at, TokModel::Symbol(symbol), at + spelling(symbol).len()),
{
    if is_sign(symbol) {
        lemma_sign_characters(symbol);
    } else {
        lemma_operator_words(symbol);
    }
    lemma_symbol_before_space(text, in_first_line(at), symbol);
    lemma_token_comes(text, at, TokModel::Symbol(symbol), at + spelling(symbol).len());
}

proof fn lemma_line_is_over(text: Seq<char>)
    ensures
        rest_of_line(text, text.len() as int).tokens.len() == 0,
        rest_of_line(text, text.len() as int).error is None,
{
    reveal(rest_of_line);
    law_between_tokens(text, in_first_line(text.len() as int), text.len() as int);
}

/// The places of the parts of an operation in its text.
proof fn lemma_operation_text(text: Seq<char>, a: Seq<char>, infix: Infix, b: Seq<char>)
    requires
        text == operation_text(a, infix, b),
    ensures
        ({
            let first = spelling(written(infix)[0]);
            let sign: int = a.len() as int + 1;
            let last: int = sign + operator_text(infix).len() + 1;
            &&& spells(text, 0, a)
            &&& char_at(text, a.len() as int, ' ')
            &&& spells(text, sign, first)
            &&& char_at(text, sign + first.len(), ' ')
            &&& written(infix).len() == 2 ==> {
                let second = spelling(written(infix)[1]);
                &&& spells(text, sign + first.len() + 1, second)
                &&& char_at(text, sign + first.len() + 1 + second.len(), ' ')
                &&& last == sign + first.len() + 1 + second.len() + 1
            }
            &&& written(infix).len() != 2 ==> last == sign + first.len() + 1
            &&& spells(text, last as int, b)
            &&& text.len() == last + b.len()
        }),
{
    let first = spelling(written(infix)[0]);
    let sign: int = a.len() as int + 1;
    let op = operator_text(infix);
    let last = sign + op.len() + 1;
    assert(text.len() == last + b.len());
    assert forall|k: int| 0 <= k < op.len() implies text[sign + k] == op[k] by {}
    if written(infix).len() == 2 {
        let second = spelling(written(infix)[1]);
        let from = sign + first.len() + 1;
        assert forall|k: int| 0 <= k < second.len() implies text[from + k] == #[trigger] second[k]
            by {
            assert(op[first.len() + 1 + k] == second[k]);
            assert(text[sign + (first.len() + 1 + k)] == op[first.len() + 1 + k]);
        }
        assert(op[first.len() as int] == ' ');
        assert(text[sign + first.len()] == op[first.len() as int]);
    }
    assert forall|k: int| 0 <= k < first.len() implies text[sign + k] == #[trigger] first[k] by {
        assert(op[k] == first[k]);
    }
}

proof fn lemma_operator_symbols(infix: Infix)
    ensures
        1 <= written(infix).len() <= 2,
        operator_symbol(written(infix)[0]),
        written(infix).len() == 2 ==> operator_symbol(written(infix)[1]),
{
}

/// A character of a name or of an operator begins no line ending and joins no lines.
proof fn lemma_plain_operation(text: Seq<char>, a: Seq<char>, infix: Infix, b: Seq<char>)
    requires
        text == operation_text(a, infix, b),
        is_identifier(a),
        is_identifier(b),
    ensures
        forall|i: int| 0 <= i < text.len() ==> #[trigger] text[i] != '\r' && text[i] != '\\',
{
    lemma_operator_symbols(infix);
    let op = operator_text(infix);
    assert forall|k: int| 0 <= k < op.len() implies #[trigger] op[k] != '\r' && op[k] != '\\' by {
        let first = spelling(written(infix)[0]);
        if is_sign(written(infix)[0]) {
            lemma_sign_characters(written(infix)[0]);
        } else {
            lemma_operator_words(written(infix)[0]);
        }
        if k < first.len() {
            assert(op[k] == first[k]);
        } else if k > first.len() {
            let second = spelling(written(infix)[1]);
            lemma_operator_words(written(infix)[1]);
            assert(op[k] == second[k - first.len() - 1]);
        }
    }
    assert forall|i: int| 0 <= i < text.len() implies #[trigger] text[i] != '\r' && text[i]
        != '\\' by {
        let sign: int = a.len() as int + 1;
        let last = sign + op.len() + 1;
        if i < a.len() {
            assert(text[i] == a[i]);
        } else if sign <= i < sign + op.len() {
            assert(text[i] == op[i - sign]);
        } else if i >= last {
            assert(text[i] == b[i - last]);
        }
    }
}

/// The tokens of such a text are the name, the operator and the name.
#[verifier::spinoff_prover]
proof fn lemma_operation_tokens(text: Seq<char>, a: Seq<char>, infix: Infix, b: Seq<char>)
    requires
        is_identifier(a),
        is_identifier(b),
        text == operation_text(a, infix, b),
    ensures
        ({
            let lexed = rest_of_line(text, 0);
            &&& lexed.error is None
            &&& is_operation(lexed.tokens, a, infix, b)
        }),
{
    lemma_operation_text(text, a, infix, b);
    lemma_operator_symbols(infix);
    let end = text.len() as int;
    let sign: int = a.len() as int + 1;
    let first = written(infix)[0];
    let behind: int = sign + spelling(first).len();
    let last: int = sign + operator_text(infix).len() + 1;
    lemma_name_comes(text, 0, a);
    lemma_space_is_skipped(text, a.len() as int);
    lemma_symbol_comes(text, sign, first);
    lemma_space_is_skipped(text, behind);
    if written(infix).len() == 2 {
        let second = written(infix)[1];
        lemma_symbol_comes(text, behind + 1, second);
        lemma_space_is_skipped(text, behind + 1 + spelling(second).len());
    }
    lemma_name_comes(text, last, b);
    lemma_line_is_over(text);
    let rest = rest_of_line(text, end);
    assert(rest.tokens.len() == 0);
    let tail = rest_of_line(text, last);
    assert(tail.tokens.len() == 1);
    let ts = rest_of_line(text, 0).tokens;
    let from_sign = rest_of_line(text, sign);
    assert(names(ts, 0, a));
    assert(ts[1] == from_sign.tokens[0]);
    assert(stands(ts, 1, first));
    if written(infix).len() == 2 {
        let from_second = rest_of_line(text, behind + 1);
        assert(from_second.tokens[1] == tail.tokens[0]);
        assert(from_sign.tokens[1] == from_second.tokens[0]);
        assert(from_sign.tokens[2] == from_second.tokens[1]);
        assert(ts[2] == from_sign.tokens[1]);
        assert(ts[3] == from_sign.tokens[2]);
        assert(stands(ts, 2, written(infix)[1]));
        assert(names(ts, 3, b));
    } else {
        assert(from_sign.tokens[1] == tail.tokens[0]);
        assert(ts[2] == from_sign.tokens[1]);
        assert(names(ts, 2, b));
    }
    assert(written_at(ts, 1, infix));
}

/// The text of two names with an operator between them is parsed as that operation on those names:
/// `a == b` as the comparison for equality of `a` and `b`, and likewise for every other operator.
pub proof fn law_operation_text(source: Seq<char>, a: Seq<char>, infix: Infix, b: Seq<char>)
    requires
        is_identifier(a),
        is_identifier(b),
        source == operation_text(a, infix, b),
        source.len() < usize::MAX,
    ensures
        parser::parsed_expression(source) == Ok::<ExpressionModel, Seq<char>>(
            joined(identifier(a), infix, identifier(b)),
        ),
{
    lemma_plain_operation(source, a, infix, b);
    lemma_plain_lines(source);
    lemma_operation_tokens(source, a, infix, b);
    lemma_operation_text(source, a, infix, b);
    let begin = Cursor { at: 0, line_begins: true, nesting: 0, indents: seq![0] };
    assert(source[0] == a[0]) by {
        assert(source[0int + 0int] == a[0]);
    }
    law_indentation(source, begin, 0, 0);
    assert(lexical::cut(source, begin) == Cut::Tokens(seq![], in_first_line(0)));
    law_tokens_are_cut_off(source, source, begin);
    let lexed = lexical::lex(source);
    let line = rest_of_line(source, 0);
    reveal(rest_of_line);
    assert(Seq::<TokenModel>::empty() + line.tokens =~= line.tokens);
    assert(lexed.tokens == line.tokens);
    law_names_with_operator(lexed.tokens, a, infix, b);
}

/// Different operators between the same names never give the same tree.
pub proof fn law_operation_texts_are_told_apart(
    a: Seq<char>,
    b: Seq<char>,
    infix: Infix,
    other: Infix,
)
    requires
        is_identifier(a),
        is_identifier(b),
        operation_text(a, infix, b).len() < usize::MAX,
        operation_text(a, other, b).len() < usize::MAX,
        parser::parsed_expression(operation_text(a, infix, b)) == parser::parsed_expression(
            operation_text(a, other, b),
        ),
    ensures
        infix == other,
{
    law_operation_text(operation_text(a, infix, b), a, infix, b);
    law_operation_text(operation_text(a, other, b), a, other, b);
}

// ---------------------------------------------------------------------------------------------
// Texts of one token.

proof fn lemma_single_atom(ts: Tokens, value: ExpressionModel)
    requires
        ts.len() == 1,
        !(ts[0].tok is Symbol),
        reads(grammar::atom(ts, 0), value, 0, 1, ts),
    ensures
        is_parsed_as(ts, value),
{
    law_trailers_belong_to_the_left(ts, 0, value, 1);
    law_trailers_belong_to_the_left(ts, 1, value, 1);
    law_exponent_binds(ts, 0, value, 1, value, 1);
    lemma_nothing_follows(ts, 1);
    lemma_climb(ts, 0, value, 1, 0, 10);
    lemma_whole(ts, value);
}

/// A text that is cut off as one token has no other tokens.
proof fn lemma_single_token(source: Seq<char>, tok: TokModel)
    requires
        0 < source.len() < usize::MAX,
        forall|i: int| 0 <= i < source.len() ==> #[trigger] source[i] != '\r' && source[i] != '\\',
        source[0] != ' ',
        source[0] != '#',
        source[0] != '\n',
        source[0] != '\t',
        cuts_off(source, in_first_line(0), tok, source.len() as int),
    ensures
        ({
            let lexed = lexical::lex(source);
            lexed.error is None && lexed.tokens.len() == 1 && lexed.tokens[0].tok == tok
        }),
{
    lemma_plain_lines(source);
    let begin = Cursor { at: 0, line_begins: true, nesting: 0, indents: seq![0] };
    law_indentation(source, begin, 0, 0);
    assert(lexical::cut(source, begin) == Cut::Tokens(seq![], in_first_line(0)));
    law_tokens_are_cut_off(source, source, begin);
    lemma_token_comes(source, 0, tok, source.len() as int);
    lemma_line_is_over(source);
    reveal(rest_of_line);
    let line = rest_of_line(source, 0);
    assert(Seq::<TokenModel>::empty() + line.tokens =~= line.tokens);
}

/// The text of a name is parsed as the name.
pub proof fn law_name_text(name: Seq<char>)
    requires
        is_identifier(name),
        name.len() < usize::MAX,
    ensures
        parser::parsed_expression(name) == Ok::<ExpressionModel, Seq<char>>(identifier(name)),
{
    lemma_name_is_cut(name, in_first_line(0), name);
    assert forall|i: int| 0 <= i < name.len() implies #[trigger] name[i] != '\r' && name[i]
        != '\\' by {
        assert(letter(name[i]) || figure(name[i]));
    }
    lemma_single_token(name, TokModel::Name { name });
    let ts = lexical::lex(name).tokens;
    law_atoms(ts, 0);
    lemma_single_atom(ts, identifier(name));
}

/// The decimal notation of a number is parsed as the number, if it fits.
pub proof fn law_number_text(n: nat)
    requires
        n <= i32::MAX,
        decimal(n).len() < usize::MAX,
    ensures
        parser::parsed_expression(decimal(n)) == Ok::<ExpressionModel, Seq<char>>(
            ExpressionModel::Number { value: NumberModel::Integer { value: n as i32 } },
        ),
{
    let source = decimal(n);
    law_decimal_is_read_back(n);
    assert forall|i: int| 0 <= i < source.len() implies #[trigger] source[i] != '\r' && source[i]
        != '\\' by {
        assert('0' <= source[i] <= '9');
    }
    assert('0' <= source[0] <= '9');
    law_decimal_notation_is_lexed(source, in_first_line(0), n);
    lemma_single_token(source, TokModel::Int { value: n as i32 });
    let ts = lexical::lex(source).tokens;
    law_atoms(ts, 0);
    lemma_single_atom(
        ts,
        ExpressionModel::Number { value: NumberModel::Integer { value: n as i32 } },
    );
}

/// A text between quotes that holds nothing special is parsed as the string of that text.
pub proof fn law_string_text(content: Seq<char>, quote: char)
    requires
        quote == '\'' || quote == '"',
        content.len() + 2 < usize::MAX,
        forall|i: int|
            0 <= i < content.len() ==> #[trigger] content[i] != quote && content[i] != '\\'
                && content[i] != '\n' && content[i] != '\r',
    ensures
        parser::parsed_expression(seq![quote] + content + seq![quote]) == Ok::<
            ExpressionModel,
            Seq<char>,
        >(ExpressionModel::String { value: content }),
{
    let source = seq![quote] + content + seq![quote];
    let end = source.len() - 1;
    assert forall|i: int| 1 <= i < end implies #[trigger] source[i] == content[i - 1] by {}
    assert(source[end] == quote);
    assert forall|i: int| 0 <= i < source.len() implies #[trigger] source[i] != '\r' && source[i]
        != '\\' by {
        if 1 <= i < end {
            assert(source[i] == content[i - 1]);
        }
    }
    let three = seq![quote, quote, quote];
    assert(!spells(source, 0, three)) by {
        if spells(source, 0, three) {
            assert(source[0int + 1int] == three[1]);
            assert(source[0int + 2int] == three[2]);
            if content.len() > 0 {
                assert(source[1] == content[0]);
            }
        }
    }
    let quotes = Quotes { quote, triple: false, raw: false };
    assert forall|i: int| 1 <= i < end implies #[trigger] source[i] != quotes.quote && source[i]
        != '\\' && source[i] != '\n' by {
        assert(source[i] == content[i - 1]);
    }
    law_plain_strings(source, 1, quotes, end);
    assert(source.subrange(1, end) =~= content);
    law_strings(source, in_first_line(0));
    lemma_single_token(source, TokModel::String { value: content });
    let ts = lexical::lex(source).tokens;
    law_strings_are_joined(ts, 0, content);
    lemma_single_atom(ts, ExpressionModel::String { value: content });
}

} // verus!
