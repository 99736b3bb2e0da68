//! What holds of scanning, whatever the text.

use vstd::prelude::*;
use crate::token::token::{keyword_of, word_kind, TokenView};
use crate::token::token_kind::Kind;
use super::chars::{is_ascii_digit, is_word_char};
use super::lexer::Lexer;
use super::number::{all_digits, decimal_of, decimal_value, lemma_decimal_value_nonnegative};
use super::scan::{
    compound_kinds, lemma_lexeme_bounds, lemma_run_end, lexeme_at, line_at, newlines_before,
    next_pos, reported, run_end, symbol_kind, token_at, CharClass,
};
use super::stream::{lemma_token_of_stream, position_after, token_of, tokens, tokens_from};

verus! {

/// The character at `i` is a token by itself: a delimiter or a one-character
/// operator, or one of `:`, `=`, `!` with no `=` behind it.
pub open spec fn stands_alone(src: Seq<char>, i: int) -> bool {
    ||| symbol_kind(src[i]) is Some
    ||| (compound_kinds(src[i]) is Some && !(i + 1 < src.len() && src[i + 1] == '='))
}

/// The category of a character that stands alone.
pub open spec fn alone_kind(c: char) -> Kind {
    match symbol_kind(c) {
        Some(kind) => kind,
        None => match compound_kinds(c) {
            Some((_, alone)) => alone,
            None => Kind::Illegal,
        },
    }
}

/// The category of a character together with the `=` behind it.
pub open spec fn joined_kind(c: char) -> Kind {
    match compound_kinds(c) {
        Some((joined, _)) => joined,
        None => Kind::Illegal,
    }
}

/// The token of the single character at `i`.
pub open spec fn alone_token(src: Seq<char>, i: int) -> TokenView {
    TokenView { kind: alone_kind(src[i]), literal: seq![src[i]], line: line_at(src, i) }
}

/// The token that ends a text.
pub open spec fn end_token(src: Seq<char>) -> TokenView {
    TokenView { kind: Kind::Eof, literal: seq![], line: line_at(src, src.len() as int) }
}

/// How many of the first `n` tokens are newlines.
pub open spec fn newline_tokens(toks: Seq<TokenView>, n: int) -> nat
    decreases n,
{
    if n <= 0 || n > toks.len() {
        0
    } else {
        newline_tokens(toks, n - 1) + if toks[n - 1].kind is Newline {
            1nat
        } else {
            0nat
        }
    }
}

/// Where no newline stands between two positions, both lie on one line.
proof fn lemma_same_line(src: Seq<char>, from: int, to: int)
    requires
        0 <= from <= to <= src.len(),
        forall|i: int| from <= i < to ==> src[i] != '\n',
    ensures
        newlines_before(src, to) == newlines_before(src, from),
    decreases to - from,
{
    if from < to {
        lemma_same_line(src, from, to - 1);
    }
}

/// A token starts on the line of the position from which it was scanned, and
/// the line after it is one further exactly when the token is a newline.
proof fn lemma_line_steps(src: Seq<char>, pos: int)
    requires
        0 <= pos <= src.len(),
    ensures
        line_at(src, lexeme_at(src, pos).start) == line_at(src, pos),
        line_at(src, next_pos(src, pos)) == line_at(src, pos) + if lexeme_at(src, pos).kind
            is Newline {
            1nat
        } else {
            0nat
        },
{
    let lexeme = lexeme_at(src, pos);
    let start = lexeme.start;
    lemma_run_end(src, CharClass::Blank, pos);
    lemma_same_line(src, pos, start);
    if start < src.len() {
        let c = src[start];
        lemma_run_end(src, CharClass::Word, start);
        lemma_run_end(src, CharClass::Numeric, start);
        if symbol_kind(c) is None {
            lemma_same_line(src, start, lexeme.end);
        }
    }
}

/// The newlines among the first `n + 1` tokens are the first token, if it is
/// one, and those among the `n` tokens after it.
proof fn lemma_newline_tokens_shift(first: TokenView, rest: Seq<TokenView>, n: int)
    requires
        0 <= n <= rest.len(),
    ensures
        newline_tokens(seq![first] + rest, n + 1) == newline_tokens(rest, n) + if first.kind
            is Newline {
            1nat
        } else {
            0nat
        },
    decreases n,
{
    let all = seq![first] + rest;
    if n > 0 {
        lemma_newline_tokens_shift(first, rest, n - 1);
    } else {
        assert(newline_tokens(all, 0) == 0);
    }
}

/// The count of newlines among the first tokens grows with their number.
proof fn lemma_newline_tokens_grow(toks: Seq<TokenView>, i: int, j: int)
    requires
        0 <= i <= j <= toks.len(),
    ensures
        newline_tokens(toks, i) <= newline_tokens(toks, j),
    decreases j - i,
{
    if i < j {
        lemma_newline_tokens_grow(toks, i, j - 1);
    }
}

/// Line tracking: a token's line is the line on which scanning began plus
/// the number of newline tokens that came before it.
pub proof fn law_line_counts_newlines(src: Seq<char>, pos: int, k: int)
    requires
        0 <= pos <= src.len(),
        0 <= k < tokens_from(src, pos).len(),
    ensures
        tokens_from(src, pos)[k].line == line_at(src, pos) + newline_tokens(
            tokens_from(src, pos),
            k,
        ),
    decreases k,
{
    lemma_line_steps(src, pos);
    lemma_lexeme_bounds(src, pos);
    if k > 0 {
        let rest = tokens_from(src, next_pos(src, pos));
        let all = tokens_from(src, pos);
        law_line_counts_newlines(src, next_pos(src, pos), k - 1);
        lemma_newline_tokens_shift(token_at(src, pos), rest, k - 1);
    }
}

/// Line tracking: the first token of a text is on line 1 where no newline
/// comes before it, and a token is never followed by one on an earlier line.
pub proof fn law_lines_never_decrease(src: Seq<char>, i: int, j: int)
    requires
        0 <= i <= j < tokens(src).len(),
    ensures
        tokens(src)[i].line == 1 + newline_tokens(tokens(src), i),
        tokens(src)[i].line <= tokens(src)[j].line,
{
    law_line_counts_newlines(src, 0, i);
    law_line_counts_newlines(src, 0, j);
    lemma_newline_tokens_grow(tokens(src), i, j);
}

/// Of a text from `pos` on in which every character stands alone, the tokens
/// are those characters one by one, and then the end of input.
proof fn lemma_alone_tokens_from(src: Seq<char>, pos: int)
    requires
        0 <= pos <= src.len(),
        forall|i: int| pos <= i < src.len() ==> stands_alone(src, i),
    ensures
        tokens_from(src, pos).len() == src.len() - pos + 1,
        forall|k: int|
            0 <= k < src.len() - pos ==> #[trigger] tokens_from(src, pos)[k] == alone_token(
                src,
                pos + k,
            ),
        tokens_from(src, pos).last() == end_token(src),
    decreases src.len() - pos,
{
    let all = tokens_from(src, pos);
    if pos < src.len() {
        assert(stands_alone(src, pos));
        assert(src.subrange(pos, pos + 1) =~= seq![src[pos]]);
        lemma_alone_tokens_from(src, pos + 1);
    } else {
        assert(src.subrange(pos, pos) =~= Seq::<char>::empty());
    }
}

/// Single-character tokens: a text in which every character stands alone
/// holds one token for each character, of the category of that character,
/// with that character as its literal, on the line of that character; and
/// then the end of input. Without a newline before them, all are on line 1.
pub proof fn law_single_character_tokens(src: Seq<char>)
    requires
        forall|i: int| 0 <= i < src.len() ==> stands_alone(src, i),
    ensures
        tokens(src).len() == src.len() + 1,
        forall|i: int| 0 <= i < src.len() ==> #[trigger] tokens(src)[i] == alone_token(src, i),
        tokens(src).last() == end_token(src),
        forall|i: int|
            #![trigger tokens(src)[i]]
            0 <= i < src.len() && (forall|j: int| 0 <= j < i ==> src[j] != '\n') ==> tokens(
                src,
            )[i].line == 1,
{
    lemma_alone_tokens_from(src, 0);
    assert forall|i: int|
        #![trigger tokens(src)[i]]
        0 <= i < src.len() && (forall|j: int| 0 <= j < i ==> src[j] != '\n') implies tokens(
        src,
    )[i].line == 1 by {
        lemma_same_line(src, 0, i);
    }
}

/// Compound operators: where `=` follows one of `:`, `=`, `!`, both
/// characters make one token; where it does not, the character is a token
/// alone and the scan goes on at the character behind it.
pub proof fn law_compound_operators(src: Seq<char>, pos: int)
    requires
        0 <= pos < src.len(),
        compound_kinds(src[pos]) is Some,
    ensures
        pos + 1 < src.len() && src[pos + 1] == '=' ==> {
            &&& token_at(src, pos).kind == joined_kind(src[pos])
            &&& token_at(src, pos).literal == seq![src[pos], '=']
            &&& next_pos(src, pos) == pos + 2
        },
        !(pos + 1 < src.len() && src[pos + 1] == '=') ==> {
            &&& token_at(src, pos).kind == alone_kind(src[pos])
            &&& token_at(src, pos).literal == seq![src[pos]]
            &&& next_pos(src, pos) == pos + 1
        },
        token_at(src, pos).line == line_at(src, pos),
{
}

/// Words: where a letter or `_` stands at `pos`, the token is the longest
/// run of such characters; it is the keyword that the run spells, or else an
/// identifier that carries the run.
pub proof fn law_word_token(src: Seq<char>, pos: int)
    requires
        0 <= pos < src.len(),
    ensures
        is_word_char(src[pos]) ==> {
            let end = run_end(src, CharClass::Word, pos);
            &&& pos < end <= src.len()
            &&& forall|i: int| pos <= i < end ==> is_word_char(#[trigger] src[i])
            &&& end < src.len() ==> !is_word_char(src[end])
            &&& token_at(src, pos).literal == src.subrange(pos, end)
            &&& token_at(src, pos).kind == word_kind(src.subrange(pos, end))
            &&& token_at(src, pos).line == line_at(src, pos)
            &&& next_pos(src, pos) == end
        },
{
    if is_word_char(src[pos]) {
        lemma_run_end(src, CharClass::Word, pos + 1);
    }
}

/// Keywords: each of the eight reserved words has its own category, and any
/// other word is an identifier that carries the word.
pub proof fn law_reserved_words(w: Seq<char>)
    ensures
        word_kind("func"@) == Kind::Function,
        word_kind("var"@) == Kind::Var,
        word_kind("void"@) == Kind::Void,
        word_kind("return"@) == Kind::Return,
        word_kind("true"@) == Kind::True,
        word_kind("false"@) == Kind::False,
        word_kind("if"@) == Kind::If,
        word_kind("else"@) == Kind::Else,
        w != "func"@ && w != "var"@ && w != "void"@ && w != "return"@ && w != "true"@ && w
            != "false"@ && w != "if"@ && w != "else"@ ==> word_kind(w) == Kind::Ident(w),
        word_kind(w) is Ident <==> keyword_of(w) is None,
{
    reveal_strlit("func");
    reveal_strlit("var");
    reveal_strlit("void");
    reveal_strlit("return");
    reveal_strlit("true");
    reveal_strlit("false");
    reveal_strlit("if");
    reveal_strlit("else");
    assert("return"@.len() == 6 && "true"@.len() == 4 && "false"@.len() == 5);
    assert("void"@[1] != "var"@[1]);
    assert("else"@[0] != "func"@[0]);
}

/// Integers: where a digit stands at `pos`, the token is the longest run of
/// numeric characters; where that run is made of digits and its decimal
/// value fits 64 bits, the token is the integer of that value, and otherwise
/// it is illegal.
pub proof fn law_integer_token(src: Seq<char>, pos: int)
    requires
        0 <= pos < src.len(),
    ensures
        is_ascii_digit(src[pos]) ==> {
            let end = run_end(src, CharClass::Numeric, pos);
            let digits = src.subrange(pos, end);
            &&& pos < end <= src.len()
            &&& token_at(src, pos).literal == digits
            &&& token_at(src, pos).line == line_at(src, pos)
            &&& next_pos(src, pos) == end
            &&& all_digits(digits) && decimal_value(digits) <= i64::MAX ==> token_at(
                src,
                pos,
            ).kind == Kind::Int(decimal_value(digits))
            &&& !(all_digits(digits) && decimal_value(digits) <= i64::MAX) ==> token_at(
                src,
                pos,
            ).kind == Kind::Illegal
        },
{
    if is_ascii_digit(src[pos]) {
        lemma_run_end(src, CharClass::Numeric, pos + 1);
    }
}

/// Tokens: every token but the end of input covers a non-empty slice of the
/// text, which is its literal, and is on the line of the first character of
/// that slice; the end of input has an empty literal. An identifier carries
/// its literal, and an integer the decimal value of its literal.
pub proof fn law_token_is_a_slice(src: Seq<char>, pos: int)
    requires
        0 <= pos <= src.len(),
    ensures
        pos <= lexeme_at(src, pos).start <= lexeme_at(src, pos).end <= src.len(),
        token_at(src, pos).literal == src.subrange(
            lexeme_at(src, pos).start,
            lexeme_at(src, pos).end,
        ),
        token_at(src, pos).line == line_at(src, lexeme_at(src, pos).start),
        token_at(src, pos).kind is Eof <==> token_at(src, pos).literal.len() == 0,
        token_at(src, pos).kind matches Kind::Ident(name) ==> name == token_at(src, pos).literal,
        token_at(src, pos).kind matches Kind::Int(value) ==> decimal_of(
            token_at(src, pos).literal,
        ) == Some(value) && 0 <= value <= i64::MAX,
        !(token_at(src, pos).kind is String),
{
    lemma_lexeme_bounds(src, pos);
    let start = lexeme_at(src, pos).start;
    if start < src.len() {
        let digits = src.subrange(start, run_end(src, CharClass::Numeric, start));
        if all_digits(digits) {
            lemma_decimal_value_nonnegative(digits);
        }
    }
}

/// Determinism: two scanners that hold the same text, stand at the same
/// position and have made the same reports yield the same token, and agree
/// again afterwards. The hypotheses on `first_after`, `first_token` and
/// their counterparts are what `Lexer::next` ensures.
pub proof fn law_scanning_is_deterministic(
    first: Lexer,
    first_after: Lexer,
    first_token: TokenView,
    second: Lexer,
    second_after: Lexer,
    second_token: TokenView,
)
    requires
        first.source() == second.source(),
        first.position() == second.position(),
        first.reports() == second.reports(),
        first_after.source() == first.source(),
        first_token == token_at(first.source(), first.position()),
        first_after.position() == next_pos(first.source(), first.position()),
        first_after.reports() == first.reports() + reported(first_token),
        second_after.source() == second.source(),
        second_token == token_at(second.source(), second.position()),
        second_after.position() == next_pos(second.source(), second.position()),
        second_after.reports() == second.reports() + reported(second_token),
    ensures
        first_token == second_token,
        first_after.source() == second_after.source(),
        first_after.position() == second_after.position(),
        first_after.reports() == second_after.reports(),
{
}

/// Determinism: the token that the `n`-th pull of a scanner yields is the
/// `n`-th token of the text, so the text alone decides it, and the end of
/// input comes again at every pull after the first that yields it.
pub proof fn law_pulls_follow_the_text(src: Seq<char>, n: int)
    requires
        0 <= n,
    ensures
        token_at(src, position_after(src, 0, n)) == token_of(tokens(src), n),
        n >= tokens(src).len() - 1 ==> token_of(tokens(src), n) == end_token(src),
{
    lemma_token_of_stream(src, 0, n);
    lemma_last_token(src, 0);
}

/// The last token of a text is the end of input, on the line of the text's
/// end and with nothing as its literal.
proof fn lemma_last_token(src: Seq<char>, pos: int)
    requires
        0 <= pos <= src.len(),
    ensures
        tokens_from(src, pos).last() == end_token(src),
    decreases src.len() - pos,
{
    lemma_lexeme_bounds(src, pos);
    if lexeme_at(src, pos).kind is Eof {
        assert(src.subrange(src.len() as int, src.len() as int) =~= Seq::<char>::empty());
    } else {
        lemma_last_token(src, next_pos(src, pos));
    }
}

} // verus!
