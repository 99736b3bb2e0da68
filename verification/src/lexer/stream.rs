//! The sequence of tokens that a text holds, and the positions at which a
//! scanner stands while it yields them.

use vstd::prelude::*;
use crate::error::IcyErrorView;
use crate::token::token::TokenView;
use super::scan::{lemma_lexeme_bounds, lexeme_at, next_pos, reported, token_at};

verus! {

/// The tokens that scanning yields from `pos` on, up to and including the
/// first `Eof`.
pub open spec fn tokens_from(src: Seq<char>, pos: int) -> Seq<TokenView>
    decreases src.len() - pos,
{
    if lexeme_at(src, pos).kind is Eof || !(0 <= pos <= src.len()) {
        seq![token_at(src, pos)]
    } else {
        proof {
            lemma_lexeme_bounds(src, pos);
        }
        seq![token_at(src, pos)] + tokens_from(src, next_pos(src, pos))
    }
}

/// All the tokens of a text.
pub open spec fn tokens(src: Seq<char>) -> Seq<TokenView> {
    tokens_from(src, 0)
}

/// The token that the `i`-th pull from a stream yields: once the stream is
/// used up, its last token comes again and again.
pub open spec fn token_of(toks: Seq<TokenView>, i: int) -> TokenView {
    if i < toks.len() {
        toks[i]
    } else {
        toks.last()
    }
}

/// Where a scanner stands after `n` tokens, having started at `pos`.
pub open spec fn position_after(src: Seq<char>, pos: int, n: int) -> int
    decreases n,
{
    if n <= 0 {
        pos
    } else {
        next_pos(src, position_after(src, pos, n - 1))
    }
}

/// The reports that the pulls `from..to` of a stream cause, in order.
pub open spec fn reported_range(toks: Seq<TokenView>, from: int, to: int) -> Seq<IcyErrorView>
    decreases to - from,
{
    if to <= from {
        seq![]
    } else {
        reported_range(toks, from, to - 1) + reported(token_of(toks, to - 1))
    }
}

/// The index of the first token at or after `i` that ends a line: a newline
/// or the end of input.
pub open spec fn line_end(toks: Seq<TokenView>, i: int) -> int
    decreases toks.len() - i,
{
    if i + 1 >= toks.len() || token_of(toks, i).kind is Newline || token_of(toks, i).kind is Eof {
        i
    } else {
        line_end(toks, i + 1)
    }
}

/// A stream is a run of tokens other than `Eof`, closed by one `Eof`.
pub open spec fn is_stream(toks: Seq<TokenView>) -> bool {
    &&& toks.len() > 0
    &&& toks.last().kind is Eof
    &&& forall|i: int| 0 <= i < toks.len() - 1 ==> !((#[trigger] toks[i]).kind is Eof)
}

/// The tokens of a text form a stream.
pub proof fn lemma_tokens_from_is_stream(src: Seq<char>, pos: int)
    requires
        0 <= pos <= src.len(),
    ensures
        is_stream(tokens_from(src, pos)),
        tokens_from(src, pos)[0] == token_at(src, pos),
    decreases src.len() - pos,
{
    lemma_lexeme_bounds(src, pos);
    if !(lexeme_at(src, pos).kind is Eof) {
        lemma_tokens_from_is_stream(src, next_pos(src, pos));
    }
}

/// Yielding one token and then `n` more is yielding `n + 1`.
pub proof fn lemma_position_after_shift(src: Seq<char>, pos: int, n: int)
    requires
        0 <= n,
    ensures
        position_after(src, pos, n + 1) == position_after(src, next_pos(src, pos), n),
    decreases n,
{
    if n > 0 {
        lemma_position_after_shift(src, pos, n - 1);
    } else {
        assert(position_after(src, pos, 1) == next_pos(src, position_after(src, pos, 0)));
    }
}

/// The `n`-th pull of a scanner that started at `pos` yields the `n`-th
/// token of the stream from `pos`.
pub proof fn lemma_token_of_stream(src: Seq<char>, pos: int, n: int)
    requires
        0 <= pos <= src.len(),
        0 <= n,
    ensures
        token_at(src, position_after(src, pos, n)) == token_of(tokens_from(src, pos), n),
    decreases n,
{
    if n > 0 {
        lemma_lexeme_bounds(src, pos);
        lemma_position_after_shift(src, pos, n - 1);
        lemma_token_of_stream(src, next_pos(src, pos), n - 1);
    }
}

/// The end of a line lies at or after the token from which it is sought.
pub proof fn lemma_line_end_bounds(toks: Seq<TokenView>, i: int)
    ensures
        i <= line_end(toks, i),
        line_end(toks, i) == i || line_end(toks, i) < toks.len(),
    decreases toks.len() - i,
{
    if !(i + 1 >= toks.len() || token_of(toks, i).kind is Newline || token_of(toks, i).kind is Eof) {
        lemma_line_end_bounds(toks, i + 1);
    }
}

/// The reports of the pulls `from..to + 1` are those of `from..to` and then
/// that of pull `to`.
pub proof fn lemma_reported_range_extends(toks: Seq<TokenView>, from: int, to: int)
    requires
        from <= to,
    ensures
        reported_range(toks, from, to + 1) == reported_range(toks, from, to) + reported(
            token_of(toks, to),
        ),
{
}

/// The reports of the pulls `from..mid` and then those of `mid..to` are the
/// reports of `from..to`.
pub proof fn lemma_reported_range_joins(toks: Seq<TokenView>, from: int, mid: int, to: int)
    requires
        from <= mid <= to,
    ensures
        reported_range(toks, from, mid) + reported_range(toks, mid, to) == reported_range(
            toks,
            from,
            to,
        ),
    decreases to - mid,
{
    if mid == to {
    } else {
        lemma_reported_range_joins(toks, from, mid, to - 1);
    }
}

} // verus!
