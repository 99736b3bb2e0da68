//! The model of scanning: which token starts at a position of the source,
//! where it ends, and the sequence of tokens that a text holds.

use vstd::prelude::*;
use crate::error::IcyErrorView;
use crate::token::token::{word_kind, TokenView};
use crate::token::token_kind::Kind;
use super::chars::{is_blank, is_numeric_char, is_word_char};
use super::number::decimal_of;

verus! {

/// The classes of characters that the scanner consumes in runs.
pub ghost enum CharClass {
    Blank,
    Word,
    Numeric,
}

pub open spec fn in_class(class: CharClass, c: char) -> bool {
    match class {
        CharClass::Blank => is_blank(c),
        CharClass::Word => is_word_char(c),
        CharClass::Numeric => is_numeric_char(c),
    }
}

/// The end of the longest run of characters of `class` that starts at `pos`.
pub open spec fn run_end(src: Seq<char>, class: CharClass, pos: int) -> int
    decreases src.len() - pos,
{
    if 0 <= pos < src.len() && in_class(class, src[pos]) {
        run_end(src, class, pos + 1)
    } else {
        pos
    }
}

/// The category of a character that is a token by itself, whatever follows.
pub open spec fn symbol_kind(c: char) -> Option<Kind> {
    match c {
        '\n' => Some(Kind::Newline),
        '(' => Some(Kind::LParen),
        ')' => Some(Kind::RParen),
        '{' => Some(Kind::LBrace),
        '}' => Some(Kind::RBrace),
        '<' => Some(Kind::LAngle),
        '>' => Some(Kind::RAngle),
        '[' => Some(Kind::LBracket),
        ']' => Some(Kind::RBracket),
        ',' => Some(Kind::Comma),
        ';' => Some(Kind::SemiColon),
        '+' => Some(Kind::Plus),
        '-' => Some(Kind::Minus),
        '*' => Some(Kind::Asterisk),
        '/' => Some(Kind::Slash),
        '?' => Some(Kind::QMark),
        _ => None,
    }
}

/// For a character that joins with a following `=`: the category of the
/// pair, then the category of the character alone.
pub open spec fn compound_kinds(c: char) -> Option<(Kind, Kind)> {
    match c {
        ':' => Some((Kind::Infer, Kind::Colon)),
        '=' => Some((Kind::EqualsEquals, Kind::Equals)),
        '!' => Some((Kind::BangEquals, Kind::Bang)),
        _ => None,
    }
}

/// The category of a run of numeric characters: the integer it writes in
/// decimal, or `Illegal` where it writes none that fits 64 bits.
pub open spec fn number_kind(digits: Seq<char>) -> Kind {
    match decimal_of(digits) {
        Some(value) => Kind::Int(value),
        None => Kind::Illegal,
    }
}

/// A token's category and the span `start..end` of the source that it covers.
pub ghost struct Lexeme {
    pub kind: Kind,
    pub start: int,
    pub end: int,
}

/// The lexeme that a scan from `pos` finds: blanks are skipped, then the
/// first character decides.
pub open spec fn lexeme_at(src: Seq<char>, pos: int) -> Lexeme {
    let start = run_end(src, CharClass::Blank, pos);
    if start >= src.len() {
        Lexeme { kind: Kind::Eof, start, end: start }
    } else {
        let c = src[start];
        if let Some(kind) = symbol_kind(c) {
            Lexeme { kind, start, end: start + 1 }
        } else if let Some((joined, alone)) = compound_kinds(c) {
            if start + 1 < src.len() && src[start + 1] == '=' {
                Lexeme { kind: joined, start, end: start + 2 }
            } else {
                Lexeme { kind: alone, start, end: start + 1 }
            }
        } else if is_word_char(c) {
            let end = run_end(src, CharClass::Word, start);
            Lexeme { kind: word_kind(src.subrange(start, end)), start, end }
        } else if is_numeric_char(c) {
            let end = run_end(src, CharClass::Numeric, start);
            Lexeme { kind: number_kind(src.subrange(start, end)), start, end }
        } else {
            Lexeme { kind: Kind::Illegal, start, end: start + 1 }
        }
    }
}

/// How many newline characters stand before `pos`.
pub open spec fn newlines_before(src: Seq<char>, pos: int) -> nat
    decreases pos,
{
    if pos <= 0 || pos > src.len() {
        0
    } else {
        newlines_before(src, pos - 1) + if src[pos - 1] == '\n' {
            1nat
        } else {
            0nat
        }
    }
}

/// The 1-based line on which position `pos` lies.
pub open spec fn line_at(src: Seq<char>, pos: int) -> nat {
    1 + newlines_before(src, pos)
}

/// The token that a scan from `pos` yields: its category, the exact text it
/// covers, and the line of its first character.
pub open spec fn token_at(src: Seq<char>, pos: int) -> TokenView {
    let lexeme = lexeme_at(src, pos);
    TokenView {
        kind: lexeme.kind,
        literal: src.subrange(lexeme.start, lexeme.end),
        line: line_at(src, lexeme.start),
    }
}

/// Where the scan stands after the token that starts at `pos`.
pub open spec fn next_pos(src: Seq<char>, pos: int) -> int {
    lexeme_at(src, pos).end
}

/// What the scanner says of an `Illegal` token.
pub open spec fn illegal_message(literal: Seq<char>) -> Seq<char> {
    if literal.len() > 0 && is_numeric_char(literal[0]) {
        "Invalid number"@
    } else {
        "Unexpected character"@
    }
}

/// The reports that a token causes: one for an `Illegal` token, on its line,
/// and none for any other.
pub open spec fn reported(token: TokenView) -> Seq<IcyErrorView> {
    if token.kind is Illegal {
        seq![IcyErrorView { line: token.line, message: illegal_message(token.literal) }]
    } else {
        seq![]
    }
}

/// A run ends at or after its start and within the text, holds only
/// characters of its class, and cannot be extended.
pub proof fn lemma_run_end(src: Seq<char>, class: CharClass, pos: int)
    requires
        0 <= pos <= src.len(),
    ensures
        pos <= run_end(src, class, pos) <= src.len(),
        forall|i: int| pos <= i < run_end(src, class, pos) ==> in_class(class, #[trigger] src[i]),
        run_end(src, class, pos) < src.len() ==> !in_class(
            class,
            src[run_end(src, class, pos)],
        ),
    decreases src.len() - pos,
{
    if pos < src.len() && in_class(class, src[pos]) {
        lemma_run_end(src, class, pos + 1);
    }
}

/// A run that starts inside another run of the same class ends where that
/// one ends.
pub proof fn lemma_run_end_from_inside(src: Seq<char>, class: CharClass, pos: int, mid: int)
    requires
        0 <= pos <= mid <= run_end(src, class, pos),
        pos <= src.len(),
    ensures
        run_end(src, class, mid) == run_end(src, class, pos),
    decreases mid - pos,
{
    if pos < mid {
        lemma_run_end_from_inside(src, class, pos + 1, mid);
    }
}

/// A lexeme lies within the text, starts at or after the scan's position,
/// and is empty only at the end of input.
pub proof fn lemma_lexeme_bounds(src: Seq<char>, pos: int)
    requires
        0 <= pos <= src.len(),
    ensures
        pos <= lexeme_at(src, pos).start <= lexeme_at(src, pos).end <= src.len(),
        lexeme_at(src, pos).kind is Eof <==> lexeme_at(src, pos).start == src.len(),
        !(lexeme_at(src, pos).kind is Eof) ==> lexeme_at(src, pos).start < lexeme_at(src, pos).end,
        lexeme_at(src, pos).kind is Eof ==> lexeme_at(src, pos).end == src.len(),
{
    lemma_run_end(src, CharClass::Blank, pos);
    let start = run_end(src, CharClass::Blank, pos);
    if start < src.len() {
        let c = src[start];
        if symbol_kind(c) is None && compound_kinds(c) is None {
            if is_word_char(c) {
                lemma_run_end(src, CharClass::Word, start + 1);
            } else if is_numeric_char(c) {
                lemma_run_end(src, CharClass::Numeric, start + 1);
            }
        }
    }
}

/// There are no more newlines before a position than characters.
pub proof fn lemma_newlines_bounded(src: Seq<char>, pos: int)
    requires
        0 <= pos <= src.len(),
    ensures
        newlines_before(src, pos) <= pos,
    decreases pos,
{
    if pos > 0 {
        lemma_newlines_bounded(src, pos - 1);
    }
}

} // verus!
