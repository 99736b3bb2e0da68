//! One turn of an interactive session: the tokens of one line of input.

use vstd::prelude::*;
use crate::error::{report_views, IcyError};
use crate::lexer::lexer::Lexer;
use crate::lexer::stream::{
    is_stream, lemma_reported_range_extends, lemma_token_of_stream, lemma_tokens_from_is_stream,
    line_end, position_after, reported_range, token_of, tokens,
};
use crate::token::token::{token_views, Token, TokenView};
use crate::token::token_kind::TokenKind;

verus! {

/// What a session shows of a line of input: its tokens up to and including
/// the first newline, or up to the end of input, which is not shown.
pub open spec fn shown_tokens(toks: Seq<TokenView>) -> Seq<TokenView> {
    let end = line_end(toks, 0);
    if token_of(toks, end).kind is Eof {
        toks.take(end)
    } else {
        toks.take(end + 1)
    }
}

/// Whether a line of input ends the session: it does where the input ends
/// before a newline comes.
pub open spec fn ends_session(toks: Seq<TokenView>) -> bool {
    token_of(toks, line_end(toks, 0)).kind is Eof
}

/// The outcome of scanning one line of input.
pub struct LineScan {
    /// The tokens to show, in order.
    pub tokens: Vec<Token>,
    /// The reports that scanning them caused, in order.
    pub errors: Vec<IcyError>,
    /// Whether the session is over.
    pub exit: bool,
}

/// Scans one line of input for an interactive session.
pub fn scan_line(line: &str) -> (scan: LineScan)
    requires
        line@.len() < usize::MAX,
    ensures
        token_views(scan.tokens@) == shown_tokens(tokens(line@)),
        scan.exit == ends_session(tokens(line@)),
        report_views(scan.errors@) == reported_range(
            tokens(line@),
            0,
            line_end(tokens(line@), 0) + 1,
        ),
{
    let ghost src = line@;
    let ghost toks = tokens(src);
    let mut lexer = Lexer::new(line);
    let mut shown: Vec<Token> = Vec::new();
    let mut exit = false;
    proof {
        lemma_tokens_from_is_stream(src, 0);
        lemma_token_of_stream(src, 0, 0);
        lemma_reported_range_extends(toks, 0, 0);
    }
    let mut token = lexer.next();
    loop
        invariant_except_break
            !exit,
            token@ == token_of(toks, shown@.len() as int),
            lexer.position() == position_after(src, 0, shown@.len() as int + 1),
            token_views(shown@) == toks.take(shown@.len() as int),
            shown@.len() < toks.len(),
            line_end(toks, shown@.len() as int) == line_end(toks, 0),
            lexer.reports() == reported_range(toks, 0, shown@.len() as int + 1),
        invariant
            lexer.wf(),
            lexer.source() == src,
            toks == tokens(src),
            is_stream(toks),
        ensures
            token_views(shown@) == shown_tokens(toks),
            exit == ends_session(toks),
            lexer.reports() == reported_range(toks, 0, line_end(toks, 0) + 1),
        decreases toks.len() - shown@.len(),
    {
        let ghost n = shown@.len() as int;
        if matches!(token.kind, TokenKind::Eof) {
            exit = true;
            break ;
        }
        let newline = matches!(token.kind, TokenKind::Newline);
        shown.push(token);
        if newline {
            break ;
        }
        proof {
            lemma_token_of_stream(src, 0, n + 1);
        }
        token = lexer.next();
    }
    LineScan { tokens: shown, errors: lexer.into_errors(), exit }
}

} // verus!
