//! The recursive-descent parser: a window of two tokens over a scanner.

use vstd::prelude::*;
use vstd::string::*;
use crate::ast::ast::{Identifier, Program, Statement};
use crate::error::{report_views, IcyError, IcyErrorView};
use crate::lexer::lexer::Lexer;
use crate::lexer::scan::reported;
use crate::lexer::stream::{
    is_stream, lemma_reported_range_extends, lemma_reported_range_joins, lemma_token_of_stream,
    lemma_tokens_from_is_stream, line_end, position_after, reported_range, token_of, tokens_from,
};
use crate::token::token::{Token, TokenView};
use crate::token::token_kind::TokenKind;
use super::grammar::{
    expectation_message, lemma_statement_advances, parse_from, statement_at, var_statement,
};

verus! {

/// The texts of a list of diagnostics, in order.
pub open spec fn message_views(errors: Seq<String>) -> Seq<Seq<char>> {
    Seq::new(errors.len(), |i: int| errors[i]@)
}

/// A parser over the tokens of a scanner.
pub struct Parser<'a> {
    lexer: Lexer<'a>,
    current_token: Token,
    peek_token: Token,
    /// The diagnostics, in source order.
    pub errors: Vec<String>,
    /// Where the scanner stood when the parser was made.
    origin: Ghost<int>,
    /// How many tokens the window has moved over.
    index: Ghost<int>,
}

impl<'a> Parser<'a> {
    /// The tokens that the parser reads: those of its scanner, from where the
    /// scanner stood when the parser was made.
    pub closed spec fn stream(&self) -> Seq<TokenView> {
        tokens_from(self.lexer.source(), self.origin@)
    }

    /// The index in the stream of the current token.
    pub closed spec fn cursor(&self) -> int {
        self.index@
    }

    /// The token at which the parser stands.
    pub closed spec fn current(&self) -> TokenView {
        self.current_token@
    }

    /// The token after the current one.
    pub closed spec fn lookahead(&self) -> TokenView {
        self.peek_token@
    }

    /// The diagnostics so far, in source order.
    pub closed spec fn messages(&self) -> Seq<Seq<char>> {
        message_views(self.errors@)
    }

    /// What the scanner has reported so far.
    pub closed spec fn lexical_reports(&self) -> Seq<IcyErrorView> {
        self.lexer.reports()
    }

    /// The window holds the current token of the stream and the one after
    /// it, and the scanner stands behind them.
    pub closed spec fn wf(&self) -> bool {
        &&& self.lexer.wf()
        &&& 0 <= self.origin@ <= self.lexer.source().len()
        &&& 0 <= self.index@
        &&& self.current_token@ == token_of(self.stream(), self.index@)
        &&& self.peek_token@ == token_of(self.stream(), self.index@ + 1)
        &&& self.lexer.position() == position_after(
            self.lexer.source(),
            self.origin@,
            self.index@ + 2,
        )
    }

    /// A parser over what `lexer` has left to scan. The first two tokens are
    /// pulled at once.
    pub fn new(lexer: Lexer<'a>) -> (parser: Self)
        requires
            lexer.wf(),
        ensures
            parser.wf(),
            parser.stream() == tokens_from(lexer.source(), lexer.position()),
            parser.cursor() == 0,
            parser.current() == token_of(parser.stream(), 0),
            parser.lookahead() == token_of(parser.stream(), 1),
            parser.messages() == Seq::<Seq<char>>::empty(),
            parser.lexical_reports() == lexer.reports() + reported_range(parser.stream(), 0, 2),
    {
        let ghost src = lexer.source();
        let ghost origin = lexer.position();
        let mut lexer = lexer;
        proof {
            lexer.lemma_position_in_source();
        }
        let current_token = lexer.next();
        let peek_token = lexer.next();
        let parser_inst = Self {
            lexer,
            current_token,
            peek_token,
            errors: Vec::new(),
            origin: Ghost(origin),
            index: Ghost(0),
        };
        proof {
            let toks = tokens_from(src, origin);
            lemma_token_of_stream(src, origin, 0);
            lemma_token_of_stream(src, origin, 1);
            assert(reported_range(toks, 0, 0) =~= Seq::<IcyErrorView>::empty());
            assert(reported_range(toks, 0, 1) =~= reported(token_of(toks, 0)));
        }
        parser_inst
    }

    /// The diagnostics so far, in source order: what the field `errors` holds.
    pub fn diagnostics(&self) -> (errors: &Vec<String>)
        ensures
            message_views(errors@) == self.messages(),
    {
        &self.errors
    }

    /// What the scanner has reported so far, oldest first.
    pub fn lexical_errors(&self) -> (errors: &Vec<IcyError>)
        ensures
            report_views(errors@) == self.lexical_reports(),
    {
        self.lexer.errors()
    }

    /// Parses the stream to its end. Diagnostics are collected and never stop
    /// the parse.
    pub fn parse(&mut self) -> (program: Program)
        requires
            old(self).wf(),
        ensures
            final(self).wf(),
            final(self).stream() == old(self).stream(),
            program@ == parse_from(old(self).stream(), old(self).cursor()).statements,
            final(self).messages() == old(self).messages() + parse_from(
                old(self).stream(),
                old(self).cursor(),
            ).errors,
            final(self).cursor() == parse_from(old(self).stream(), old(self).cursor()).cursor,
            final(self).current() == token_of(final(self).stream(), final(self).cursor()),
            final(self).current().kind is Eof,
            final(self).lexical_reports() == old(self).lexical_reports() + reported_range(
                old(self).stream(),
                old(self).cursor() + 2,
                final(self).cursor() + 2,
            ),
    {
        let mut program = Program::new();
        let ghost toks = self.stream();
        let ghost first = self.cursor();
        let ghost goal = parse_from(toks, first);
        proof {
            self.lemma_stream_is_stream();
        }
        loop
            invariant
                self.wf(),
                self.stream() == toks,
                is_stream(toks),
                first <= self.cursor(),
                goal == parse_from(toks, first),
                program@ + parse_from(toks, self.cursor()).statements == goal.statements,
                self.messages() + parse_from(toks, self.cursor()).errors == old(self).messages()
                    + goal.errors,
                parse_from(toks, self.cursor()).cursor == goal.cursor,
                self.lexical_reports() == old(self).lexical_reports() + reported_range(
                    toks,
                    first + 2,
                    self.cursor() + 2,
                ),
            ensures
                self.wf(),
                self.stream() == toks,
                program@ == goal.statements,
                self.messages() == old(self).messages() + goal.errors,
                self.cursor() == goal.cursor,
                token_of(toks, self.cursor()).kind is Eof,
                self.lexical_reports() == old(self).lexical_reports() + reported_range(
                    toks,
                    first + 2,
                    self.cursor() + 2,
                ),
            decreases toks.len() - self.cursor(),
        {
            let ghost at = self.cursor();
            if !matches!(self.current_token.kind, TokenKind::Eof) {
                proof {
                    lemma_statement_advances(toks, at);
                }
                if let Some(s) = self.parse_statement() {
                    program.statements.push(s);
                }
                proof {
                    lemma_reported_range_joins(
                        toks,
                        first + 2,
                        at + 2,
                        statement_at(toks, at).cursor + 2,
                    );
                }
                self.next();
            } else {
                break ;
            }
        }
        program
    }

    /// Moves the window one token forward.
    fn next(&mut self)
        requires
            old(self).wf(),
        ensures
            final(self).wf(),
            final(self).stream() == old(self).stream(),
            final(self).cursor() == old(self).cursor() + 1,
            final(self).errors == old(self).errors,
            final(self).lexical_reports() == old(self).lexical_reports() + reported(
                token_of(old(self).stream(), old(self).cursor() + 2),
            ),
    {
        proof {
            lemma_token_of_stream(self.lexer.source(), self.origin@, self.index@ + 2);
        }
        let mut token = self.lexer.next();
        core::mem::swap(&mut self.peek_token, &mut token);
        self.current_token = token;
        self.index = Ghost(self.index@ + 1);
    }

    /// Parses the statement that starts at the current token, if one does.
    fn parse_statement(&mut self) -> (statement: Option<Statement>)
        requires
            old(self).wf(),
            is_stream(old(self).stream()),
        ensures
            final(self).wf(),
            final(self).stream() == old(self).stream(),
            final(self).cursor() == statement_at(old(self).stream(), old(self).cursor()).cursor,
            final(self).messages() == old(self).messages() + statement_at(
                old(self).stream(),
                old(self).cursor(),
            ).errors,
            match statement {
                Some(s) => statement_at(old(self).stream(), old(self).cursor()).statement == Some(
                    s@,
                ),
                None => statement_at(old(self).stream(), old(self).cursor()).statement is None,
            },
            final(self).lexical_reports() == old(self).lexical_reports() + reported_range(
                old(self).stream(),
                old(self).cursor() + 2,
                final(self).cursor() + 2,
            ),
    {
        match self.current_token.kind {
            TokenKind::Var => self.parse_var_statement(),
            _ => None,
        }
    }

    /// Parses `var IDENT = ...` with `var` as the current token, and skips
    /// what is left of the line.
    fn parse_var_statement(&mut self) -> (statement: Option<Statement>)
        requires
            old(self).wf(),
            is_stream(old(self).stream()),
        ensures
            final(self).wf(),
            final(self).stream() == old(self).stream(),
            final(self).cursor() == var_statement(old(self).stream(), old(self).cursor()).cursor,
            final(self).messages() == old(self).messages() + var_statement(
                old(self).stream(),
                old(self).cursor(),
            ).errors,
            match statement {
                Some(s) => var_statement(old(self).stream(), old(self).cursor()).statement == Some(
                    s@,
                ),
                None => var_statement(old(self).stream(), old(self).cursor()).statement is None,
            },
            final(self).lexical_reports() == old(self).lexical_reports() + reported_range(
                old(self).stream(),
                old(self).cursor() + 2,
                final(self).cursor() + 2,
            ),
    {
        let ghost toks = self.stream();
        let ghost first = self.cursor();
        match self.peek_token.kind {
            TokenKind::Ident(_) => self.next(),
            _ => {
                self.peek_error(TokenKind::Ident(String::new()));
                return None;
            },
        }
        proof {
            lemma_reported_range_extends(toks, first + 2, first + 2);
        }

        let ident = Identifier(self.current_token.literal.clone());

        match self.peek_token.kind {
            TokenKind::Equals => self.next(),
            _ => {
                self.peek_error(TokenKind::Equals);
                return None;
            },
        }

        loop
            invariant
                self.wf(),
                self.stream() == toks,
                is_stream(toks),
                self.errors == old(self).errors,
                first + 2 <= self.cursor(),
                line_end(toks, self.cursor()) == line_end(toks, first + 2),
                self.lexical_reports() == old(self).lexical_reports() + reported_range(
                    toks,
                    first + 2,
                    self.cursor() + 2,
                ),
            ensures
                self.wf(),
                self.stream() == toks,
                self.errors == old(self).errors,
                self.cursor() == line_end(toks, first + 2),
                self.lexical_reports() == old(self).lexical_reports() + reported_range(
                    toks,
                    first + 2,
                    self.cursor() + 2,
                ),
            decreases toks.len() - self.cursor(),
        {
            if !matches!(self.current_token.kind, TokenKind::Newline | TokenKind::Eof) {
                self.next();
            } else {
                break ;
            }
        }

        Some(Statement::Var(ident, None))
    }

    /// Records that the token after the current one is not of the category
    /// `kind`.
    fn peek_error(&mut self, kind: TokenKind)
        requires
            old(self).wf(),
        ensures
            final(self).wf(),
            final(self).stream() == old(self).stream(),
            final(self).cursor() == old(self).cursor(),
            final(self).lexical_reports() == old(self).lexical_reports(),
            final(self).messages() == old(self).messages() + seq![
                expectation_message(
                    kind@,
                    token_of(old(self).stream(), old(self).cursor() + 1).kind,
                ),
            ],
    {
        let mut message = String::from_str("expected next token to be ");
        message.append(kind.name());
        message.append(", but found ");
        message.append(self.peek_token.kind.name());
        self.errors.push(message);
    }

    /// The tokens that the parser reads form a stream.
    pub proof fn lemma_stream_is_stream(&self)
        requires
            self.wf(),
        ensures
            is_stream(self.stream()),
    {
        lemma_tokens_from_is_stream(self.lexer.source(), self.origin@);
    }
}

} // verus!
