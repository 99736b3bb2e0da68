//! The tokenizer: one token per call, with line tracking and one character
//! of lookahead.

use vstd::prelude::*;
use vstd::string::*;
use crate::error::{report_views, IcyError, IcyErrorView};
use crate::token::token::{lookup_indentifier, Token, TokenView};
use crate::token::token_kind::TokenKind;
use super::chars::{is_numeric_char, is_word_char};
use super::number::parse_decimal;
use super::scan::{
    lemma_lexeme_bounds, lemma_newlines_bounded, lemma_run_end, lemma_run_end_from_inside,
    line_at, next_pos, reported, run_end, symbol_kind, token_at, CharClass,
};

verus! {

/// A scanner over a source text.
pub struct Lexer<'a> {
    /// The source code.
    source: &'a str,
    /// The number of characters of the source.
    length: usize,
    /// The position of the current character, counted in characters.
    pos: usize,
    /// The current character, or none at the end of input.
    cc: Option<char>,
    /// The line of the current character.
    line: usize,
    /// What was reported so far.
    errors: Vec<IcyError>,
}

/// The category of a character that is a token by itself.
fn symbol(c: char) -> (kind: Option<TokenKind>)
    ensures
        match kind {
            Some(k) => symbol_kind(c) == Some(k@),
            None => symbol_kind(c) is None,
        },
{
    match c {
        '\n' => Some(TokenKind::Newline),
        '(' => Some(TokenKind::LParen),
        ')' => Some(TokenKind::RParen),
        '{' => Some(TokenKind::LBrace),
        '}' => Some(TokenKind::RBrace),
        '<' => Some(TokenKind::LAngle),
        '>' => Some(TokenKind::RAngle),
        '[' => Some(TokenKind::LBracket),
        ']' => Some(TokenKind::RBracket),
        ',' => Some(TokenKind::Comma),
        ';' => Some(TokenKind::SemiColon),
        '+' => Some(TokenKind::Plus),
        '-' => Some(TokenKind::Minus),
        '*' => Some(TokenKind::Asterisk),
        '/' => Some(TokenKind::Slash),
        '?' => Some(TokenKind::QMark),
        _ => None,
    }
}

impl<'a> Lexer<'a> {
    /// The text that is scanned.
    pub closed spec fn source(&self) -> Seq<char> {
        self.source@
    }

    /// The position from which the next token is scanned.
    pub closed spec fn position(&self) -> int {
        self.pos as int
    }

    /// What was reported so far, oldest first.
    pub closed spec fn reports(&self) -> Seq<IcyErrorView> {
        report_views(self.errors@)
    }

    /// The scanner's state is consistent: it stands within the text, holds
    /// the character at its position and knows the line of that position.
    pub closed spec fn wf(&self) -> bool {
        &&& self.length == self.source@.len()
        &&& self.length < usize::MAX
        &&& self.pos <= self.length
        &&& self.cc == if self.pos < self.length {
            Some(self.source@[self.pos as int])
        } else {
            None
        }
        &&& self.line == line_at(self.source@, self.pos as int)
    }

    /// A scanner at the start of `source`. The line counter may run one past
    /// the number of characters, so that number has to stay below the
    /// largest `usize`.
    pub fn new(source: &'a str) -> (lexer: Self)
        requires
            source@.len() < usize::MAX,
        ensures
            lexer.wf(),
            lexer.source() == source@,
            lexer.position() == 0,
            lexer.reports() == Seq::<IcyErrorView>::empty(),
    {
        let length: usize = source.unicode_len();
        let cc: Option<char> = if 0 < length {
            Some(source.get_char(0))
        } else {
            None
        };
        let inst = Self { source, length, pos: 0, cc, line: 1, errors: Vec::new() };
        inst
    }

    /// A consistent scanner stands within its text.
    pub proof fn lemma_position_in_source(&self)
        requires
            self.wf(),
        ensures
            0 <= self.position() <= self.source().len(),
    {
    }

    /// The reports made so far, oldest first.
    pub fn errors(&self) -> (errors: &Vec<IcyError>)
        ensures
            report_views(errors@) == self.reports(),
    {
        &self.errors
    }

    /// Gives up the scanner for its reports, oldest first.
    pub fn into_errors(self) -> (errors: Vec<IcyError>)
        ensures
            report_views(errors@) == self.reports(),
    {
        self.errors
    }

    /// Scans the next token. At the end of input every call yields `Eof`.
    pub fn next(&mut self) -> (token: Token)
        requires
            old(self).wf(),
        ensures
            final(self).wf(),
            final(self).source() == old(self).source(),
            token@ == token_at(old(self).source(), old(self).position()),
            final(self).position() == next_pos(old(self).source(), old(self).position()),
            final(self).reports() == old(self).reports() + reported(token@),
    {
        self.ignore_whitespace();
        let line: usize = self.line;
        let start: usize = self.pos;
        let ghost src = self.source@;
        proof {
            lemma_lexeme_bounds(src, old(self).pos as int);
        }
        match self.cc {
            None => {
                proof {
                    reveal_strlit("");
                    assert(""@ =~= src.subrange(start as int, start as int));
                }
                Token::new(TokenKind::Eof, "", line)
            },
            Some(c) => {
                let char_str: &str = self.source.substring_char(start, start + 1);
                if let Some(kind) = symbol(c) {
                    self.read();
                    Token::new(kind, char_str, line)
                } else if c == ':' {
                    let token = self.peek_match(
                        '=',
                        TokenKind::Infer,
                        TokenKind::Colon,
                        ":=",
                        char_str,
                    );
                    proof {
                        reveal_strlit(":=");
                        if token@.kind is Infer {
                            assert(token@.literal =~= src.subrange(start as int, start + 2));
                        }
                    }
                    self.read();
                    token
                } else if c == '=' {
                    let token = self.peek_match(
                        '=',
                        TokenKind::EqualsEquals,
                        TokenKind::Equals,
                        "==",
                        char_str,
                    );
                    proof {
                        reveal_strlit("==");
                        if token@.kind is EqualsEquals {
                            assert(token@.literal =~= src.subrange(start as int, start + 2));
                        }
                    }
                    self.read();
                    token
                } else if c == '!' {
                    let token = self.peek_match(
                        '=',
                        TokenKind::BangEquals,
                        TokenKind::Bang,
                        "!=",
                        char_str,
                    );
                    proof {
                        reveal_strlit("!=");
                        if token@.kind is BangEquals {
                            assert(token@.literal =~= src.subrange(start as int, start + 2));
                        }
                    }
                    self.read();
                    token
                } else if self.is_alphabetic(Some(c)) {
                    while self.is_alphabetic(self.cc)
                        invariant
                            self.wf(),
                            self.source == old(self).source,
                            self.errors == old(self).errors,
                            self.source@ == src,
                            start <= self.pos,
                            start < src.len(),
                            self.pos <= run_end(src, CharClass::Word, start as int),
                        decreases self.length - self.pos,
                    {
                        proof {
                            lemma_run_end_from_inside(
                                src,
                                CharClass::Word,
                                start as int,
                                self.pos as int,
                            );
                            lemma_run_end(src, CharClass::Word, self.pos + 1);
                        }
                        self.read();
                    }
                    proof {
                        lemma_run_end_from_inside(
                            src,
                            CharClass::Word,
                            start as int,
                            self.pos as int,
                        );
                    }
                    let literal: &str = self.source.substring_char(start, self.pos);
                    Token::new(lookup_indentifier(literal), literal, line)
                } else if self.is_numeric(Some(c)) {
                    while self.is_numeric(self.cc)
                        invariant
                            self.wf(),
                            self.source == old(self).source,
                            self.errors == old(self).errors,
                            self.source@ == src,
                            start <= self.pos,
                            start < src.len(),
                            self.pos <= run_end(src, CharClass::Numeric, start as int),
                        decreases self.length - self.pos,
                    {
                        proof {
                            lemma_run_end_from_inside(
                                src,
                                CharClass::Numeric,
                                start as int,
                                self.pos as int,
                            );
                            lemma_run_end(src, CharClass::Numeric, self.pos + 1);
                        }
                        self.read();
                    }
                    proof {
                        lemma_run_end_from_inside(
                            src,
                            CharClass::Numeric,
                            start as int,
                            self.pos as int,
                        );
                    }
                    let literal: &str = self.source.substring_char(start, self.pos);
                    match parse_decimal(literal) {
                        Some(value) => Token::new(TokenKind::Int(value), literal, line),
                        None => {
                            self.report(line, "Invalid number");
                            Token::new(TokenKind::Illegal, literal, line)
                        },
                    }
                } else {
                    self.report(line, "Unexpected character");
                    self.read();
                    Token::new(TokenKind::Illegal, char_str, line)
                }
            },
        }
    }

    /// Adds a report to the list.
    fn report(&mut self, line: usize, message: &str)
        ensures
            final(self).source == old(self).source,
            final(self).length == old(self).length,
            final(self).pos == old(self).pos,
            final(self).cc == old(self).cc,
            final(self).line == old(self).line,
            final(self).reports() == old(self).reports() + seq![
                IcyErrorView { line: line as nat, message: message@ },
            ],
    {
        self.errors.push(IcyError::new(line, message));
    }

    /// Moves past the current character, if there is one.
    fn read(&mut self)
        requires
            old(self).wf(),
        ensures
            final(self).wf(),
            final(self).source == old(self).source,
            final(self).errors == old(self).errors,
            final(self).pos == if old(self).pos < old(self).length {
                old(self).pos + 1
            } else {
                old(self).pos as int
            },
    {
        if self.pos < self.length {
            proof {
                lemma_newlines_bounded(self.source@, self.pos as int);
            }
            if self.cc == Some('\n') {
                self.line = self.line + 1;
            }
            self.pos = self.pos + 1;
            self.cc = if self.pos < self.length {
                Some(self.source.get_char(self.pos))
            } else {
                None
            };
        }
    }

    /// The character after the current one, which stays where it is.
    fn peek(&self) -> (c: Option<char>)
        requires
            self.wf(),
        ensures
            c == if self.pos + 1 < self.length {
                Some(self.source@[self.pos + 1])
            } else {
                None
            },
    {
        if self.pos + 1 < self.length {
            Some(self.source.get_char(self.pos + 1))
        } else {
            None
        }
    }

    /// Decides between a two-character token and its first character alone:
    /// where `c` follows the current character, the current character is
    /// consumed and the first token results, else nothing moves and the
    /// second results.
    fn peek_match(
        &mut self,
        c: char,
        match_token_kind: TokenKind,
        else_token_kind: TokenKind,
        match_literal: &str,
        else_literal: &str,
    ) -> (token: Token)
        requires
            old(self).wf(),
            old(self).pos < old(self).length,
            old(self).source@[old(self).pos as int] != '\n',
        ensures
            final(self).wf(),
            final(self).source == old(self).source,
            final(self).errors == old(self).errors,
            final(self).line == old(self).line,
            old(self).pos + 1 < old(self).length && old(self).source@[old(self).pos + 1] == c ==> {
                &&& final(self).pos == old(self).pos + 1
                &&& token@ == (TokenView {
                    kind: match_token_kind@,
                    literal: match_literal@,
                    line: old(self).line as nat,
                })
            },
            !(old(self).pos + 1 < old(self).length && old(self).source@[old(self).pos + 1] == c)
                ==> {
                &&& final(self).pos == old(self).pos
                &&& token@ == (TokenView {
                    kind: else_token_kind@,
                    literal: else_literal@,
                    line: old(self).line as nat,
                })
            },
    {
        let peek_result = self.peek();
        let has_value = peek_result.is_some();
        if has_value && peek_result.unwrap() == c {
            self.read();
            Token::new(match_token_kind, match_literal, self.line)
        } else {
            Token::new(else_token_kind, else_literal, self.line)
        }
    }

    /// Whether `copt` holds a character that may stand in a word.
    fn is_alphabetic(&self, copt: Option<char>) -> (b: bool)
        ensures
            b == (copt matches Some(c) && is_word_char(c)),
    {
        match copt {
            Some(c) => c.is_alphabetic() || c == '_',
            None => false,
        }
    }

    /// Whether `copt` holds a numeric character.
    fn is_numeric(&self, copt: Option<char>) -> (b: bool)
        ensures
            b == (copt matches Some(c) && is_numeric_char(c)),
    {
        match copt {
            Some(c) => c.is_numeric(),
            None => false,
        }
    }

    /// Moves past spaces, tabs and carriage returns; a newline stops it.
    fn ignore_whitespace(&mut self)
        requires
            old(self).wf(),
        ensures
            final(self).wf(),
            final(self).source == old(self).source,
            final(self).errors == old(self).errors,
            final(self).pos == run_end(old(self).source@, CharClass::Blank, old(self).pos as int),
    {
        let mut found_non_ws = false;
        while !found_non_ws
            invariant
                self.wf(),
                self.source == old(self).source,
                self.errors == old(self).errors,
                old(self).pos <= self.pos,
                run_end(self.source@, CharClass::Blank, self.pos as int) == run_end(
                    self.source@,
                    CharClass::Blank,
                    old(self).pos as int,
                ),
                found_non_ws ==> run_end(self.source@, CharClass::Blank, self.pos as int)
                    == self.pos,
            decreases self.length - self.pos + if found_non_ws { 0int } else { 1int },
        {
            if let Some(c) = self.cc {
                if c == ' ' || c == '\t' || c == '\r' {
                    self.read();
                } else {
                    found_non_ws = true;
                }
            } else {
                found_non_ws = true;
            }
        }
    }
}

} // verus!
