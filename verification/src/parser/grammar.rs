//! The grammar, as a function from a stream of tokens to the statements and
//! diagnostics that parsing it gives.

use vstd::prelude::*;
use crate::ast::ast::StatementView;
use crate::lexer::stream::{lemma_line_end_bounds, line_end, token_of};
use crate::token::token::TokenView;
use crate::token::token_kind::Kind;

verus! {

/// The diagnostic for a token that is not of the category the grammar asks
/// for: it names the category that was expected and the one that was found.
pub open spec fn expectation_message(expected: Kind, found: Kind) -> Seq<char> {
    "expected next token to be "@ + expected.label() + ", but found "@ + found.label()
}

/// What parsing one statement gives: the statement, if there is one, the
/// diagnostics, and the index of the token at which the parser then stands.
pub ghost struct Step {
    pub statement: Option<StatementView>,
    pub errors: Seq<Seq<char>>,
    pub cursor: int,
}

/// What parsing a stream gives: the statements in source order, the
/// diagnostics in source order, and the index of the token at which the
/// parser stops.
pub ghost struct Parsed {
    pub statements: Seq<StatementView>,
    pub errors: Seq<Seq<char>>,
    pub cursor: int,
}

/// A declaration `var IDENT = ...` whose `var` is token `i`. The rest of the
/// line is skipped and no initializer is kept. Where the identifier or the
/// `=` is missing there is no statement, one diagnostic, and the parser
/// stands at the last token that was as expected.
pub open spec fn var_statement(toks: Seq<TokenView>, i: int) -> Step {
    let name = token_of(toks, i + 1);
    let sign = token_of(toks, i + 2);
    if !(name.kind is Ident) {
        Step {
            statement: None,
            errors: seq![expectation_message(Kind::Ident(Seq::empty()), name.kind)],
            cursor: i,
        }
    } else if !(sign.kind is Equals) {
        Step {
            statement: None,
            errors: seq![expectation_message(Kind::Equals, sign.kind)],
            cursor: i + 1,
        }
    } else {
        Step {
            statement: Some(StatementView::Var(name.literal, None)),
            errors: seq![],
            cursor: line_end(toks, i + 2),
        }
    }
}

/// The statement that starts at token `i`. Only `var` starts one; any other
/// token is passed over in silence.
pub open spec fn statement_at(toks: Seq<TokenView>, i: int) -> Step {
    if token_of(toks, i).kind is Var {
        var_statement(toks, i)
    } else {
        Step { statement: None, errors: seq![], cursor: i }
    }
}

/// The statement of a step as a list of none or one.
pub open spec fn produced(step: Step) -> Seq<StatementView> {
    match step.statement {
        Some(statement) => seq![statement],
        None => seq![],
    }
}

/// Parsing from token `i` to the end of input: statement after statement,
/// each followed by one step forward.
pub open spec fn parse_from(toks: Seq<TokenView>, i: int) -> Parsed
    decreases toks.len() + 2 - i,
{
    if i < 0 || i >= toks.len() || token_of(toks, i).kind is Eof {
        Parsed { statements: seq![], errors: seq![], cursor: i }
    } else {
        let step = statement_at(toks, i);
        proof {
            lemma_line_end_bounds(toks, i + 2);
        }
        let rest = parse_from(toks, step.cursor + 1);
        Parsed {
            statements: produced(step) + rest.statements,
            errors: step.errors + rest.errors,
            cursor: rest.cursor,
        }
    }
}

/// A statement leaves the parser at or after the token at which it started.
pub proof fn lemma_statement_advances(toks: Seq<TokenView>, i: int)
    ensures
        i <= statement_at(toks, i).cursor,
        statement_at(toks, i).cursor <= i + 2 || statement_at(toks, i).cursor < toks.len(),
{
    lemma_line_end_bounds(toks, i + 2);
}

} // verus!
