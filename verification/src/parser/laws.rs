//! What holds of parsing, whatever the tokens.

use vstd::prelude::*;
use crate::ast::ast::StatementView;
use crate::lexer::stream::{reported_range, token_of};
use crate::token::token::TokenView;
use crate::token::token_kind::Kind;
use super::grammar::{
    expectation_message, lemma_statement_advances, parse_from, produced, statement_at,
};
use super::parser::Parser;

verus! {

/// How many of the tokens from index `from` on are `var`.
pub open spec fn var_tokens(toks: Seq<TokenView>, from: int) -> nat
    decreases toks.len() - from,
{
    if from < 0 || from >= toks.len() {
        0
    } else {
        var_tokens(toks, from + 1) + if toks[from].kind is Var {
            1nat
        } else {
            0nat
        }
    }
}

/// The later the index, the fewer `var` tokens lie behind it.
proof fn lemma_var_tokens_shrink(toks: Seq<TokenView>, from: int, to: int)
    requires
        0 <= from <= to,
    ensures
        var_tokens(toks, to) <= var_tokens(toks, from),
    decreases to - from,
{
    if from < to {
        lemma_var_tokens_shrink(toks, from + 1, to);
    }
}

/// Declarations: a `var` token gives either one statement and no
/// diagnostic, or no statement and one diagnostic, which names the category
/// that was expected and the one that was found in its place. Any other
/// token gives neither and is stepped over.
pub proof fn law_one_outcome_per_declaration(toks: Seq<TokenView>, i: int)
    ensures
        token_of(toks, i).kind is Var ==> produced(statement_at(toks, i)).len() + statement_at(
            toks,
            i,
        ).errors.len() == 1,
        !(token_of(toks, i).kind is Var) ==> produced(statement_at(toks, i)).len()
            + statement_at(toks, i).errors.len() == 0 && statement_at(toks, i).cursor == i,
        statement_at(toks, i).statement is Some <==> token_of(toks, i).kind is Var && token_of(
            toks,
            i + 1,
        ).kind is Ident && token_of(toks, i + 2).kind is Equals,
        statement_at(toks, i).statement matches Some(statement) ==> statement
            == StatementView::Var(token_of(toks, i + 1).literal, None),
        statement_at(toks, i).errors.len() == 1 ==> {
            ||| statement_at(toks, i).errors[0] == expectation_message(
                Kind::Ident(Seq::empty()),
                token_of(toks, i + 1).kind,
            )
            ||| statement_at(toks, i).errors[0] == expectation_message(
                Kind::Equals,
                token_of(toks, i + 2).kind,
            )
        },
{
}

/// Diagnostics: parsing gives no more statements and diagnostics together
/// than there are `var` tokens to parse.
pub proof fn law_outcomes_bounded_by_declarations(toks: Seq<TokenView>, i: int)
    requires
        0 <= i,
    ensures
        parse_from(toks, i).statements.len() + parse_from(toks, i).errors.len() <= var_tokens(
            toks,
            i,
        ),
    decreases toks.len() + 2 - i,
{
    if !(i >= toks.len() || token_of(toks, i).kind is Eof) {
        let step = statement_at(toks, i);
        lemma_statement_advances(toks, i);
        law_outcomes_bounded_by_declarations(toks, step.cursor + 1);
        lemma_var_tokens_shrink(toks, i + 1, step.cursor + 1);
    }
}

/// Parsing stops at the end of input, and only there.
pub proof fn law_parsing_ends_at_end_of_input(toks: Seq<TokenView>, i: int)
    requires
        0 <= i < toks.len(),
        toks.last().kind is Eof,
    ensures
        i <= parse_from(toks, i).cursor,
        token_of(toks, parse_from(toks, i).cursor).kind is Eof,
    decreases toks.len() + 2 - i,
{
    if !(token_of(toks, i).kind is Eof) {
        let step = statement_at(toks, i);
        lemma_statement_advances(toks, i);
        if step.cursor + 1 < toks.len() {
            law_parsing_ends_at_end_of_input(toks, step.cursor + 1);
        }
    }
}

/// Determinism: two parsers that read the same stream, stand at the same
/// token and hold the same diagnostics give the same program and the same
/// diagnostics. The hypotheses on the programs and on `first_after` and
/// `second_after` are what `Parser::parse` ensures.
pub proof fn law_parsing_is_deterministic(
    first: Parser,
    first_after: Parser,
    first_program: Seq<StatementView>,
    second: Parser,
    second_after: Parser,
    second_program: Seq<StatementView>,
)
    requires
        first.stream() == second.stream(),
        first.cursor() == second.cursor(),
        first.messages() == second.messages(),
        first.lexical_reports() == second.lexical_reports(),
        first_program == parse_from(first.stream(), first.cursor()).statements,
        first_after.messages() == first.messages() + parse_from(
            first.stream(),
            first.cursor(),
        ).errors,
        first_after.cursor() == parse_from(first.stream(), first.cursor()).cursor,
        first_after.lexical_reports() == first.lexical_reports() + reported_range(
            first.stream(),
            first.cursor() + 2,
            first_after.cursor() + 2,
        ),
        second_program == parse_from(second.stream(), second.cursor()).statements,
        second_after.messages() == second.messages() + parse_from(
            second.stream(),
            second.cursor(),
        ).errors,
        second_after.cursor() == parse_from(second.stream(), second.cursor()).cursor,
        second_after.lexical_reports() == second.lexical_reports() + reported_range(
            second.stream(),
            second.cursor() + 2,
            second_after.cursor() + 2,
        ),
    ensures
        first_program == second_program,
        first_after.messages() == second_after.messages(),
        first_after.cursor() == second_after.cursor(),
        first_after.lexical_reports() == second_after.lexical_reports(),
{
}

} // verus!
