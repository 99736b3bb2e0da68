//! Program, statement and expression nodes.

use vstd::prelude::*;

verus! {

/// A parsed program: its statements in source order.
pub struct Program {
    pub statements: Vec<Statement>,
}

/// A simple name.
#[derive(Debug, Clone, PartialEq)]
pub struct Identifier(pub String);

#[derive(Debug, Clone, PartialEq)]
pub enum Statement {
    /// A variable declaration: the bound name and its initializer, where one
    /// was parsed.
    Var(Identifier, Option<Expression>),
}

#[derive(Debug, Clone, PartialEq)]
pub enum Expression {
    Ident,
}

/// Mathematical model of a [`Statement`]: a name is its text.
pub ghost enum StatementView {
    Var(Seq<char>, Option<Expression>),
}

impl View for Identifier {
    type V = Seq<char>;

    open spec fn view(&self) -> Seq<char> {
        self.0@
    }
}

impl View for Statement {
    type V = StatementView;

    open spec fn view(&self) -> StatementView {
        match self {
            Statement::Var(name, value) => StatementView::Var(name@, *value),
        }
    }
}

/// The models of a list of statements, in order.
pub open spec fn statement_views(statements: Seq<Statement>) -> Seq<StatementView> {
    Seq::new(statements.len(), |i: int| statements[i]@)
}

impl View for Program {
    type V = Seq<StatementView>;

    open spec fn view(&self) -> Seq<StatementView> {
        statement_views(self.statements@)
    }
}

impl Program {
    pub fn new() -> (program: Self)
        ensures
            program@ == Seq::<StatementView>::empty(),
    {
        let program = Self { statements: Vec::new() };
        program
    }
}

} // verus!
