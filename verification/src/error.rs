//! Recoverable lexical problems.

use vstd::prelude::*;

verus! {

/// A reported problem: the line it was found on and what was found.
#[derive(Debug)]
pub struct IcyError {
    pub line: usize,
    pub message: String,
}

/// Mathematical model of an [`IcyError`].
pub ghost struct IcyErrorView {
    pub line: nat,
    pub message: Seq<char>,
}

impl View for IcyError {
    type V = IcyErrorView;

    open spec fn view(&self) -> IcyErrorView {
        IcyErrorView { line: self.line as nat, message: self.message@ }
    }
}

impl IcyError {
    pub fn new(line: usize, message: &str) -> (error: Self)
        ensures
            error@ == (IcyErrorView { line: line as nat, message: message@ }),
    {
        Self { line, message: message.to_owned() }
    }
}

/// The models of a list of reports, in order.
pub open spec fn report_views(errors: Seq<IcyError>) -> Seq<IcyErrorView> {
    Seq::new(errors.len(), |i: int| errors[i]@)
}

} // verus!
