//! The token value and the table of reserved words.

use vstd::prelude::*;
use vstd::string::*;
use super::token_kind::{Kind, TokenKind};

verus! {

/// The reserved words: `w` names a keyword exactly when it is one of the
/// eight words below, letter for letter.
pub open spec fn keyword_of(w: Seq<char>) -> Option<Kind> {
    if w == "func"@ {
        Some(Kind::Function)
    } else if w == "var"@ {
        Some(Kind::Var)
    } else if w == "void"@ {
        Some(Kind::Void)
    } else if w == "return"@ {
        Some(Kind::Return)
    } else if w == "true"@ {
        Some(Kind::True)
    } else if w == "false"@ {
        Some(Kind::False)
    } else if w == "if"@ {
        Some(Kind::If)
    } else if w == "else"@ {
        Some(Kind::Else)
    } else {
        None
    }
}

/// The category of a scanned word: its keyword, or an identifier that
/// carries the word itself.
pub open spec fn word_kind(w: Seq<char>) -> Kind {
    match keyword_of(w) {
        Some(kind) => kind,
        None => Kind::Ident(w),
    }
}

/// Whether two texts hold the same characters.
fn same_text(a: &str, b: &str) -> (same: bool)
    ensures
        same == (a@ == b@),
{
    let n: usize = a.unicode_len();
    if n != b.unicode_len() {
        return false;
    }
    let mut i: usize = 0;
    while i < n
        invariant
            i <= n,
            n == a@.len(),
            n == b@.len(),
            forall|j: int| 0 <= j < i ==> a@[j] == b@[j],
        decreases n - i,
    {
        if a.get_char(i) != b.get_char(i) {
            return false;
        }
        i = i + 1;
    }
    assert(a@ =~= b@);
    true
}

/// Looks a scanned word up in the table of reserved words.
pub fn lookup_indentifier(token_indent: &str) -> (kind: TokenKind)
    ensures
        kind@ == word_kind(token_indent@),
{
    if same_text(token_indent, "func") {
        TokenKind::Function
    } else if same_text(token_indent, "var") {
        TokenKind::Var
    } else if same_text(token_indent, "void") {
        TokenKind::Void
    } else if same_text(token_indent, "return") {
        TokenKind::Return
    } else if same_text(token_indent, "true") {
        TokenKind::True
    } else if same_text(token_indent, "false") {
        TokenKind::False
    } else if same_text(token_indent, "if") {
        TokenKind::If
    } else if same_text(token_indent, "else") {
        TokenKind::Else
    } else {
        TokenKind::Ident(token_indent.to_owned())
    }
}

/// Smallest classified unit of source text.
#[derive(Debug)]
pub struct Token {
    pub kind: TokenKind,
    pub literal: String,
    pub line: usize,
}

/// Mathematical model of a [`Token`].
pub ghost struct TokenView {
    pub kind: Kind,
    pub literal: Seq<char>,
    pub line: nat,
}

impl View for Token {
    type V = TokenView;

    open spec fn view(&self) -> TokenView {
        TokenView { kind: self.kind@, literal: self.literal@, line: self.line as nat }
    }
}

/// The models of a list of tokens, in order.
pub open spec fn token_views(tokens: Seq<Token>) -> Seq<TokenView> {
    Seq::new(tokens.len(), |i: int| tokens[i]@)
}

impl Token {
    pub fn new(kind: TokenKind, literal: &str, line: usize) -> (token: Self)
        ensures
            token@ == (TokenView { kind: kind@, literal: literal@, line: line as nat }),
    {
        Self { kind, literal: literal.to_owned(), line }
    }
}

} // verus!
