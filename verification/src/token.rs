//! The values a tokenizer hands out.

use vstd::prelude::*;

verus! {

/// What a token was recognised as.
///
/// `LineComment` and `NewLine` are reserved: the tokenizer never produces
/// them.
#[derive(Clone, Copy, Debug, PartialEq, Eq, PartialOrd, Ord, Structural)]
pub enum TokenKind {
    LineComment,
    Ident,
    InvalidIdent,
    NewLine,
    Whitespace,
    /// "."
    Dot,
    Unknown,
}

/// A classified stretch of the input: its kind and how many characters it
/// spans. The text itself is not copied.
#[derive(Clone, Copy, Debug, PartialEq, Eq, Structural)]
pub struct Token {
    pub kind: TokenKind,
    pub len: usize,
}

impl Token {
    /// A token of the given kind that spans `len` characters.
    pub fn new(kind: TokenKind, len: usize) -> (token: Token)
        ensures
            token.kind == kind,
            token.len == len,
    {
        Token { kind, len }
    }
}

} // verus!
