//! Turning text into tokens.

use vstd::prelude::*;
use crate::classify::{
    is_ascii, is_id_continue, is_id_continue_spec, is_id_start, is_whitespace, is_whitespace_spec,
};
use crate::cursor::Cursor;
use crate::grammar::{
    char_at, first_token, first_token_len, id_continue_run, ident_kind_spec,
    lemma_first_token_len_bounds, lemma_run_len_unique, tokens_of, total_len, whitespace_run,
};
use crate::theorems::{lemma_tokens_cover_text, lemma_tokens_nonempty};
use crate::token::{Token, TokenKind};
use crate::unicode::is_emoji_char;

verus! {

/// Decides the kind of an identifier-shaped run from the character right
/// after it (the end-of-input character when the input ends there) and the
/// answer of the emoji lookup for that character.
pub fn ident_kind(next: char, next_is_emoji: bool) -> (kind: TokenKind)
    ensures
        kind == ident_kind_spec(next, next_is_emoji),
{
    if !is_ascii(next) && next_is_emoji {
        TokenKind::InvalidIdent
    } else {
        TokenKind::Ident
    }
}

impl Cursor<'_> {
    /// Parses a token from the input string, which must not be at its end.
    ///
    /// The count of consumed characters restarts with the token, so that
    /// afterwards it is the token's length.
    pub fn advance_token(&mut self) -> (token: Token)
        requires
            old(self).rest().len() > 0,
        ensures
            token == first_token(old(self).rest()),
            token.len == first_token_len(old(self).rest()),
            1 <= token.len <= old(self).rest().len(),
            final(self).rest() == old(self).rest().skip(token.len as int),
            final(self).consumed() == token.len,
    {
        self.reset_len_consumed();
        let first_char = self.eat().unwrap();
        let token_kind = match first_char {
            // Whitespace sequence.
            c if is_whitespace(c) => self.whitespace(),
            c if is_id_start(c) => self.ident(),
            // One-symbol tokens.
            '.' => TokenKind::Dot,
            _ => TokenKind::Unknown,
        };
        proof {
            lemma_first_token_len_bounds(old(self).rest());
        }
        Token::new(token_kind, self.len_consumed())
    }

    /// Eats the whitespace that follows an eaten whitespace character.
    fn whitespace(&mut self) -> (kind: TokenKind)
        ensures
            kind == TokenKind::Whitespace,
            final(self).is_ahead_of(old(self), whitespace_run(old(self).rest()) as int),
    {
        self.eat_while(is_whitespace);
        proof {
            lemma_run_len_unique(
                old(self).rest(),
                |c: char| is_whitespace_spec(c),
                old(self).rest().len() - self.rest().len(),
            );
        }
        TokenKind::Whitespace
    }

    /// Eats the rest of an identifier whose first character was eaten, and
    /// looks at what follows it.
    fn ident(&mut self) -> (kind: TokenKind)
        ensures
            final(self).is_ahead_of(old(self), id_continue_run(old(self).rest()) as int),
            kind == ident_kind_spec(
                char_at(final(self).rest(), 0),
                is_emoji_char(char_at(final(self).rest(), 0)),
            ),
    {
        // Start is already eaten, eat the rest of identifier.
        self.eat_while(is_id_continue);
        proof {
            lemma_run_len_unique(
                old(self).rest(),
                |c: char| is_id_continue_spec(c),
                old(self).rest().len() - self.rest().len(),
            );
        }
        let next = self.first();
        ident_kind(next, unic_emoji_char::is_emoji(next))
    }
}

/// The tokens of a text, handed out one at a time from front to back.
pub struct Tokens<'a> {
    cursor: Cursor<'a>,
}

impl<'a> Tokens<'a> {
    /// The text that has not been turned into tokens yet.
    pub closed spec fn rest(&self) -> Seq<char> {
        self.cursor.rest()
    }

    /// The tokens still to come.
    pub open spec fn remaining(&self) -> Seq<Token> {
        tokens_of(self.rest())
    }

    /// Produces the next token, or `None` once the text is used up.
    pub fn next_token(&mut self) -> (next: Option<Token>)
        ensures
            match next {
                Some(token) => {
                    &&& old(self).rest().len() > 0
                    &&& token == first_token(old(self).rest())
                    &&& token.len == first_token_len(old(self).rest())
                    &&& 1 <= token.len <= old(self).rest().len()
                    &&& final(self).rest() == old(self).rest().skip(token.len as int)
                },
                None => old(self).rest().len() == 0 && final(self).rest() == old(self).rest(),
            },
            old(self).remaining() == match next {
                Some(token) => seq![token] + final(self).remaining(),
                None => Seq::empty(),
            },
            old(self).rest().len() <= usize::MAX,
    {
        if self.cursor.is_eof() {
            None
        } else {
            Some(self.cursor.advance_token())
        }
    }

    /// Produces all the tokens still to come. Together they span the rest of
    /// the text, and none of them is empty.
    pub fn into_vec(self) -> (tokens: Vec<Token>)
        ensures
            tokens@ == self.remaining(),
            self.rest().len() <= usize::MAX,
            total_len(tokens@) == self.rest().len(),
            forall|i: int| 0 <= i < tokens@.len() ==> (#[trigger] tokens@[i]).len >= 1,
    {
        let mut stream = self;
        let mut tokens: Vec<Token> = Vec::new();
        loop
            invariant
                tokens@ + stream.remaining() == self.remaining(),
                tokens@.len() == 0 ==> stream.rest() == self.rest(),
                tokens@.len() > 0 ==> self.rest().len() <= usize::MAX,
            ensures
                tokens@ == self.remaining(),
                self.rest().len() <= usize::MAX,
            decreases stream.rest().len(),
        {
            match stream.next_token() {
                Some(token) => tokens.push(token),
                None => break,
            }
        }
        proof {
            lemma_tokens_cover_text(self.rest());
            lemma_tokens_nonempty(self.rest());
        }
        tokens
    }
}

/// Creates a stream that produces tokens from the input string.
pub fn tokenize(input: &str) -> (tokens: Tokens<'_>)
    ensures
        tokens.rest() == input@,
        input@.len() <= usize::MAX,
{
    Tokens { cursor: Cursor::new(input) }
}

} // verus!
