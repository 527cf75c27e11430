//! What the tokens of a text are.
//!
//! A text is read from front to back. Its first character decides what the
//! first token is and how far it reaches; the tokens of the text are that
//! token and then the tokens of what is left after it.

use vstd::prelude::*;
use crate::classify::{is_ascii_spec, is_id_continue_spec, is_id_start_spec, is_whitespace_spec};
use crate::cursor::EOF_CHAR;
use crate::token::{Token, TokenKind};
use crate::unicode::is_emoji_char;

verus! {

/// The length of the longest prefix of `s` whose characters all satisfy `p`.
pub open spec fn run_len(s: Seq<char>, p: spec_fn(char) -> bool) -> nat
    decreases s.len(),
{
    if s.len() > 0 && p(s[0]) {
        1 + run_len(s.drop_first(), p)
    } else {
        0
    }
}

/// The number of whitespace characters that `s` begins with.
pub open spec fn whitespace_run(s: Seq<char>) -> nat {
    run_len(s, |c: char| is_whitespace_spec(c))
}

/// The number of identifier-continue characters that `s` begins with.
pub open spec fn id_continue_run(s: Seq<char>) -> nat {
    run_len(s, |c: char| is_id_continue_spec(c))
}

/// The character at position `i` of `s`, or [`EOF_CHAR`] past its end.
pub open spec fn char_at(s: Seq<char>, i: int) -> char {
    if 0 <= i < s.len() {
        s[i]
    } else {
        EOF_CHAR
    }
}

/// The kind of an identifier-shaped run, given the character right after it
/// and whether that character is an emoji. A run that a non-ASCII emoji
/// abuts is no genuine identifier.
pub open spec fn ident_kind_spec(next: char, next_is_emoji: bool) -> TokenKind {
    if !is_ascii_spec(next) && next_is_emoji {
        TokenKind::InvalidIdent
    } else {
        TokenKind::Ident
    }
}

/// How many characters the first token of `s` spans, for non-empty `s`.
///
/// A whitespace character takes all whitespace after it along, an
/// identifier-start character all identifier-continue characters after it,
/// and any other character stands alone.
pub open spec fn first_token_len(s: Seq<char>) -> nat
    recommends
        s.len() > 0,
{
    if is_whitespace_spec(s[0]) {
        1 + whitespace_run(s.drop_first())
    } else if is_id_start_spec(s[0]) {
        1 + id_continue_run(s.drop_first())
    } else {
        1
    }
}

/// The kind of the first token of `s`, for non-empty `s`. Whitespace is
/// tried first, then an identifier, then the dot.
pub open spec fn first_token_kind(s: Seq<char>) -> TokenKind
    recommends
        s.len() > 0,
{
    if is_whitespace_spec(s[0]) {
        TokenKind::Whitespace
    } else if is_id_start_spec(s[0]) {
        let next = char_at(s, first_token_len(s) as int);
        ident_kind_spec(next, is_emoji_char(next))
    } else if s[0] == '.' {
        TokenKind::Dot
    } else {
        TokenKind::Unknown
    }
}

/// The first token of `s`, for non-empty `s`.
pub open spec fn first_token(s: Seq<char>) -> Token
    recommends
        s.len() > 0,
{
    Token { kind: first_token_kind(s), len: first_token_len(s) as usize }
}

/// All tokens of `s`, in order: the first token of `s`, then the tokens of
/// what is left after it.
pub open spec fn tokens_of(s: Seq<char>) -> Seq<Token>
    decreases s.len(),
    via tokens_of_terminates
{
    if s.len() == 0 {
        Seq::empty()
    } else {
        seq![first_token(s)] + tokens_of(s.skip(first_token_len(s) as int))
    }
}

#[via_fn]
proof fn tokens_of_terminates(s: Seq<char>) {
    if s.len() > 0 {
        lemma_first_token_len_bounds(s);
    }
}

/// The number of characters that `tokens` span together.
pub open spec fn total_len(tokens: Seq<Token>) -> nat
    decreases tokens.len(),
{
    if tokens.len() == 0 {
        0
    } else {
        tokens[0].len as nat + total_len(tokens.drop_first())
    }
}

/// The position in the text at which token `i` of `tokens` begins: the
/// number of characters that the tokens before it span.
pub open spec fn token_start(tokens: Seq<Token>, i: int) -> nat {
    total_len(tokens.take(i))
}

/// Identifier-shaped tokens: genuine identifiers and those that an emoji
/// spoils.
pub open spec fn is_ident_like(kind: TokenKind) -> bool {
    kind == TokenKind::Ident || kind == TokenKind::InvalidIdent
}

/// What `run_len` computes: the run lies within `s`, every character in it
/// satisfies `p`, and the character after it, if there is one, does not.
pub proof fn lemma_run_len(s: Seq<char>, p: spec_fn(char) -> bool)
    ensures
        run_len(s, p) <= s.len(),
        forall|i: int| 0 <= i < run_len(s, p) ==> p(#[trigger] s[i]),
        run_len(s, p) < s.len() ==> !p(s[run_len(s, p) as int]),
    decreases s.len(),
{
    if s.len() > 0 && p(s[0]) {
        let tail = s.drop_first();
        lemma_run_len(tail, p);
        assert forall|i: int| 0 <= i < run_len(s, p) implies p(#[trigger] s[i]) by {
            if i > 0 {
                assert(s[i] == tail[i - 1]);
            }
        }
    }
}

/// Only one length is as [`lemma_run_len`] describes the run.
pub proof fn lemma_run_len_unique(s: Seq<char>, p: spec_fn(char) -> bool, n: int)
    requires
        0 <= n <= s.len(),
        forall|i: int| 0 <= i < n ==> p(#[trigger] s[i]),
        n < s.len() ==> !p(s[n]),
    ensures
        run_len(s, p) == n,
    decreases n,
{
    if n > 0 {
        let tail = s.drop_first();
        assert forall|i: int| 0 <= i < n - 1 implies p(#[trigger] tail[i]) by {
            assert(tail[i] == s[i + 1]);
        }
        lemma_run_len_unique(tail, p, n - 1);
    }
}

/// The first token of a non-empty text is at least one character long and
/// no longer than the text.
pub proof fn lemma_first_token_len_bounds(s: Seq<char>)
    requires
        s.len() > 0,
    ensures
        1 <= first_token_len(s) <= s.len(),
{
    lemma_run_len(s.drop_first(), |c: char| is_whitespace_spec(c));
    lemma_run_len(s.drop_first(), |c: char| is_id_continue_spec(c));
}

} // verus!
