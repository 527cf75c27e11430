//! What holds of the tokens of every text.
//!
//! A text is a sequence of characters short enough to be counted by a
//! `usize`, as every `str` is.

use vstd::prelude::*;
use crate::classify::{is_id_continue_spec, is_id_start_spec, is_ident_spec, is_whitespace_spec};
use crate::grammar::{
    first_token, first_token_kind, first_token_len, is_ident_like, lemma_first_token_len_bounds,
    lemma_run_len, lemma_run_len_unique, token_start, tokens_of, total_len,
};
use crate::token::{Token, TokenKind};

verus! {

/// The tokens of a non-empty text are its first token, which is at least one
/// character long and fits in the text, and then the tokens of what follows
/// that token.
pub proof fn lemma_tokens_unfold(s: Seq<char>)
    requires
        0 < s.len() <= usize::MAX,
    ensures
        first_token(s).len == first_token_len(s),
        1 <= first_token(s).len <= s.len(),
        tokens_of(s) == seq![first_token(s)] + tokens_of(s.skip(first_token(s).len as int)),
{
    lemma_first_token_len_bounds(s);
}

/// Token `i` begins inside the text, is the first token of the text from
/// there on, and ends where token `i + 1` begins or the text ends.
pub proof fn lemma_token_at(s: Seq<char>, i: int)
    requires
        s.len() <= usize::MAX,
        0 <= i < tokens_of(s).len(),
    ensures
        token_start(tokens_of(s), i) < s.len(),
        tokens_of(s)[i] == first_token(s.skip(token_start(tokens_of(s), i) as int)),
        token_start(tokens_of(s), i + 1) == token_start(tokens_of(s), i) + tokens_of(s)[i].len,
        token_start(tokens_of(s), i + 1) <= s.len(),
    decreases i,
{
    lemma_tokens_unfold(s);
    let all = tokens_of(s);
    let head = first_token(s);
    let tail_text = s.skip(head.len as int);
    let tail = tokens_of(tail_text);
    assert(all.take(i + 1).drop_first() =~= tail.take(i));
    if i == 0 {
        assert(all.take(0) =~= Seq::<Token>::empty());
        assert(tail.take(0) =~= Seq::<Token>::empty());
        assert(s.skip(0) =~= s);
    } else {
        lemma_token_at(tail_text, i - 1);
        assert(all.take(i).drop_first() =~= tail.take(i - 1));
        let start: nat = token_start(tail, i - 1);
        assert(tail_text.skip(start as int) =~= s.skip(head.len + start));
    }
}

/// The tokens cover the text: their lengths add up to the length of the
/// text, so that no character is left out and none is counted twice.
pub proof fn lemma_tokens_cover_text(s: Seq<char>)
    requires
        s.len() <= usize::MAX,
    ensures
        total_len(tokens_of(s)) == s.len(),
    decreases s.len(),
{
    if s.len() > 0 {
        lemma_tokens_unfold(s);
        let head = first_token(s);
        let tail_text = s.skip(head.len as int);
        lemma_tokens_cover_text(tail_text);
        assert(tokens_of(s).drop_first() =~= tokens_of(tail_text));
    }
}

/// No token is empty, and only the empty text has no tokens.
pub proof fn lemma_tokens_nonempty(s: Seq<char>)
    requires
        s.len() <= usize::MAX,
    ensures
        forall|i: int| 0 <= i < tokens_of(s).len() ==> (#[trigger] tokens_of(s)[i]).len >= 1,
        s.len() == 0 <==> tokens_of(s).len() == 0,
{
    assert forall|i: int| 0 <= i < tokens_of(s).len() implies (#[trigger] tokens_of(s)[i]).len
        >= 1 by {
        lemma_token_at(s, i);
        lemma_tokens_unfold(s.skip(token_start(tokens_of(s), i) as int));
    }
    if s.len() > 0 {
        lemma_tokens_unfold(s);
    }
}

/// What the kind of a first token tells about the text: a whitespace token
/// begins with whitespace and an identifier-shaped one with an
/// identifier-start character that is no whitespace, and the character after
/// either, if there is one, would not have continued the run.
pub proof fn lemma_first_token_is_maximal(s: Seq<char>)
    requires
        0 < s.len(),
    ensures
        first_token_kind(s) == TokenKind::Whitespace <==> is_whitespace_spec(s[0]),
        is_ident_like(first_token_kind(s)) <==> !is_whitespace_spec(s[0]) && is_id_start_spec(
            s[0],
        ),
        first_token_kind(s) == TokenKind::Whitespace && first_token_len(s) < s.len()
            ==> !is_whitespace_spec(s[first_token_len(s) as int]),
        is_ident_like(first_token_kind(s)) && first_token_len(s) < s.len() ==> !is_id_continue_spec(
            s[first_token_len(s) as int],
        ),
{
    let tail = s.drop_first();
    lemma_run_len(tail, |c: char| is_whitespace_spec(c));
    lemma_run_len(tail, |c: char| is_id_continue_spec(c));
    if first_token_len(s) < s.len() {
        assert(s[first_token_len(s) as int] == tail[first_token_len(s) - 1]);
    }
}

/// What the character `c` at which token `i + 1` begins has to do with the
/// two tokens around it: token `i` stopped at `c` because `c` would not have
/// continued it, and `c` decides the kind of token `i + 1`.
pub proof fn lemma_token_boundary(s: Seq<char>, i: int)
    requires
        s.len() <= usize::MAX,
        0 <= i,
        i + 1 < tokens_of(s).len(),
    ensures
        token_start(tokens_of(s), i + 1) < s.len(),
        ({
            let c = s[token_start(tokens_of(s), i + 1) as int];
            let before = tokens_of(s)[i].kind;
            let after = tokens_of(s)[i + 1].kind;
            &&& before == TokenKind::Whitespace ==> !is_whitespace_spec(c)
            &&& is_ident_like(before) ==> !is_id_continue_spec(c)
            &&& after == TokenKind::Whitespace <==> is_whitespace_spec(c)
            &&& is_ident_like(after) <==> !is_whitespace_spec(c) && is_id_start_spec(c)
        }),
{
    lemma_token_at(s, i);
    lemma_token_at(s, i + 1);
    let from_first = s.skip(token_start(tokens_of(s), i) as int);
    let from_second = s.skip(token_start(tokens_of(s), i + 1) as int);
    lemma_tokens_unfold(from_first);
    lemma_first_token_is_maximal(from_first);
    lemma_first_token_is_maximal(from_second);
    assert(from_second[0] == from_first[first_token_len(from_first) as int]);
}

/// Whitespace runs are maximal: no two tokens side by side are both
/// whitespace.
pub proof fn lemma_whitespace_runs_maximal(s: Seq<char>, i: int)
    requires
        s.len() <= usize::MAX,
        0 <= i,
        i + 1 < tokens_of(s).len(),
    ensures
        !(tokens_of(s)[i].kind == TokenKind::Whitespace && tokens_of(s)[i + 1].kind
            == TokenKind::Whitespace),
{
    lemma_token_boundary(s, i);
}

/// Where two identifier-shaped tokens do stand side by side, the second
/// begins with an underscore, and the underscore is no identifier-continue
/// character: it can begin an identifier but not carry one on.
pub proof fn lemma_adjacent_idents(s: Seq<char>, i: int)
    requires
        s.len() <= usize::MAX,
        0 <= i,
        i + 1 < tokens_of(s).len(),
        is_ident_like(tokens_of(s)[i].kind),
        is_ident_like(tokens_of(s)[i + 1].kind),
    ensures
        token_start(tokens_of(s), i + 1) < s.len(),
        s[token_start(tokens_of(s), i + 1) as int] == '_',
        !is_id_continue_spec('_'),
{
    lemma_token_boundary(s, i);
}

/// An underscore right after an identifier-shaped token always begins
/// another one.
pub proof fn lemma_underscore_after_ident(s: Seq<char>, i: int)
    requires
        s.len() <= usize::MAX,
        0 <= i,
        i + 1 < tokens_of(s).len(),
        is_ident_like(tokens_of(s)[i].kind),
        s[token_start(tokens_of(s), i + 1) as int] == '_',
    ensures
        is_ident_like(tokens_of(s)[i + 1].kind),
        !is_id_continue_spec('_'),
{
    lemma_token_boundary(s, i);
}

/// Identifier runs are maximal: no two tokens side by side are both
/// identifier-shaped, unless an underscore follows the first. There the
/// rule fails, as [`lemma_underscore_after_ident`] shows.
pub proof fn lemma_ident_runs_maximal(s: Seq<char>, i: int)
    requires
        s.len() <= usize::MAX,
        0 <= i,
        i + 1 < tokens_of(s).len(),
        !(is_ident_like(tokens_of(s)[i].kind) && s[token_start(tokens_of(s), i + 1) as int]
            == '_'),
    ensures
        !(is_ident_like(tokens_of(s)[i].kind) && is_ident_like(tokens_of(s)[i + 1].kind)),
{
    lemma_token_boundary(s, i);
}

/// A text is an identifier exactly when its tokens are one `Ident` token
/// that spans it whole.
///
/// This leaves out texts that begin with a character which is whitespace
/// and identifier-start at once: such a text would be an identifier and yet
/// begin with a whitespace token. Unicode has no such character, but which
/// characters are alphabetic is left to the standard library and not stated
/// here.
pub proof fn lemma_ident_iff_single_ident_token(s: Seq<char>)
    requires
        s.len() <= usize::MAX,
        !(s.len() > 0 && is_whitespace_spec(s[0]) && is_id_start_spec(s[0])),
    ensures
        is_ident_spec(s) <==> tokens_of(s) == seq![
            Token { kind: TokenKind::Ident, len: s.len() as usize },
        ],
{
    let single = seq![Token { kind: TokenKind::Ident, len: s.len() as usize }];
    if s.len() > 0 {
        let tail = s.drop_first();
        lemma_tokens_unfold(s);
        lemma_first_token_is_maximal(s);
        lemma_run_len(tail, |c: char| is_id_continue_spec(c));
        if is_ident_spec(s) {
            assert forall|i: int| 0 <= i < tail.len() implies is_id_continue_spec(
                #[trigger] tail[i],
            ) by {
                assert(tail[i] == s[i + 1]);
            }
            lemma_run_len_unique(tail, |c: char| is_id_continue_spec(c), tail.len() as int);
        }
        if tokens_of(s) == single {
            assert(tokens_of(s)[0] == single[0]);
            assert forall|i: int| 1 <= i < s.len() implies is_id_continue_spec(s[i]) by {
                assert(s[i] == tail[i - 1]);
            }
        }
    } else {
        assert(single.len() == 1);
    }
}

/// Every token is whitespace, an identifier, an invalid identifier, a dot
/// or unknown: the kinds `LineComment` and `NewLine` never occur.
pub proof fn lemma_reserved_kinds_unused(s: Seq<char>, i: int)
    requires
        s.len() <= usize::MAX,
        0 <= i < tokens_of(s).len(),
    ensures
        tokens_of(s)[i].kind != TokenKind::LineComment,
        tokens_of(s)[i].kind != TokenKind::NewLine,
{
    lemma_token_at(s, i);
}

/// Tokenizing is a function of the text alone: the same characters give the
/// same tokens, however often they are tokenized.
pub proof fn lemma_tokens_deterministic(
    first_text: Seq<char>,
    second_text: Seq<char>,
    first_tokens: Seq<Token>,
    second_tokens: Seq<Token>,
)
    requires
        first_text =~= second_text,
        first_tokens == tokens_of(first_text),
        second_tokens == tokens_of(second_text),
    ensures
        first_tokens == second_tokens,
{
}

} // verus!
