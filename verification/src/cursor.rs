//! A forward-only cursor over borrowed text.

use vstd::prelude::*;
use vstd::utf8::{
    char_is_scalar, encode_scalar, encode_utf8, encode_utf8_decode_utf8, encode_utf8_first_scalar,
    is_char_boundary, pop_first_scalar,
};

verus! {

/// What [`Cursor::first`] returns once the input is exhausted.
pub const EOF_CHAR: char = '\0';

/// The number of bytes that `c` takes up in UTF-8.
fn utf8_width(c: char) -> (width: usize)
    ensures
        width == encode_scalar(c as u32).len(),
{
    proof {
        char_is_scalar(c);
    }
    if c <= '\u{7F}' {
        1
    } else if c <= '\u{7FF}' {
        2
    } else if c <= '\u{FFFF}' {
        3
    } else {
        4
    }
}

/// A sequence of characters is never longer than its UTF-8 encoding.
proof fn lemma_encoding_not_shorter(s: Seq<char>)
    ensures
        s.len() <= encode_utf8(s).len(),
    decreases s.len(),
{
    if s.len() > 0 {
        lemma_encoding_not_shorter(s.drop_first());
    }
}

/// The encoding of a non-empty text may be split right after the encoding
/// of its first character, and what follows is the encoding of the
/// characters after the first.
proof fn lemma_split_after_first(s: Seq<char>)
    requires
        s.len() > 0,
    ensures
        is_char_boundary(encode_utf8(s), encode_scalar(s[0] as u32).len() as int),
        encode_utf8(s).subrange(
            encode_scalar(s[0] as u32).len() as int,
            encode_utf8(s).len() as int,
        ) == encode_utf8(s.drop_first()),
{
    broadcast use vstd::utf8::encode_utf8_valid_utf8;

    encode_utf8_first_scalar(s);
    // Past the bytes of the first character lies the encoding of the others,
    assert(pop_first_scalar(encode_utf8(s)) =~= encode_utf8(s.drop_first()));
    // and the start of an encoding is a boundary.
    assert(is_char_boundary(pop_first_scalar(encode_utf8(s)), 0));
}

/// Scans text from front to back. It borrows the text and keeps count of the
/// characters eaten since the count was last reset.
pub struct Cursor<'a> {
    rest: &'a str,
    consumed: usize,
}

impl<'a> Cursor<'a> {
    /// The count can always grow by what is left to eat.
    #[verifier::type_invariant]
    spec fn counter_has_room(&self) -> bool {
        self.consumed + self.rest@.len() <= usize::MAX
    }

    /// The characters not yet eaten.
    pub closed spec fn rest(&self) -> Seq<char> {
        self.rest@
    }

    /// The number of characters eaten since the last reset.
    pub closed spec fn consumed(&self) -> nat {
        self.consumed as nat
    }

    /// Holds when this cursor is where `earlier` would be after eating `n`
    /// more characters.
    pub open spec fn is_ahead_of(&self, earlier: &Self, n: int) -> bool {
        &&& 0 <= n <= earlier.rest().len()
        &&& self.rest() =~= earlier.rest().skip(n)
        &&& self.consumed() == earlier.consumed() + n
    }

    /// A cursor at the start of `input`, with nothing eaten.
    pub fn new(input: &'a str) -> (cursor: Cursor<'a>)
        ensures
            cursor.rest() == input@,
            cursor.consumed() == 0,
            input@.len() <= usize::MAX,
    {
        let bytes = input.as_bytes();
        proof {
            // The bytes of a `str` are counted by a `usize`, and every
            // character takes up at least one of them.
            broadcast use vstd::slice::axiom_spec_len;

            assert(bytes@.len() == vstd::slice::spec_slice_len(bytes));
            lemma_encoding_not_shorter(input@);
        }
        Cursor { rest: input, consumed: 0 }
    }

    /// Checks if there is nothing more to consume.
    pub fn is_eof(&self) -> (eof: bool)
        ensures
            eof == (self.rest().len() == 0),
            self.rest().len() <= usize::MAX,
    {
        proof {
            use_type_invariant(self);
        }
        self.rest.is_empty()
    }

    /// Peeks the next character without consuming it. At the end of the
    /// input the result is [`EOF_CHAR`].
    pub fn first(&self) -> (c: char)
        ensures
            c == if self.rest().len() > 0 {
                self.rest()[0]
            } else {
                EOF_CHAR
            },
    {
        if self.rest.is_empty() {
            EOF_CHAR
        } else {
            self.rest.get_char(0)
        }
    }

    /// Moves to the next character and returns the one passed over, if any.
    pub fn eat(&mut self) -> (eaten: Option<char>)
        ensures
            old(self).rest().len() == 0 ==> {
                &&& eaten is None
                &&& final(self).rest() == old(self).rest()
                &&& final(self).consumed() == old(self).consumed()
            },
            old(self).rest().len() > 0 ==> {
                &&& eaten == Some(old(self).rest()[0])
                &&& final(self).rest() == old(self).rest().drop_first()
                &&& final(self).consumed() == old(self).consumed() + 1
            },
    {
        proof {
            use_type_invariant(&*self);
        }
        if self.rest.is_empty() {
            return None;
        }
        let c = self.rest.get_char(0);
        proof {
            lemma_split_after_first(self.rest@);
        }
        let (_, tail) = self.rest.split_at(utf8_width(c));
        proof {
            // Texts with the same encoding are the same text.
            encode_utf8_decode_utf8(tail@);
            encode_utf8_decode_utf8(self.rest@.drop_first());
        }
        self.rest = tail;
        self.consumed = self.consumed + 1;
        Some(c)
    }

    /// Eats characters for as long as `predicate` holds of the next one and
    /// the input lasts.
    pub fn eat_while<F: Fn(char) -> bool>(&mut self, predicate: F)
        requires
            forall|c: char| #[trigger] predicate.requires((c,)),
        ensures
            final(self).is_ahead_of(old(self), old(self).rest().len() - final(self).rest().len()),
            forall|i: int|
                0 <= i < old(self).rest().len() - final(self).rest().len()
                    ==> predicate.ensures((#[trigger] old(self).rest()[i],), true),
            final(self).rest().len() > 0 ==> predicate.ensures((final(self).rest()[0],), false),
    {
        let ghost start = self.rest();
        while !self.is_eof()
            invariant
                self.is_ahead_of(old(self), start.len() - self.rest().len()),
                start == old(self).rest(),
                forall|c: char| #[trigger] predicate.requires((c,)),
                forall|i: int|
                    0 <= i < start.len() - self.rest().len() ==> predicate.ensures(
                        (#[trigger] start[i],),
                        true,
                    ),
            ensures
                self.rest().len() > 0 ==> predicate.ensures((self.rest()[0],), false),
            decreases self.rest().len(),
        {
            if !predicate(self.first()) {
                break;
            }
            self.eat();
        }
    }

    /// Starts counting eaten characters from zero again. The position does
    /// not change.
    pub fn reset_len_consumed(&mut self)
        ensures
            final(self).rest() == old(self).rest(),
            final(self).consumed() == 0,
    {
        proof {
            use_type_invariant(&*self);
        }
        self.consumed = 0;
    }

    /// Returns the number of characters eaten since the last reset.
    pub fn len_consumed(&self) -> (len: usize)
        ensures
            len == self.consumed(),
    {
        self.consumed
    }
}

} // verus!
