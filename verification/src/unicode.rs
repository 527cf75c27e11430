//! Unicode character properties that the tokenizer consults but does not
//! define. Each property is a fixed table lookup, so in contracts it appears
//! as an uninterpreted function of the character; nothing below is verified.

use vstd::prelude::*;

verus! {

/// Whether `c` has the Unicode `Alphabetic` property, as `char::is_alphabetic`
/// reports it.
pub uninterp spec fn is_alphabetic_char(c: char) -> bool;

/// Whether `c` is in one of the Unicode numeric categories (`Nd`, `Nl`, `No`),
/// as `char::is_numeric` reports it.
pub uninterp spec fn is_numeric_char(c: char) -> bool;

/// Whether `c` has the Unicode `Emoji` property, as
/// `unic_emoji_char::is_emoji` reports it.
pub uninterp spec fn is_emoji_char(c: char) -> bool;

/// `char::is_alphabetic` looks `c` up in the `Alphabetic` table. The result
/// depends on `c` alone; the contract only names it.
pub assume_specification[ char::is_alphabetic ](c: char) -> (b: bool)
    ensures
        b == is_alphabetic_char(c),
;

/// `char::is_alphanumeric` is documented to hold exactly of the characters
/// that satisfy `char::is_alphabetic` or `char::is_numeric`.
pub assume_specification[ char::is_alphanumeric ](c: char) -> (b: bool)
    ensures
        b == (is_alphabetic_char(c) || is_numeric_char(c)),
;

/// `unic_emoji_char::is_emoji` searches the crate's `Emoji` range table for
/// `ch`. The result depends on `ch` alone; the contract only names it.
pub assume_specification[ unic_emoji_char::is_emoji ](ch: char) -> (b: bool)
    ensures
        b == is_emoji_char(ch),
;

} // verus!
