//! Predicates on single characters.

use vstd::prelude::*;
use crate::cursor::Cursor;
use crate::unicode::{is_alphabetic_char, is_numeric_char};

verus! {

/// Carriage return, line feed and NEXT LINE.
pub open spec fn is_newline_spec(c: char) -> bool {
    c == '\u{000D}' || c == '\u{000A}' || c == '\u{0085}'
}

/// The characters this tokenizer treats as whitespace: horizontal tab,
/// vertical tab, form feed, space, the two bidi marks, and the line and
/// paragraph separators. This is a chosen set, not Unicode `White_Space`.
pub open spec fn is_whitespace_spec(c: char) -> bool {
    ||| c == '\u{0009}'
    ||| c == '\u{000B}'
    ||| c == '\u{000C}'
    ||| c == '\u{0020}'
    ||| c == '\u{200E}'
    ||| c == '\u{200F}'
    ||| c == '\u{2028}'
    ||| c == '\u{2029}'
}

/// A character that may begin an identifier: an underscore or a letter.
pub open spec fn is_id_start_spec(c: char) -> bool {
    c == '_' || is_alphabetic_char(c)
}

/// A character that may continue an identifier: a letter or a number.
/// The underscore is not among them unless Unicode counts it as one.
pub open spec fn is_id_continue_spec(c: char) -> bool {
    is_alphabetic_char(c) || is_numeric_char(c)
}

/// A character in the ASCII range.
pub open spec fn is_ascii_spec(c: char) -> bool {
    c as u32 <= 0x7F
}

/// A text that is lexically an identifier: it is not empty, begins with an
/// identifier-start character, and goes on with identifier-continue
/// characters only.
pub open spec fn is_ident_spec(s: Seq<char>) -> bool {
    &&& s.len() > 0
    &&& is_id_start_spec(s[0])
    &&& forall|i: int| 1 <= i < s.len() ==> is_id_continue_spec(#[trigger] s[i])
}

/// True if `c` ends a line.
pub fn is_newline(c: char) -> (b: bool)
    ensures
        b == is_newline_spec(c),
{
    matches!(
        c,
        '\u{000D}' // \r
        | '\u{000A}' // \n
        // NEXT LINE from latin1
        | '\u{0085}'
    )
}

/// True if `c` is considered whitespace
pub fn is_whitespace(c: char) -> (b: bool)
    ensures
        b == is_whitespace_spec(c),
{
    matches!(
        c,
        // Usual ASCII suspects
        '\u{0009}'   // \t
        | '\u{000B}' // vertical tab
        | '\u{000C}' // form feed
        | '\u{0020}' // space

        // Bidi markers
        | '\u{200E}' // LEFT-TO-RIGHT MARK
        | '\u{200F}' // RIGHT-TO-LEFT MARK

        // Dedicated whitespace characters from Unicode
        | '\u{2028}' // LINE SEPARATOR
        | '\u{2029}' // PARAGRAPH SEPARATOR
    )
}

/// True if `c` may begin an identifier.
pub fn is_id_start(c: char) -> (b: bool)
    ensures
        b == is_id_start_spec(c),
{
    c == '_' || c.is_alphabetic()
}

/// True if `c` may continue an identifier.
pub fn is_id_continue(c: char) -> (b: bool)
    ensures
        b == is_id_continue_spec(c),
{
    c.is_alphanumeric()
}

/// The passed string is lexically an identifier.
pub fn is_ident(string: &str) -> (b: bool)
    ensures
        b == is_ident_spec(string@),
{
    let mut chars = Cursor::new(string);
    if let Some(start) = chars.eat() {
        if is_id_start(start) {
            let ghost tail = chars.rest();
            chars.eat_while(is_id_continue);
            let all = chars.is_eof();
            proof {
                if all {
                    assert forall|i: int| 1 <= i < string@.len() implies is_id_continue_spec(
                        #[trigger] string@[i],
                    ) by {
                        assert(string@[i] == tail[i - 1]);
                    }
                }
            }
            all
        } else {
            false
        }
    } else {
        false
    }
}

/// True if `c` is in the ASCII range.
pub fn is_ascii(c: char) -> (b: bool)
    ensures
        b == is_ascii_spec(c),
{
    c <= '\u{7F}'
}

} // verus!
