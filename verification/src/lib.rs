//! A character-level tokenizer for dotted, namespace-like names.
//!
//! Text is split into identifiers, dots, runs of whitespace and single
//! unknown characters. Every character of the input belongs to exactly one
//! token, so the lengths of the tokens add up to the length of the input.
//!
//! [`tokenize`] hands the tokens out one at a time. What the tokens of a
//! text are is defined in [`grammar`], and what follows from that
//! definition is proved in [`theorems`].

pub mod classify;
pub mod cursor;
pub mod grammar;
pub mod theorems;
pub mod token;
pub mod tokenizer;
pub mod unicode;

pub use classify::{is_id_continue, is_id_start, is_ident, is_newline, is_whitespace};
pub use cursor::Cursor;
pub use tokenizer::{ident_kind, tokenize, Tokens};
pub use token::{Token, TokenKind};
