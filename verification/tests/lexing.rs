use lexer::{ident_kind, is_ident, tokenize, Token, TokenKind};

fn lex(src: &str) -> Vec<Token> {
    tokenize(src).into_vec()
}

fn token(kind: TokenKind, len: usize) -> Token {
    Token::new(kind, len)
}

fn check_lexing(src: &str, expect: &str) {
    let actual: String = lex(src)
        .iter()
        .map(|token| format!("{:?}\n", token))
        .collect();
    assert_eq!(actual, expect);
}

#[test]
fn namespace_test() {
    check_lexing(
        "namespace com.example.foo",
        "Token { kind: Ident, len: 9 }\n\
         Token { kind: Whitespace, len: 1 }\n\
         Token { kind: Ident, len: 3 }\n\
         Token { kind: Dot, len: 1 }\n\
         Token { kind: Ident, len: 7 }\n\
         Token { kind: Dot, len: 1 }\n\
         Token { kind: Ident, len: 3 }\n",
    )
}

#[test]
fn namespace_kinds_and_lengths() {
    assert_eq!(
        lex("namespace com.example.foo"),
        vec![
            token(TokenKind::Ident, 9),
            token(TokenKind::Whitespace, 1),
            token(TokenKind::Ident, 3),
            token(TokenKind::Dot, 1),
            token(TokenKind::Ident, 7),
            token(TokenKind::Dot, 1),
            token(TokenKind::Ident, 3),
        ]
    );
}

#[test]
fn single_dot() {
    assert_eq!(lex("."), vec![token(TokenKind::Dot, 1)]);
}

#[test]
fn underscore_starts_an_identifier() {
    assert_eq!(lex("_x9"), vec![token(TokenKind::Ident, 3)]);
}

#[test]
fn letter_then_emoji() {
    assert_eq!(
        lex("a\u{1F600}"),
        vec![token(TokenKind::InvalidIdent, 1), token(TokenKind::Unknown, 1)]
    );
}

#[test]
fn longer_identifier_then_emoji() {
    assert_eq!(
        lex("foo42\u{2728} bar"),
        vec![
            token(TokenKind::InvalidIdent, 5),
            token(TokenKind::Unknown, 1),
            token(TokenKind::Whitespace, 1),
            token(TokenKind::Ident, 3),
        ]
    );
}

#[test]
fn ascii_emoji_does_not_spoil_an_identifier() {
    // '#' and '*' have the Emoji property but are ASCII.
    assert_eq!(
        lex("a#b*"),
        vec![
            token(TokenKind::Ident, 1),
            token(TokenKind::Unknown, 1),
            token(TokenKind::Ident, 1),
            token(TokenKind::Unknown, 1),
        ]
    );
}

#[test]
fn non_ascii_non_emoji_does_not_spoil_an_identifier() {
    assert_eq!(
        lex("a\u{00B7}"),
        vec![token(TokenKind::Ident, 1), token(TokenKind::Unknown, 1)]
    );
}

#[test]
fn alphabetic_emoji_is_part_of_the_identifier() {
    // INFORMATION SOURCE is a letter and an emoji: it continues the run.
    assert_eq!(lex("a\u{2139}"), vec![token(TokenKind::Ident, 2)]);
}

#[test]
fn identifier_at_end_of_input_is_genuine() {
    assert_eq!(lex("abc"), vec![token(TokenKind::Ident, 3)]);
}

#[test]
fn empty_input_has_no_tokens() {
    assert_eq!(lex(""), vec![]);
    assert!(tokenize("").next_token().is_none());
}

#[test]
fn lengths_count_characters_not_bytes() {
    assert_eq!(
        lex("\u{4EAC}\u{90FD}.\u{00E9}t\u{00E9}"),
        vec![
            token(TokenKind::Ident, 2),
            token(TokenKind::Dot, 1),
            token(TokenKind::Ident, 3),
        ]
    );
}

#[test]
fn whitespace_run_is_one_token() {
    assert_eq!(
        lex("\t\u{000B}\u{000C} \u{200E}\u{200F}\u{2028}\u{2029}x"),
        vec![token(TokenKind::Whitespace, 8), token(TokenKind::Ident, 1)]
    );
}

#[test]
fn newlines_are_unknown_one_by_one() {
    assert_eq!(
        lex("\r\n\u{0085}"),
        vec![
            token(TokenKind::Unknown, 1),
            token(TokenKind::Unknown, 1),
            token(TokenKind::Unknown, 1),
        ]
    );
}

#[test]
fn digits_do_not_start_an_identifier() {
    assert_eq!(
        lex("9x"),
        vec![token(TokenKind::Unknown, 1), token(TokenKind::Ident, 1)]
    );
}

#[test]
fn dots_are_never_merged() {
    assert_eq!(
        lex("..."),
        vec![
            token(TokenKind::Dot, 1),
            token(TokenKind::Dot, 1),
            token(TokenKind::Dot, 1),
        ]
    );
}

#[test]
fn underscore_ends_an_identifier_and_starts_the_next() {
    assert_eq!(
        lex("a_b"),
        vec![token(TokenKind::Ident, 1), token(TokenKind::Ident, 2)]
    );
    assert_eq!(
        lex("__"),
        vec![token(TokenKind::Ident, 1), token(TokenKind::Ident, 1)]
    );
}

#[test]
fn reserved_kinds_are_never_produced() {
    let tokens = lex("// note\n# x.y \u{1F600}\t_z");
    assert!(!tokens.is_empty());
    for token in tokens {
        assert_ne!(token.kind, TokenKind::LineComment);
        assert_ne!(token.kind, TokenKind::NewLine);
    }
}

const SAMPLES: [&str; 12] = [
    "",
    ".",
    "_x9",
    "a_b",
    "namespace com.example.foo",
    "  \t leading",
    "trailing \u{2028}",
    "a\u{1F600}b\u{1F600}",
    "\u{1F600}\u{1F600}",
    "x..y . z",
    "\u{4EAC}\u{90FD} 42abc",
    "\r\n--\u{0085}",
];

#[test]
fn token_lengths_add_up_to_the_input_length() {
    for src in SAMPLES {
        let total: usize = lex(src).iter().map(|token| token.len).sum();
        assert_eq!(total, src.chars().count(), "{:?}", src);
    }
}

#[test]
fn no_token_is_empty() {
    for src in SAMPLES {
        for token in lex(src) {
            assert!(token.len >= 1, "{:?}", src);
        }
    }
}

#[test]
fn only_the_empty_input_has_no_tokens() {
    for src in SAMPLES {
        assert_eq!(lex(src).is_empty(), src.is_empty(), "{:?}", src);
    }
}

#[test]
fn each_token_is_the_first_token_of_what_is_left() {
    for src in SAMPLES {
        let chars: Vec<char> = src.chars().collect();
        let mut start = 0;
        for token in lex(src) {
            let rest: String = chars[start..].iter().collect();
            assert_eq!(tokenize(&rest).next_token(), Some(token), "{:?}", src);
            start += token.len;
        }
        assert_eq!(start, chars.len());
    }
}

#[test]
fn whitespace_tokens_are_never_adjacent() {
    for src in SAMPLES {
        let tokens = lex(src);
        for pair in tokens.windows(2) {
            assert!(
                !(pair[0].kind == TokenKind::Whitespace && pair[1].kind == TokenKind::Whitespace),
                "{:?}",
                src
            );
        }
    }
}

#[test]
fn identifier_tokens_are_adjacent_only_at_an_underscore() {
    let is_ident_like =
        |kind: TokenKind| kind == TokenKind::Ident || kind == TokenKind::InvalidIdent;
    for src in SAMPLES {
        let chars: Vec<char> = src.chars().collect();
        let tokens = lex(src);
        let mut start = 0;
        for pair in tokens.windows(2) {
            start += pair[0].len;
            if is_ident_like(pair[0].kind) && is_ident_like(pair[1].kind) {
                assert_eq!(chars[start], '_', "{:?}", src);
            }
        }
    }
}

#[test]
fn identifiers_are_the_texts_with_one_ident_token() {
    let texts = [
        "", ".", "_", "_x9", "x", "foo", "a_b", "9x", "a b", " a", "a.", "a\u{1F600}",
        "\u{4EAC}\u{90FD}", "caf\u{00E9}1", "\u{200E}", "__",
    ];
    for src in texts {
        let single = lex(src) == vec![token(TokenKind::Ident, src.chars().count())];
        assert_eq!(is_ident(src), single, "{:?}", src);
    }
}

#[test]
fn tokenizing_twice_gives_the_same_tokens() {
    for src in SAMPLES {
        assert_eq!(lex(src), lex(src), "{:?}", src);
    }
}

#[test]
fn tokens_come_one_at_a_time() {
    let mut tokens = tokenize("a .");
    assert_eq!(tokens.next_token(), Some(token(TokenKind::Ident, 1)));
    assert_eq!(tokens.next_token(), Some(token(TokenKind::Whitespace, 1)));
    assert_eq!(tokens.next_token(), Some(token(TokenKind::Dot, 1)));
    assert_eq!(tokens.next_token(), None);
    assert_eq!(tokens.next_token(), None);
}

#[test]
fn into_vec_gives_what_is_left() {
    let mut tokens = tokenize("a.b");
    assert_eq!(tokens.next_token(), Some(token(TokenKind::Ident, 1)));
    assert_eq!(
        tokens.into_vec(),
        vec![token(TokenKind::Dot, 1), token(TokenKind::Ident, 1)]
    );
}

#[test]
fn ident_kind_needs_a_non_ascii_emoji() {
    assert_eq!(ident_kind('\u{1F600}', true), TokenKind::InvalidIdent);
    assert_eq!(ident_kind('\u{1F600}', false), TokenKind::Ident);
    assert_eq!(ident_kind('#', true), TokenKind::Ident);
    assert_eq!(ident_kind('\u{7F}', true), TokenKind::Ident);
    assert_eq!(ident_kind('\u{80}', true), TokenKind::InvalidIdent);
    assert_eq!(ident_kind('\0', false), TokenKind::Ident);
}

#[test]
fn token_new_keeps_its_arguments() {
    let token = Token::new(TokenKind::Dot, 7);
    assert_eq!(token.kind, TokenKind::Dot);
    assert_eq!(token.len, 7);
}

#[test]
fn token_kinds_keep_their_declared_order() {
    assert!(TokenKind::LineComment < TokenKind::Ident);
    assert!(TokenKind::Ident < TokenKind::InvalidIdent);
    assert!(TokenKind::InvalidIdent < TokenKind::NewLine);
    assert!(TokenKind::NewLine < TokenKind::Whitespace);
    assert!(TokenKind::Whitespace < TokenKind::Dot);
    assert!(TokenKind::Dot < TokenKind::Unknown);
}
