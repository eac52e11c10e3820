use trg_lexer::first_token;
use trg_lexer::is_id_start;
use trg_lexer::is_whitespace;
use trg_lexer::token::LiteralKind;
use trg_lexer::token::Token;
use trg_lexer::token::TokenKind;
use trg_lexer::tokenize;
use trg_lexer::Cursor;

fn lex(src: &str) -> Vec<(TokenKind, u32)> {
    tokenize(src).into_iter().map(|t| (t.kind, t.len)).collect()
}

fn lit(kind: LiteralKind) -> TokenKind {
    TokenKind::Literal { kind }
}

#[test]
fn cursor_first() {
    let cursor = Cursor::new("hello world");

    assert_eq!(cursor.first(), 'h');
}

#[test]
fn cursor_second() {
    let cursor = Cursor::new("hello world");

    assert_eq!(cursor.second(), 'e');
}

#[test]
fn line_comment() {
    assert_eq!(lex(r"// line"), vec![(TokenKind::LineComment, 7)]);
}

#[test]
fn block_comment() {
    let src = r"
/**/
/* block */
/** also block */
        ";
    assert_eq!(
        lex(src),
        vec![
            (TokenKind::Whitespace, 1),
            (TokenKind::BlockComment { terminated: true }, 4),
            (TokenKind::Whitespace, 1),
            (TokenKind::BlockComment { terminated: true }, 11),
            (TokenKind::Whitespace, 1),
            (TokenKind::BlockComment { terminated: true }, 17),
            (TokenKind::Whitespace, 9),
        ]
    );
}

#[test]
fn nested_block_comment() {
    assert_eq!(
        lex(r#"/* /* block /* */ */ */"heya""#),
        vec![
            (TokenKind::BlockComment { terminated: true }, 23),
            (lit(LiteralKind::Str { terminated: true }), 6),
        ]
    );
}

#[test]
fn literal_flavors() {
    let src = r#"
123
456.789
444.
"heya"
        "#;
    assert_eq!(
        lex(src),
        vec![
            (TokenKind::Whitespace, 1),
            (lit(LiteralKind::Int), 3),
            (TokenKind::Whitespace, 1),
            (lit(LiteralKind::Decimal { empty_exponent: false }), 7),
            (TokenKind::Whitespace, 1),
            (lit(LiteralKind::Decimal { empty_exponent: true }), 4),
            (TokenKind::Whitespace, 1),
            (lit(LiteralKind::Str { terminated: true }), 6),
            (TokenKind::Whitespace, 9),
        ]
    );
}

#[test]
fn literal_flavors_without_leading_newline() {
    assert_eq!(
        lex("123\n456.789\n444.\n\"heya\"\n"),
        vec![
            (lit(LiteralKind::Int), 3),
            (TokenKind::Whitespace, 1),
            (lit(LiteralKind::Decimal { empty_exponent: false }), 7),
            (TokenKind::Whitespace, 1),
            (lit(LiteralKind::Decimal { empty_exponent: true }), 4),
            (TokenKind::Whitespace, 1),
            (lit(LiteralKind::Str { terminated: true }), 6),
            (TokenKind::Whitespace, 1),
        ]
    );
}

#[test]
fn empty_block_comment() {
    assert_eq!(lex("/**/"), vec![(TokenKind::BlockComment { terminated: true }, 4)]);
}

#[test]
fn lengths_add_up_to_input_bytes() {
    let inputs = [
        "",
        "a = 1.5; /* x /* y */ */ \"s\\\"t\" // end",
        "№ 12_3.4_5 \u{2028}\u{0085} é\"",
        "/* open",
        "{[()]}@#~?:$=!<>&|+-*/^%",
    ];
    for src in inputs {
        let tokens = tokenize(src);
        let total: u64 = tokens.iter().map(|t| t.len as u64).sum();
        assert_eq!(total, src.len() as u64);
        assert!(tokens.iter().all(|t| t.len > 0));
    }
}

#[test]
fn tokenizing_twice_gives_the_same_tokens() {
    let src = "x.y /* c */ 1..2 \"q\\\\\" 3.";
    let a: Vec<Token> = tokenize(src);
    let b: Vec<Token> = tokenize(src);
    assert_eq!(a, b);
}

#[test]
fn nested_comment_needs_every_closer() {
    for n in 0..5usize {
        let closed = format!("{}{}", "/*".repeat(n + 1), "*/".repeat(n + 1));
        assert_eq!(
            lex(&closed),
            vec![(TokenKind::BlockComment { terminated: true }, (4 * (n + 1)) as u32)]
        );
        let open = format!("{}{}", "/*".repeat(n + 1), "*/".repeat(n));
        assert_eq!(
            lex(&open),
            vec![(TokenKind::BlockComment { terminated: false }, (2 * (n + 1) + 2 * n) as u32)]
        );
    }
}

#[test]
fn escaped_quote_does_not_end_string() {
    let src = r#""a\"b""#;
    assert_eq!(src.len(), 6);
    assert_eq!(lex(src), vec![(lit(LiteralKind::Str { terminated: true }), 6)]);
}

#[test]
fn escaped_backslash_before_closing_quote() {
    assert_eq!(lex(r#""a\\""#), vec![(lit(LiteralKind::Str { terminated: true }), 5)]);
}

#[test]
fn unterminated_string() {
    assert_eq!(lex(r#""abc\""#), vec![(lit(LiteralKind::Str { terminated: false }), 6)]);
}

#[test]
fn trailing_dot_makes_empty_fraction() {
    assert_eq!(lex("444."), vec![(lit(LiteralKind::Decimal { empty_exponent: true }), 4)]);
}

#[test]
fn double_dot_is_a_range() {
    assert_eq!(
        lex("1..2"),
        vec![
            (lit(LiteralKind::Int), 1),
            (TokenKind::Dot, 1),
            (TokenKind::Dot, 1),
            (lit(LiteralKind::Int), 1),
        ]
    );
}

#[test]
fn dot_before_identifier_is_member_access() {
    let tokens = lex("1.field");
    assert_eq!(tokens[0], (lit(LiteralKind::Int), 1));
    assert_eq!(tokens[1], (TokenKind::Dot, 1));
    assert_eq!(tokens.len(), 7);
    assert!(tokens[2..].iter().all(|t| *t == (TokenKind::Unknown, 1)));
}

#[test]
fn digit_separators() {
    assert_eq!(
        lex("1_000.2_5"),
        vec![(lit(LiteralKind::Decimal { empty_exponent: false }), 9)]
    );
    assert_eq!(
        lex("7._"),
        vec![(lit(LiteralKind::Int), 1), (TokenKind::Dot, 1), (TokenKind::Unknown, 1)]
    );
}

#[test]
fn unknown_character_does_not_stop_scanning() {
    assert_eq!(
        lex("№;"),
        vec![(TokenKind::Unknown, 3), (TokenKind::Semi, 1)]
    );
}

#[test]
fn unterminated_line_comment_runs_to_end() {
    assert_eq!(
        lex("// a\n//"),
        vec![
            (TokenKind::LineComment, 4),
            (TokenKind::Whitespace, 1),
            (TokenKind::LineComment, 2),
        ]
    );
}

#[test]
fn slash_alone() {
    assert_eq!(lex("/"), vec![(TokenKind::Slash, 1)]);
    assert_eq!(lex("/ "), vec![(TokenKind::Slash, 1), (TokenKind::Whitespace, 1)]);
}

#[test]
fn punctuation_maps_one_to_one() {
    let expected = [
        (';', TokenKind::Semi),
        (',', TokenKind::Comma),
        ('.', TokenKind::Dot),
        ('(', TokenKind::OpenParen),
        (')', TokenKind::CloseParen),
        ('{', TokenKind::OpenBrace),
        ('}', TokenKind::CloseBrace),
        ('[', TokenKind::OpenBracket),
        (']', TokenKind::CloseBracket),
        ('@', TokenKind::At),
        ('#', TokenKind::Pound),
        ('~', TokenKind::Tilde),
        ('?', TokenKind::Question),
        (':', TokenKind::Colon),
        ('$', TokenKind::Dollar),
        ('=', TokenKind::Eq),
        ('!', TokenKind::Bang),
        ('<', TokenKind::Lt),
        ('>', TokenKind::Gt),
        ('&', TokenKind::And),
        ('|', TokenKind::Or),
        ('+', TokenKind::Plus),
        ('-', TokenKind::Minus),
        ('*', TokenKind::Star),
        ('/', TokenKind::Slash),
        ('^', TokenKind::Caret),
        ('%', TokenKind::Percent),
    ];
    for (c, kind) in expected {
        assert_eq!(lex(&c.to_string()), vec![(kind, 1)]);
    }
}

#[test]
fn whitespace_set() {
    for c in [
        '\t', '\n', '\u{000B}', '\u{000C}', '\r', ' ', '\u{0085}', '\u{200E}', '\u{200F}',
        '\u{2028}', '\u{2029}',
    ] {
        assert!(is_whitespace(c));
    }
    for c in ['\u{00A0}', '\u{3000}', 'a', '\0'] {
        assert!(!is_whitespace(c));
    }
    assert_eq!(lex("\u{2028}\u{2029} "), vec![(TokenKind::Whitespace, 7)]);
}

#[test]
fn id_start_set() {
    for c in ['a', 'z', 'A', 'Z', '_', '#'] {
        assert!(is_id_start(c));
    }
    for c in ['0', '.', 'é', ' '] {
        assert!(!is_id_start(c));
    }
}

#[test]
fn first_token_takes_the_prefix() {
    let t = first_token("12.5 rest");
    assert_eq!(t.kind, lit(LiteralKind::Decimal { empty_exponent: false }));
    assert_eq!(t.len, 4);
    assert_eq!(first_token("é").len, 2);
}

#[test]
fn empty_input_has_no_tokens() {
    assert!(tokenize("").is_empty());
}

#[test]
fn cursor_moves_forward() {
    let mut cursor = Cursor::new("ab");
    assert!(!cursor.is_eof());
    assert_eq!(cursor.bump(), Some('a'));
    assert_eq!(cursor.second(), '\0');
    assert_eq!(cursor.bump(), Some('b'));
    assert_eq!(cursor.len_consumed(), 2);
    assert!(cursor.is_eof());
    assert_eq!(cursor.first(), '\0');
    assert_eq!(cursor.bump(), None);
    cursor.reset_len_consumed();
    assert_eq!(cursor.len_consumed(), 0);
}

#[test]
fn cursor_eat_while_stops_at_first_miss() {
    let mut cursor = Cursor::new("aaé b");
    cursor.eat_while(|c| c != ' ');
    assert_eq!(cursor.len_consumed(), 4);
    assert_eq!(cursor.first(), ' ');
}

#[test]
fn token_new_keeps_fields() {
    let t = Token::new(TokenKind::Star, 3);
    assert_eq!(t.kind, TokenKind::Star);
    assert_eq!(t.len, 3);
}
