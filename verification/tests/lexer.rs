use yang_schema::parser::lexer::{Lexer, LexicalError, Tok};

type Loc = usize;

fn assert_tokens(input: &str, expected_tokens: Vec<(Loc, Tok, Loc)>, error: Option<LexicalError>) {
    let mut lexer = Lexer::new(input);

    for expected_token in expected_tokens {
        let (loc, actual_token, end_loc) = lexer.next().unwrap();
        assert_eq!((loc, actual_token.unwrap(), end_loc), expected_token);
    }

    if let Some(error) = error {
        assert_eq!(lexer.next().unwrap().1.err().unwrap(), error);
    } else {
        assert!(lexer.next().is_none());
    }
}

#[test]
fn test_invalid_token() {
    let input = "#2423";
    assert_tokens(input, vec![], Some(LexicalError::IllegalToken));
}

#[test]
fn test_valid_token() {
    let input = r#"
leaf host-name {
    type string;
    description
        "Hostname for this system." +
        'This is a string';
    test-multiline
        "This is a
           multiline string";
    test-singlequote
        'This is a single"
           \" quote string';
}
        "#;
    assert_tokens(
        input,
        vec![
            (1, Tok::UString("leaf".to_string()), 5),
            (6, Tok::UString("host-name".to_string()), 15),
            (16, Tok::LBrace, 17),
            (22, Tok::UString("type".to_string()), 26),
            (27, Tok::UString("string".to_string()), 33),
            (33, Tok::Semicolon, 34),
            (39, Tok::UString("description".to_string()), 50),
            (
                59,
                Tok::QString("Hostname for this system.".to_string()),
                86,
            ),
            (87, Tok::Plus, 88),
            (97, Tok::QString("This is a string".to_string()), 115),
            (115, Tok::Semicolon, 116),
            (121, Tok::UString("test-multiline".to_string()), 135),
            (
                144,
                Tok::QString("This is a\n  multiline string".to_string()),
                183,
            ),
            (183, Tok::Semicolon, 184),
            (189, Tok::UString("test-singlequote".to_string()), 205),
            // single-quoted strings are raw: the backslash stays a literal
            (
                214,
                Tok::QString("This is a single\"\n           \\\" quote string".to_string()),
                260,
            ),
            (260, Tok::Semicolon, 261),
            (262, Tok::RBrace, 263),
        ],
        None,
    );
}

// For input built only from the grammar's token forms, the emitted spans
// reconstruct the original text.
#[test]
fn test_lexing_round_trip() {
    let input = "leaf host-name { type string; }";
    let mut lexer = Lexer::new(input);
    let expected = vec![
        (0, Tok::UString("leaf".to_string()), 4),
        (5, Tok::UString("host-name".to_string()), 14),
        (15, Tok::LBrace, 16),
        (17, Tok::UString("type".to_string()), 21),
        (22, Tok::UString("string".to_string()), 28),
        (28, Tok::Semicolon, 29),
        (30, Tok::RBrace, 31),
    ];
    let mut reconstructed = String::new();
    for (start, tok, end) in expected {
        let (s, t, e) = lexer.next().unwrap();
        let t = t.unwrap();
        assert_eq!((s, e), (start, end));
        assert_eq!(t, tok);
        // the span recovers the literal source text of the token
        let source_text = &input[s..e];
        match &t {
            Tok::UString(u) => assert_eq!(source_text, u.as_str()),
            Tok::Semicolon => assert_eq!(source_text, ";"),
            Tok::LBrace => assert_eq!(source_text, "{"),
            Tok::RBrace => assert_eq!(source_text, "}"),
            Tok::Plus => assert_eq!(source_text, "+"),
            Tok::QString(_) => unreachable!(),
        }
        while reconstructed.len() < s {
            reconstructed.push(' ');
        }
        reconstructed.push_str(source_text);
    }
    assert!(lexer.next().is_none());
    assert_eq!(reconstructed, input);
}

// Double-quoted strings process the four escapes; single-quoted strings are
// verbatim.
#[test]
fn test_string_escaping() {
    let input = "\"a\\\"b\\n\"";
    let mut lexer = Lexer::new(input);
    let (_, tok, _) = lexer.next().unwrap();
    assert_eq!(tok.unwrap(), Tok::QString("a\"b\n".to_string()));

    let input2 = "'a\\b'";
    let mut lexer2 = Lexer::new(input2);
    let (_, tok2, _) = lexer2.next().unwrap();
    assert_eq!(tok2.unwrap(), Tok::QString("a\\b".to_string()));

    let input3 = "\"t\\ta\\\\b\"";
    let mut lexer3 = Lexer::new(input3);
    let (_, tok3, _) = lexer3.next().unwrap();
    assert_eq!(tok3.unwrap(), Tok::QString("t\ta\\b".to_string()));
}

// A double-quoted string whose opening quote sits at column 8 has up to 8
// columns of leading whitespace removed from its continuation lines: 11
// leading spaces leave exactly 3.
#[test]
fn test_multiline_dedent() {
    let input = "abcdef \"a\n           b\";";
    let mut lexer = Lexer::new(input);
    let (_, kw, _) = lexer.next().unwrap();
    assert_eq!(kw.unwrap(), Tok::UString("abcdef".to_string()));
    let (_, tok, _) = lexer.next().unwrap();
    assert_eq!(tok.unwrap(), Tok::QString("a\n   b".to_string()));
}

#[test]
fn test_unterminated_string() {
    let mut lexer = Lexer::new("\"abc");
    let (_, tok, _) = lexer.next().unwrap();
    assert_eq!(tok.err().unwrap(), LexicalError::UnexpectedEOF);
}

#[test]
fn test_illegal_escape() {
    let mut lexer = Lexer::new("\"a\\qb\"");
    let (_, tok, _) = lexer.next().unwrap();
    assert_eq!(tok.err().unwrap(), LexicalError::IllegalStringEscape);
}

#[test]
fn test_single_slash_is_illegal() {
    let mut lexer = Lexer::new("a / b");
    let (_, tok, _) = lexer.next().unwrap();
    assert_eq!(tok.unwrap(), Tok::UString("a".to_string()));
    let (_, tok2, _) = lexer.next().unwrap();
    assert_eq!(tok2.err().unwrap(), LexicalError::IllegalToken);
}

#[test]
fn test_line_comment_skipped() {
    let mut lexer = Lexer::new("a // comment\nb;");
    let (_, t1, _) = lexer.next().unwrap();
    assert_eq!(t1.unwrap(), Tok::UString("a".to_string()));
    let (_, t2, _) = lexer.next().unwrap();
    assert_eq!(t2.unwrap(), Tok::UString("b".to_string()));
    let (_, t3, _) = lexer.next().unwrap();
    assert_eq!(t3.unwrap(), Tok::Semicolon);
    assert!(lexer.next().is_none());
}
