use yang_schema::parser::parser::parse;

#[test]
fn parser_test_parse() {
    let input = r#"
leaf host-name {
    type string;
    description
        "Hostname for this system." +
        'This is a string';
    test-multiline
        "This is a
           multiline string";
    test-singlequote
        'This is a single"
           \" quote string';
}
        "#;
    let statement = parse(input).unwrap();
    assert_eq!(statement.keyword, "leaf");
    assert_eq!(statement.argument.as_deref(), Some("host-name"));
    assert_eq!(statement.statements.len(), 4);
}

// Quoted strings joined by `+` become one argument with no separator.
#[test]
fn test_concatenation() {
    let input = "description \"Hostname for this system.\" + 'This is a string';";
    let statement = parse(input).unwrap();
    assert_eq!(statement.keyword, "description");
    assert_eq!(
        statement.argument.as_deref(),
        Some("Hostname for this system.This is a string")
    );
}

#[test]
fn test_statement_shapes() {
    let s = parse("leaf a;").unwrap();
    assert_eq!(s.keyword, "leaf");
    assert_eq!(s.argument.as_deref(), Some("a"));
    assert!(s.statements.is_empty());

    let s = parse("container c { leaf a; leaf b { type t; } }").unwrap();
    assert_eq!(s.statements.len(), 2);
    assert_eq!(s.statements[1].statements.len(), 1);

    let s = parse("input { leaf a; }").unwrap();
    assert_eq!(s.keyword, "input");
    // `{` follows directly, so there is no argument
    assert!(s.argument.is_none());
}

#[test]
fn test_parse_errors() {
    let e = parse("").unwrap_err();
    assert_eq!(e.message, "Expected token, found end of input");
    assert!(e.span.is_none());

    let e = parse("{").unwrap_err();
    assert_eq!(e.message, "Expected keyword, found something else");

    let e = parse("leaf a").unwrap_err();
    assert_eq!(e.message, "Expected token, found end of input");

    let e = parse("leaf a b;").unwrap_err();
    assert_eq!(
        e.message,
        "Expected semicolon or left brace, found something else"
    );

    let e = parse("x \"a\" + b;").unwrap_err();
    assert_eq!(e.message, "Expected string, found something else");

    let e = parse("leaf a; leaf b;").unwrap_err();
    assert_eq!(e.message, "Expected end of input");

    let e = parse("\"quoted\" a;").unwrap_err();
    assert_eq!(e.message, "Expected keyword, found something else");
}

#[test]
fn test_lexical_error_aborts_parse() {
    let e = parse("leaf # {}").unwrap_err();
    assert_eq!(e.message, "IllegalToken");
    let e = parse("leaf \"abc").unwrap_err();
    assert_eq!(e.message, "UnexpectedEOF");
}
