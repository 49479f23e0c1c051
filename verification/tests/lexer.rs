use sqleibniz::lexer::Lexer;
use sqleibniz::types::{Keyword, Rule, Type};

/// Lexes `input` and gives the rules of the diagnostics with their fixes' messages.
fn lex_errors(input: &str) -> Vec<(Rule, Option<String>)> {
    let bytes = input.as_bytes().to_vec();
    let mut l = Lexer::new(&bytes, "test");
    let _ = l.run();
    l.errors
        .iter()
        .map(|e| (e.rule, e.suggestion.as_ref().map(|s| s.message.clone())))
        .collect()
}

/// Lexes `input`, asserts there is no diagnostic, and gives the token kinds.
fn lex_ok(input: &str) -> Vec<Type> {
    let bytes = input.as_bytes().to_vec();
    let mut l = Lexer::new(&bytes, "lexer_tests_pass");
    let toks = l.run();
    assert_eq!(l.errors.len(), 0, "{:?}", l.errors);
    toks.into_iter().map(|t| t.ttype).collect()
}

/// Lexes `input` and asserts there are no tokens and at least one diagnostic.
fn lex_fails(input: &str) {
    let bytes = input.as_bytes().to_vec();
    let mut l = Lexer::new(&bytes, "lexer_tests_fail");
    let toks = l.run();
    assert_eq!(toks.len(), 0);
    assert_ne!(l.errors.len(), 0);
}

#[test]
fn unterminated_string_has_suggestion() {
    let errs = lex_errors("'hello");
    assert!(!errs.is_empty());
    let (rule, suggestion) = &errs[0];
    assert_eq!(*rule, Rule::UnterminatedString);
    assert!(suggestion.is_some(), "expected suggestion for unterminated string");
    assert!(suggestion.as_ref().unwrap().contains("'"), "suggestion should mention closing quote");
}

#[test]
fn bang_without_equal_has_suggestion() {
    let errs = lex_errors("!5");
    assert!(!errs.is_empty());
    let (rule, suggestion) = &errs[0];
    assert_eq!(*rule, Rule::UnknownCharacter);
    assert!(suggestion.is_some(), "expected suggestion for !");
    assert!(suggestion.as_ref().unwrap().contains("!="), "suggestion should mention !=");
}

#[test]
fn double_quote_string_has_suggestion() {
    let errs = lex_errors("SELECT \"hello\";");
    let dq_err = errs.iter().find(|(r, _)| *r == Rule::Syntax);
    assert!(dq_err.is_some(), "expected Syntax error for double-quoted string, got: {:?}", errs);
    let suggestion = &dq_err.unwrap().1;
    assert!(suggestion.is_some(), "expected suggestion for double-quote string");
    assert!(
        suggestion.as_ref().unwrap().contains("'hello'"),
        "suggestion should contain single-quoted version"
    );
}

#[test]
fn double_quote_unterminated_has_suggestion() {
    let errs = lex_errors("SELECT \"hello");
    let dq_err = errs.iter().find(|(r, _)| *r == Rule::UnterminatedString);
    assert!(dq_err.is_some(), "expected UnterminatedString for unterminated double-quote");
    let suggestion = &dq_err.unwrap().1;
    assert!(suggestion.is_some());
}

#[test]
fn valid_string_no_suggestion() {
    let errs = lex_errors("'hello'");
    assert!(errs.is_empty(), "valid string should produce no errors");
}

#[test]
fn booleans_in_any_case() {
    assert_eq!(lex_ok("true"), vec![Type::Boolean(true)]);
    assert_eq!(lex_ok("TRUE"), vec![Type::Boolean(true)]);
    assert_eq!(lex_ok("false"), vec![Type::Boolean(false)]);
    assert_eq!(lex_ok("FALSE"), vec![Type::Boolean(false)]);
}

#[test]
fn strings() {
    assert_eq!(lex_ok("'text'"), vec![Type::String(String::from("text"))]);
    assert_eq!(lex_ok("''"), vec![Type::String(String::from(""))]);
    assert_eq!(lex_ok("'str';"), vec![Type::String(String::from("str")), Type::Semicolon]);
    assert_eq!(lex_ok("'it''s'"), vec![Type::String(String::from("it's"))]);
}

#[test]
fn symbols() {
    assert_eq!(lex_ok(".d"), vec![Type::Dot, Type::Ident(String::from("d"))]);
    assert_eq!(lex_ok("*"), vec![Type::Asterisk]);
    assert_eq!(lex_ok(";"), vec![Type::Semicolon]);
    assert_eq!(lex_ok(","), vec![Type::Comma]);
    assert_eq!(lex_ok("%"), vec![Type::Percent]);
    assert_eq!(lex_ok("="), vec![Type::Equal]);
    assert_eq!(lex_ok("@"), vec![Type::At]);
    assert_eq!(lex_ok(":"), vec![Type::Colon]);
    assert_eq!(lex_ok("$"), vec![Type::Dollar]);
    assert_eq!(lex_ok("?"), vec![Type::Question]);
    assert_eq!(
        lex_ok("<= >= <> != << >> || |"),
        vec![
            Type::LessEqual,
            Type::GreaterEqual,
            Type::LessGreater,
            Type::BangEqual,
            Type::ShiftLeft,
            Type::ShiftRight,
            Type::PipePipe,
            Type::Pipe
        ]
    );
}

#[test]
fn numbers() {
    assert_eq!(lex_ok("0"), vec![Type::Number(String::from("0"))]);
    assert_eq!(lex_ok(".0"), vec![Type::Number(String::from(".0"))]);
    assert_eq!(lex_ok("0x0"), vec![Type::Number(String::from("0x0"))]);
    assert_eq!(lex_ok("0.0"), vec![Type::Number(String::from("0.0"))]);
    assert_eq!(lex_ok("1_000.12_000e+3_5"), vec![Type::Number(String::from("1_000.12_000e+3_5"))]);
    assert_eq!(lex_ok(".1_000e-1_2"), vec![Type::Number(String::from(".1_000e-1_2"))]);
    assert_eq!(lex_ok("0xABCDEF"), vec![Type::Number(String::from("0xABCDEF"))]);
    assert_eq!(lex_ok("0XABCDEF"), vec![Type::Number(String::from("0XABCDEF"))]);
}

#[test]
fn blobs() {
    assert_eq!(lex_ok("X''"), vec![Type::Blob(String::new())]);
    assert_eq!(lex_ok("x''"), vec![Type::Blob(String::new())]);
    assert_eq!(lex_ok("X'12345'"), vec![Type::Blob(String::from("12345"))]);
    assert_eq!(lex_ok("x'1234567'"), vec![Type::Blob(String::from("1234567"))]);
    assert_eq!(lex_ok("X"), vec![Type::Ident(String::from("X"))]);
    assert_eq!(lex_ok("x"), vec![Type::Ident(String::from("x"))]);
}

#[test]
fn sqleibniz_instructions() {
    assert_eq!(lex_ok("--@sqleibniz::expect description"), vec![Type::InstructionExpect]);
    assert_eq!(lex_ok("--@sqleibniz::expect"), vec![Type::InstructionExpect]);
    assert_eq!(
        lex_ok("--@sqleibniz::expect\n5"),
        vec![Type::InstructionExpect, Type::Number(String::from("5"))]
    );
    assert_eq!(
        lex_ok("--@sqleibniz::expect\n5;12;"),
        vec![
            Type::InstructionExpect,
            Type::Number(String::from("5")),
            Type::Semicolon,
            Type::Number(String::from("12")),
            Type::Semicolon
        ]
    );
    assert_eq!(lex_ok("-- @sqleibniz::expect"), vec![Type::InstructionExpect]);
}

#[test]
fn keywords_and_identifiers() {
    assert_eq!(
        lex_ok("select Users.email"),
        vec![
            Type::Keyword(Keyword::SELECT),
            Type::Ident(String::from("Users")),
            Type::Dot,
            Type::Ident(String::from("email"))
        ]
    );
}

#[test]
fn token_places() {
    let bytes = "SELECT\n  x;".as_bytes().to_vec();
    let mut l = Lexer::new(&bytes, "places");
    let toks = l.run();
    assert_eq!(toks.len(), 3);
    assert_eq!((toks[0].line, toks[0].start, toks[0].end), (0, 0, 6));
    assert_eq!((toks[1].line, toks[1].start, toks[1].end), (1, 2, 3));
    assert_eq!((toks[2].line, toks[2].start, toks[2].end), (1, 3, 4));
}

#[test]
fn empty_inputs_fail() {
    lex_fails("");
    lex_fails("\\");
    lex_fails(" \t\n\r");
    let errs = lex_errors(" \n ");
    assert_eq!(errs[0].0, Rule::NoContent);
}

#[test]
fn unterminated_strings_fail() {
    lex_fails("'");
    lex_fails("'\n\t\r\n ");
}

#[test]
fn comments_only_fail() {
    lex_fails("-- comment");
    lex_fails("--comment\n");
    lex_fails("/**/");
    lex_fails("/*\n\n\n*/");
}

#[test]
fn bad_numbers_fail() {
    lex_fails("0x");
    lex_fails("0X");
    lex_fails(".e");
    lex_fails(".E");
    lex_fails(".eeee");
    lex_fails("12.e+-15");
    assert_eq!(lex_errors("0x")[0].0, Rule::InvalidNumber);
}

#[test]
fn bad_blobs_fail() {
    lex_fails("X'");
    lex_fails("x'");
    lex_fails("X'12819281");
    lex_fails("x'102812");
    lex_fails("X'1281928FFFY'");
    assert_eq!(lex_errors("X'1281928FFFY'")[0].0, Rule::InvalidBlob);
}

#[test]
fn bad_instructions_fail() {
    lex_fails("--@sqleibniz");
    lex_fails("--@sqleibniz::unknown");
    assert_eq!(lex_errors("--@sqleibniz::unknown")[0].0, Rule::BadSqleibnizInstruction);
}

#[test]
fn plain_source_kinds() {
    assert_eq!(
        lex_ok("select Name ,(*) TRUE false;"),
        vec![
            Type::Keyword(Keyword::SELECT),
            Type::Ident(String::from("Name")),
            Type::Comma,
            Type::BraceLeft,
            Type::Asterisk,
            Type::BraceRight,
            Type::Boolean(true),
            Type::Boolean(false),
            Type::Semicolon,
        ]
    );
}

#[test]
fn quoted_string_text_collapses_doubled_quotes() {
    assert_eq!(
        lex_ok("SELECT 'it''s';"),
        vec![Type::Keyword(Keyword::SELECT), Type::String(String::from("it's")), Type::Semicolon]
    );
}
