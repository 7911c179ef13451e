use ecma_rs::scan_tokens;
use ecma_rs::Keyword;
use ecma_rs::Lexer;
use ecma_rs::Token;

fn ident(text: &str) -> Token {
    Token::Identifier { value: text.to_string() }
}

fn string_lit(text: &str) -> Token {
    Token::StringLiteral { value: text.to_string() }
}

fn number_lit(text: &str) -> Token {
    Token::NumberLiteral { value: text.to_string() }
}

#[test]
fn empty_input_scans_empty() {
    assert_eq!(scan_tokens(""), vec![]);
}

#[test]
fn whitespace_only_scans_empty() {
    assert_eq!(scan_tokens(" "), vec![]);
    assert_eq!(scan_tokens("\t"), vec![]);
    assert_eq!(scan_tokens("\r"), vec![]);
    assert_eq!(scan_tokens("\n"), vec![]);
    assert_eq!(scan_tokens("  \t\r\n \n\t  "), vec![]);
}

#[test]
fn each_operator_alone() {
    let cases = vec![
        ("{", Token::LeftCurly),
        ("}", Token::RightCurly),
        ("[", Token::LeftBracket),
        ("]", Token::RightBracket),
        ("(", Token::LeftParens),
        (")", Token::RightParens),
        ("=", Token::Equals),
        (".", Token::Dot),
        ("+", Token::Plus),
        ("-", Token::Minus),
        ("*", Token::Multiply),
        ("/", Token::Division),
        (":", Token::Colon),
        (";", Token::SemiColon),
    ];
    for (text, expected) in cases {
        assert_eq!(scan_tokens(text), vec![expected]);
    }
}

#[test]
fn identifier_alone() {
    assert_eq!(scan_tokens("foo"), vec![ident("foo")]);
    assert_eq!(scan_tokens("_bar"), vec![ident("_bar")]);
    assert_eq!(scan_tokens("A_z"), vec![ident("A_z")]);
    assert_eq!(scan_tokens("  foo  "), vec![ident("foo")]);
}

#[test]
fn non_ascii_alphabetic_is_identifier() {
    assert_eq!(scan_tokens("caf\u{00e9}"), vec![ident("caf\u{00e9}")]);
}

#[test]
fn double_quoted_string() {
    assert_eq!(scan_tokens("\"abc\""), vec![string_lit("abc")]);
}

#[test]
fn single_quoted_string() {
    assert_eq!(scan_tokens("'xy'"), vec![string_lit("xy")]);
}

#[test]
fn empty_string_literal() {
    assert_eq!(scan_tokens("\"\""), vec![string_lit("")]);
    assert_eq!(scan_tokens("''"), vec![string_lit("")]);
}

#[test]
fn unterminated_string_runs_to_end() {
    assert_eq!(scan_tokens("\"abc"), vec![string_lit("abc")]);
    assert_eq!(scan_tokens("'abc"), vec![string_lit("abc")]);
}

#[test]
fn lone_quote_is_empty_string_literal() {
    assert_eq!(scan_tokens("\""), vec![string_lit("")]);
    assert_eq!(scan_tokens("'"), vec![string_lit("")]);
}

#[test]
fn any_quote_character_closes_a_string() {
    // The literal ends at the next quote character of either kind.
    assert_eq!(scan_tokens("'ab\""), vec![string_lit("ab")]);
    assert_eq!(scan_tokens("\"ab'"), vec![string_lit("ab")]);
}

#[test]
fn string_may_hold_whitespace_and_operators() {
    assert_eq!(scan_tokens("\"a + b;\""), vec![string_lit("a + b;")]);
}

#[test]
fn let_statement() {
    assert_eq!(
        scan_tokens("let x = 5;"),
        vec![ident("let"), ident("x"), Token::Equals, number_lit("5"), Token::SemiColon],
    );
}

#[test]
fn keywords_are_not_recognized() {
    // Keyword classification never happens: reserved words scan as plain
    // identifiers, and the Keyword variant is never produced.
    let produced = scan_tokens("function let const");
    assert_eq!(produced, vec![ident("function"), ident("let"), ident("const")]);
    let keyword = Token::Keyword { value: Keyword::Let };
    assert!(!produced.contains(&keyword));
}

#[test]
fn identifier_stops_at_digit() {
    assert_eq!(scan_tokens("foo123"), vec![ident("foo"), number_lit("123")]);
}

#[test]
fn digit_start_swallows_letters() {
    assert_eq!(scan_tokens("123foo"), vec![number_lit("123foo")]);
}

#[test]
fn plain_number() {
    assert_eq!(scan_tokens("42"), vec![number_lit("42")]);
}

#[test]
fn unrecognized_character_becomes_dot() {
    assert_eq!(scan_tokens("@"), vec![Token::Dot]);
    assert_eq!(scan_tokens("#"), vec![Token::Dot]);
    assert_eq!(scan_tokens("a@b"), vec![ident("a"), Token::Dot, ident("b")]);
}

#[test]
fn scanning_twice_is_identical() {
    let input = "function add(a, b) { return a + b; } 'done' 3x @";
    let first = scan_tokens(input);
    let second = scan_tokens(input);
    assert_eq!(first, second);
}

#[test]
fn next_token_pulls_one_token_per_call() {
    let mut lexer = Lexer::new("let x = 5;");
    assert_eq!(lexer.next_token(), Some(ident("let")));
    assert_eq!(lexer.next_token(), Some(ident("x")));
    assert_eq!(lexer.next_token(), Some(Token::Equals));
    assert_eq!(lexer.next_token(), Some(number_lit("5")));
    assert_eq!(lexer.next_token(), Some(Token::SemiColon));
    assert_eq!(lexer.next_token(), None);
    // Exhaustion is terminal.
    assert_eq!(lexer.next_token(), None);
}

#[test]
fn mixed_program_fragment() {
    assert_eq!(
        scan_tokens("function f(a) {\n  return a.b[0] - 'x';\n}"),
        vec![
            ident("function"),
            ident("f"),
            Token::LeftParens,
            ident("a"),
            Token::RightParens,
            Token::LeftCurly,
            ident("return"),
            ident("a"),
            Token::Dot,
            ident("b"),
            Token::LeftBracket,
            number_lit("0"),
            Token::RightBracket,
            Token::Minus,
            string_lit("x"),
            Token::SemiColon,
            Token::RightCurly,
        ],
    );
}
