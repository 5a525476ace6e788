use wsh::scanner::{Scanner, Token};

fn tokenize(input: &str) -> Vec<Token> {
    Scanner::new(input).scan_tokens().unwrap()
}

#[test]
fn test_scanner() {
    let tokens = tokenize("echo \"hello world\" | wc");
    assert_eq!(
        tokens,
        vec![
            Token::Literal("echo".to_owned()),
            Token::Literal("\"hello world\"".to_owned()),
            Token::Pipe,
            Token::Literal("wc".to_owned()),
            Token::Eof
        ]
    );

    let tokens = tokenize("ls -la");
    assert_eq!(
        tokens,
        vec![
            Token::Literal("ls".to_owned()),
            Token::Literal("-la".to_owned()),
            Token::Eof
        ]
    );

    let tokens = tokenize("echo \" this is | a $ test  \" | wc | wc");
    assert_eq!(
        tokens,
        vec![
            Token::Literal("echo".to_owned()),
            Token::Literal("\" this is | a $ test  \"".to_owned()),
            Token::Pipe,
            Token::Literal("wc".to_owned()),
            Token::Pipe,
            Token::Literal("wc".to_owned()),
            Token::Eof
        ]
    );
}

#[test]
#[should_panic]
fn test_scanner_panic() {
    let tokens = tokenize("ls -la *");
    assert_eq!(
        tokens,
        vec![
            Token::Literal("ls".to_owned()),
            Token::Literal("-la".to_owned()),
            Token::Eof
        ]
    );
}

fn lit(s: &str) -> Token {
    Token::Literal(s.to_owned())
}

#[test]
fn whitespace_only_lines_give_only_eof() {
    assert_eq!(tokenize(""), vec![Token::Eof]);
    assert_eq!(tokenize("   "), vec![Token::Eof]);
    assert_eq!(tokenize(" \t\n  \t"), vec![Token::Eof]);
}

#[test]
fn literal_safe_string_is_one_literal() {
    let s = "abc_-=./:{}\\*;9";
    assert_eq!(tokenize(s), vec![lit(s), Token::Eof]);
    assert_eq!(tokenize("x"), vec![lit("x"), Token::Eof]);
    assert_eq!(tokenize("café"), vec![lit("café"), Token::Eof]);
}

#[test]
fn reserved_characters_are_tokens_of_their_own() {
    assert_eq!(
        tokenize("a|b>c<d"),
        vec![
            lit("a"),
            Token::Pipe,
            lit("b"),
            Token::Greater,
            lit("c"),
            Token::Less,
            lit("d"),
            Token::Eof
        ]
    );
}

#[test]
fn bad_character_fails_the_line() {
    assert_eq!(
        Scanner::new("ls $x").scan_tokens(),
        Err("unexpected token: $".to_owned())
    );
    assert_eq!(
        Scanner::new("a & b").scan_tokens(),
        Err("unexpected token: &".to_owned())
    );
    assert_eq!(
        Scanner::new("ls#").scan_tokens(),
        Err("unexpected token: #".to_owned())
    );
    assert_eq!(
        Scanner::new("a\rb").scan_tokens(),
        Err("unexpected token: \r".to_owned())
    );
}

#[test]
fn quoted_text_may_hold_any_character() {
    assert_eq!(tokenize("\"$ & #\""), vec![lit("\"$ & #\""), Token::Eof]);
}

#[test]
fn unterminated_quote_runs_to_end_of_line() {
    assert_eq!(
        tokenize("echo \"abc d"),
        vec![lit("echo"), lit("\"abc d"), Token::Eof]
    );
}

#[test]
fn quote_after_word_starts_a_new_literal() {
    assert_eq!(
        tokenize("a\"b c\"d"),
        vec![lit("a"), lit("\"b c\""), lit("d"), Token::Eof]
    );
}

#[test]
fn second_scan_gives_only_eof() {
    let mut sc = Scanner::new("ls");
    assert_eq!(sc.scan_tokens(), Ok(vec![lit("ls"), Token::Eof]));
    assert_eq!(sc.scan_tokens(), Ok(vec![Token::Eof]));
}

#[test]
fn bad_character_after_quoted_text_fails() {
    assert_eq!(
        Scanner::new("echo \"$\" $").scan_tokens(),
        Err("unexpected token: $".to_owned())
    );
    assert_eq!(
        Scanner::new("echo \"$\" x").scan_tokens(),
        Ok(vec![lit("echo"), lit("\"$\""), lit("x"), Token::Eof])
    );
}
