use op_proc::parse::{parse_invocation, ParseError};
use op_proc::token::{Delimiter, Spacing, Token};

fn ident(s: &str) -> Token {
    Token::Ident { name: s.to_string(), raw: false }
}

fn punct(c: char) -> Token {
    Token::Punct { ch: c, spacing: Spacing::Alone }
}

fn lit(s: &str) -> Token {
    Token::Lit { text: s.to_string() }
}

fn brace(items: Vec<Token>) -> Token {
    Token::Group { delim: Delimiter::Brace, items }
}

fn body_tokens() -> Vec<Token> {
    vec![ident("x"), punct('+'), lit("1")]
}

fn count_invocation(count: &str) -> Vec<Token> {
    vec![lit(count), punct(','), ident("i"), punct(','), brace(vec![])]
}

#[test]
fn parse_ok_fields() {
    let tokens = vec![lit("3"), punct(','), ident("i"), punct(','), brace(body_tokens())];
    let inv = parse_invocation(&tokens).unwrap();
    assert_eq!(inv.count, 3);
    assert_eq!(inv.binder, "i".to_string());
    assert!(!inv.binder_raw);
    assert_eq!(inv.body, body_tokens());
}

#[test]
fn parse_ok_raw_binder() {
    let tokens = vec![
        lit("2"),
        punct(','),
        Token::Ident { name: "type".to_string(), raw: true },
        punct(','),
        brace(vec![]),
    ];
    let inv = parse_invocation(&tokens).unwrap();
    assert_eq!(inv.binder, "type".to_string());
    assert!(inv.binder_raw);
}

#[test]
fn parse_ok_zero_count() {
    let inv = parse_invocation(&count_invocation("0")).unwrap();
    assert_eq!(inv.count, 0);
    assert_eq!(inv.body, Vec::<Token>::new());
}

#[test]
fn parse_ok_max_count() {
    let max = usize::MAX.to_string();
    let inv = parse_invocation(&count_invocation(&max)).unwrap();
    assert_eq!(inv.count, usize::MAX);
}

#[test]
fn parse_ok_hex_count() {
    assert_eq!(parse_invocation(&count_invocation("0x10")).unwrap().count, 16);
}

#[test]
fn parse_ok_octal_count() {
    assert_eq!(parse_invocation(&count_invocation("0o17")).unwrap().count, 15);
}

#[test]
fn parse_ok_binary_count() {
    assert_eq!(parse_invocation(&count_invocation("0b101")).unwrap().count, 5);
}

#[test]
fn parse_ok_underscored_count() {
    assert_eq!(parse_invocation(&count_invocation("1_000")).unwrap().count, 1000);
}

#[test]
fn parse_ok_suffixed_count() {
    assert_eq!(parse_invocation(&count_invocation("3usize")).unwrap().count, 3);
    assert_eq!(parse_invocation(&count_invocation("0xFF_u32")).unwrap().count, 255);
}

#[test]
fn parse_empty_input() {
    let r = parse_invocation(&vec![]);
    assert_eq!(r.unwrap_err(), ParseError::ExpectedCount);
}

#[test]
fn parse_count_not_literal() {
    let tokens = vec![ident("n"), punct(','), ident("i"), punct(','), brace(vec![])];
    assert_eq!(parse_invocation(&tokens).unwrap_err(), ParseError::ExpectedCount);
}

#[test]
fn parse_negative_count() {
    let tokens = vec![punct('-'), lit("3"), punct(','), ident("i"), punct(','), brace(vec![])];
    assert_eq!(parse_invocation(&tokens).unwrap_err(), ParseError::NegativeCount);
}

#[test]
fn parse_count_not_integer() {
    assert_eq!(
        parse_invocation(&count_invocation("1.5")).unwrap_err(),
        ParseError::CountNotInteger
    );
}

#[test]
fn parse_count_float_forms_rejected() {
    assert_eq!(
        parse_invocation(&count_invocation("1e3")).unwrap_err(),
        ParseError::CountNotInteger
    );
    assert_eq!(
        parse_invocation(&count_invocation("1f32")).unwrap_err(),
        ParseError::CountNotInteger
    );
}

#[test]
fn parse_count_bare_prefix_rejected() {
    assert_eq!(
        parse_invocation(&count_invocation("0x")).unwrap_err(),
        ParseError::CountNotInteger
    );
}

#[test]
fn parse_count_empty_literal() {
    assert_eq!(
        parse_invocation(&count_invocation("")).unwrap_err(),
        ParseError::CountNotInteger
    );
}

#[test]
fn parse_count_too_large() {
    // one past the largest machine-sized integer
    assert_eq!(
        parse_invocation(&count_invocation("18446744073709551616")).unwrap_err(),
        ParseError::CountTooLarge
    );
}

#[test]
fn parse_grammar_checked_before_count_conversion() {
    // an over-large count with a missing body: the structural error wins
    let tokens = vec![lit("18446744073709551616"), punct(','), ident("i")];
    assert_eq!(
        parse_invocation(&tokens).unwrap_err(),
        ParseError::ExpectedCommaAfterBinder
    );
    // a negative count with a missing body: the structural error wins
    let tokens = vec![punct('-'), lit("3"), punct(','), ident("i"), punct(',')];
    assert_eq!(parse_invocation(&tokens).unwrap_err(), ParseError::ExpectedBody);
}

#[test]
fn parse_missing_first_comma() {
    let tokens = vec![lit("3"), ident("i"), punct(','), brace(vec![])];
    assert_eq!(
        parse_invocation(&tokens).unwrap_err(),
        ParseError::ExpectedCommaAfterCount
    );
}

#[test]
fn parse_input_ends_after_count() {
    let tokens = vec![lit("3")];
    assert_eq!(
        parse_invocation(&tokens).unwrap_err(),
        ParseError::ExpectedCommaAfterCount
    );
}

#[test]
fn parse_binder_not_identifier() {
    let tokens = vec![lit("3"), punct(','), lit("4"), punct(','), brace(vec![])];
    assert_eq!(parse_invocation(&tokens).unwrap_err(), ParseError::ExpectedBinder);
}

#[test]
fn parse_missing_second_comma() {
    let tokens = vec![lit("3"), punct(','), ident("i"), brace(vec![])];
    assert_eq!(
        parse_invocation(&tokens).unwrap_err(),
        ParseError::ExpectedCommaAfterBinder
    );
}

#[test]
fn parse_body_not_braced() {
    let tokens = vec![
        lit("3"),
        punct(','),
        ident("i"),
        punct(','),
        Token::Group { delim: Delimiter::Paren, items: vec![] },
    ];
    assert_eq!(parse_invocation(&tokens).unwrap_err(), ParseError::ExpectedBody);
}

#[test]
fn parse_missing_body() {
    let tokens = vec![lit("3"), punct(','), ident("i"), punct(',')];
    assert_eq!(parse_invocation(&tokens).unwrap_err(), ParseError::ExpectedBody);
}

#[test]
fn parse_trailing_tokens() {
    let tokens = vec![
        lit("3"),
        punct(','),
        ident("i"),
        punct(','),
        brace(vec![]),
        punct(','),
    ];
    assert_eq!(parse_invocation(&tokens).unwrap_err(), ParseError::UnexpectedToken);
}

#[test]
fn parse_error_message_is_not_empty() {
    assert!(ParseError::ExpectedCount.message().len() > 0);
    assert_eq!(
        ParseError::ExpectedCommaAfterCount.message(),
        "expected a comma after the count".to_string()
    );
}

#[test]
fn token_clone_keeps_shape() {
    let t = brace(vec![
        Token::Ident { name: "a".to_string(), raw: true },
        Token::Punct { ch: '=', spacing: Spacing::Joint },
        Token::Group { delim: Delimiter::Bracket, items: body_tokens() },
    ]);
    assert_eq!(t.clone(), t);
}
