use sheesh::shell::Error;
use sheesh::token::{tokenize, Token, TokenKind};

fn kinds_of(input: &str) -> Vec<TokenKind> {
    tokenize(String::from(input))
        .expect("tokenization should succeed")
        .iter()
        .map(|t| t.kind())
        .collect()
}

fn values_of(input: &str) -> Vec<String> {
    tokenize(String::from(input))
        .expect("tokenization should succeed")
        .iter()
        .map(|t| t.value().clone())
        .collect()
}

#[test]
fn tok_single_quoted_string_is_one_token() {
    let toks = tokenize(String::from("'x'")).unwrap();
    assert_eq!(toks.len(), 2);
    assert_eq!(toks[0].kind(), TokenKind::STRING);
    assert_eq!(toks[0].value(), "'x'");
    assert_eq!(toks[1].kind(), TokenKind::EOF);
}

#[test]
fn tok_double_quoted_string_is_one_token() {
    let toks = tokenize(String::from("\"x\"")).unwrap();
    assert_eq!(toks.len(), 2);
    assert_eq!(toks[0].kind(), TokenKind::STRING);
    assert_eq!(toks[0].value(), "\"x\"");
}

#[test]
fn tok_unterminated_quote_is_syntax_error() {
    let r = tokenize(String::from("echo \"abc"));
    assert!(matches!(r, Err(Error::SyntaxError(_))));
}

#[test]
fn tok_standalone_operators_are_distinct() {
    assert_eq!(kinds_of("&"), vec![TokenKind::BGPROCESS, TokenKind::EOF]);
    assert_eq!(kinds_of("&&"), vec![TokenKind::AND, TokenKind::EOF]);
    assert_eq!(kinds_of("|"), vec![TokenKind::PIPE, TokenKind::EOF]);
    assert_eq!(kinds_of("||"), vec![TokenKind::OR, TokenKind::EOF]);
    assert_eq!(kinds_of("<"), vec![TokenKind::INSTREAM, TokenKind::EOF]);
    assert_eq!(kinds_of(">"), vec![TokenKind::OUTSTREAM, TokenKind::EOF]);
}

#[test]
fn tok_odd_punctuation_does_not_split_a_word() {
    let toks = tokenize(String::from("a,b(c)")).unwrap();
    assert_eq!(toks.len(), 2);
    assert_eq!(toks[0].kind(), TokenKind::GENERIC);
    assert_eq!(toks[0].value(), "a,b(c)");
}

#[test]
fn tok_escaped_operator_does_not_split_a_word() {
    let toks = tokenize(String::from("a\\&b")).unwrap();
    assert_eq!(toks.len(), 2);
    assert_eq!(toks[0].kind(), TokenKind::GENERIC);
    assert_eq!(toks[0].value(), "a\\&b");
}

#[test]
fn tok_escaped_space_does_not_end_a_word() {
    let toks = tokenize(String::from("a\\ b")).unwrap();
    assert_eq!(toks.len(), 2);
    assert_eq!(toks[0].kind(), TokenKind::GENERIC);
    assert_eq!(toks[0].value(), "a\\ b");
}

#[test]
fn tok_variable_token_keeps_its_sigil() {
    let toks = tokenize(String::from("$HOME")).unwrap();
    assert_eq!(toks[0].kind(), TokenKind::VARIABLE);
    assert_eq!(toks[0].value(), "$HOME");
}

#[test]
fn tok_words_split_on_whitespace_and_symbols() {
    assert_eq!(
        kinds_of("echo a=b"),
        vec![
            TokenKind::GENERIC,
            TokenKind::GENERIC,
            TokenKind::ASSIGN,
            TokenKind::GENERIC,
            TokenKind::EOF,
        ]
    );
    assert_eq!(values_of("ab&&cd"), vec!["ab", "&&", "cd", ""]);
}

#[test]
fn tok_newline_is_significant() {
    assert_eq!(
        kinds_of("a\nb"),
        vec![TokenKind::GENERIC, TokenKind::NEWLINE, TokenKind::GENERIC, TokenKind::EOF]
    );
}

#[test]
fn tok_comment_runs_to_end_of_line() {
    assert_eq!(
        kinds_of("a # none of this\nb"),
        vec![TokenKind::GENERIC, TokenKind::NEWLINE, TokenKind::GENERIC, TokenKind::EOF]
    );
}

#[test]
fn tok_empty_input_is_just_eof() {
    assert_eq!(kinds_of(""), vec![TokenKind::EOF]);
    assert_eq!(kinds_of("   \t \r"), vec![TokenKind::EOF]);
}

#[test]
fn tok_get_token_scans_the_leading_token() {
    let t = Token::get_token(String::from("word rest")).unwrap();
    assert_eq!(t.kind(), TokenKind::GENERIC);
    assert_eq!(t.value(), "word");
    let t2 = Token::get_token(String::from("")).unwrap();
    assert_eq!(t2.kind(), TokenKind::EOF);
    assert!(matches!(Token::get_token(String::from("'open")), Err(Error::SyntaxError(_))));
}

#[test]
fn tok_quotes_may_hold_spaces_and_symbols() {
    let toks = tokenize(String::from("'a ; b | c'")).unwrap();
    assert_eq!(toks.len(), 2);
    assert_eq!(toks[0].kind(), TokenKind::STRING);
    assert_eq!(toks[0].value(), "'a ; b | c'");
}
