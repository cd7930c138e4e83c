use sheesh::command::{parse, Command, Value};
use sheesh::token::{tokenize, Token, TokenKind};

fn commands_of(input: &str) -> Vec<Command> {
    let toks = tokenize(String::from(input)).expect("tokenization should succeed");
    parse(toks).expect("assembly always succeeds")
}

fn plain_text(v: &Value) -> &str {
    match v {
        Value::PlainText(_, s) => s.as_str(),
        _ => panic!("expected plain text"),
    }
}

#[test]
fn asm_two_statements_split_on_semicolon() {
    let cmds = commands_of("echo a b; echo c");
    assert_eq!(cmds.len(), 2);
    assert_eq!(plain_text(&cmds[0].callee), "echo");
    assert_eq!(cmds[0].args.len(), 2);
    assert_eq!(plain_text(&cmds[0].args[0]), "a");
    assert_eq!(plain_text(&cmds[0].args[1]), "b");
    assert!(!cmds[0].is_in_background());
    assert_eq!(plain_text(&cmds[1].callee), "echo");
    assert_eq!(cmds[1].args.len(), 1);
    assert_eq!(plain_text(&cmds[1].args[0]), "c");
}

#[test]
fn asm_newline_also_ends_a_statement() {
    let cmds = commands_of("a\nb");
    assert_eq!(cmds.len(), 2);
    assert_eq!(plain_text(&cmds[0].callee), "a");
    assert_eq!(plain_text(&cmds[1].callee), "b");
}

#[test]
fn asm_blank_lines_are_skipped() {
    let cmds = commands_of("\n\na\n\n\nb\n");
    assert_eq!(cmds.len(), 2);
}

#[test]
fn asm_background_marker_sets_the_flag() {
    let cmds = commands_of("sleep 5 &");
    assert_eq!(cmds.len(), 1);
    assert!(cmds[0].is_in_background());
    assert_eq!(cmds[0].args.len(), 1);
}

#[test]
fn asm_empty_input_yields_no_commands() {
    assert_eq!(commands_of("").len(), 0);
    assert_eq!(commands_of("\n\n").len(), 0);
}

#[test]
fn asm_string_and_variable_arguments_keep_their_shape() {
    let cmds = commands_of("echo 'q' $V plain");
    assert_eq!(cmds.len(), 1);
    assert!(matches!(&cmds[0].args[0], Value::String(s) if s == "'q'"));
    assert!(matches!(&cmds[0].args[1], Value::Variable(n) if n == "V"));
    assert!(matches!(&cmds[0].args[2], Value::PlainText(TokenKind::GENERIC, s) if s == "plain"));
}

#[test]
fn asm_combine_appends_call_site_args_after_template_args() {
    let cmds = commands_of("echo hi");
    let mut template = cmds.into_iter().next().unwrap();
    let call_site = commands_of("greet there").into_iter().next().unwrap();
    template.combine(&call_site);
    assert_eq!(template.args.len(), 2);
    assert_eq!(plain_text(&template.args[0]), "hi");
    assert_eq!(plain_text(&template.args[1]), "there");
    assert_eq!(plain_text(&template.callee), "echo");
}

#[test]
fn asm_is_keyword_matches_bare_callee_text() {
    let cmds = commands_of("else\nend x\n'end'");
    assert!(cmds[0].is_keyword("else"));
    assert!(!cmds[0].is_keyword("end"));
    assert!(cmds[1].is_keyword("end"));
    assert!(!cmds[2].is_keyword("end"));
}

#[test]
fn asm_token_accessors_round_trip() {
    let t = Token::new(TokenKind::GENERIC, String::from("word"));
    assert_eq!(t.get_kind(), TokenKind::GENERIC);
    assert_eq!(t.kind(), TokenKind::GENERIC);
    assert_eq!(t.get_val(), "word");
    assert_eq!(t.value(), "word");
}

#[test]
fn asm_operator_tokens_become_inert_plain_values() {
    let cmds = commands_of("echo a && b");
    assert_eq!(cmds.len(), 1);
    assert_eq!(cmds[0].args.len(), 3);
    assert!(matches!(&cmds[0].args[1], Value::PlainText(TokenKind::AND, s) if s == "&&"));
}
