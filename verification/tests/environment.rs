use sheesh::command::{parse, Value};
use sheesh::environment::{Environment, Identifier, Variable};
use sheesh::shell::Error;
use sheesh::token::tokenize;

fn root_env() -> Environment {
    Environment::new_empty(None)
}

#[test]
fn env_add_then_find_var() {
    let mut env = root_env();
    env.add_var(String::from("A"), String::from("1"));
    let v = env.find_var(&String::from("A")).expect("bound");
    assert_eq!(v.value(), "1");
    assert!(env.find_var(&String::from("B")).is_none());
}

#[test]
fn env_later_binding_shadows_earlier() {
    let mut env = root_env();
    env.add_var(String::from("A"), String::from("old"));
    env.add_var(String::from("A"), String::from("new"));
    assert_eq!(env.find_var(&String::from("A")).unwrap().value(), "new");
}

#[test]
fn env_reads_fall_through_to_outer_scope() {
    let mut root = root_env();
    root.add_var(String::from("A"), String::from("outer"));
    let env = Environment::new_empty(Some(Box::new(root)));
    assert_eq!(env.find_var(&String::from("A")).unwrap().value(), "outer");
}

#[test]
fn env_writes_stay_in_the_inner_scope() {
    let mut root = root_env();
    root.add_var(String::from("A"), String::from("outer"));
    let mut env = Environment::new_empty(Some(Box::new(root)));
    env.add_var(String::from("A"), String::from("inner"));
    assert_eq!(env.find_var(&String::from("A")).unwrap().value(), "inner");
    let outer = env.outer.as_ref().unwrap();
    assert_eq!(outer.find_var(&String::from("A")).unwrap().value(), "outer");
}

#[test]
fn env_variables_and_identifiers_are_separate_namespaces() {
    let toks = tokenize(String::from("echo hi")).unwrap();
    let template = parse(toks).unwrap().into_iter().next().unwrap();
    let mut env = root_env();
    env.add_ident(String::from("greet"), Identifier::Alias { substitute: template });
    assert!(env.find_ident(&String::from("greet")).is_some());
    assert!(env.find_var(&String::from("greet")).is_none());
    env.add_var(String::from("greet"), String::from("text"));
    assert!(env.find_ident(&String::from("greet")).is_some());
    let Identifier::Alias { substitute } = env.find_ident(&String::from("greet")).unwrap();
    assert!(matches!(&substitute.callee, Value::PlainText(_, s) if s == "echo"));
}

#[test]
fn env_variable_struct_hands_out_its_text() {
    let v = Variable { value: String::from("abc") };
    assert_eq!(v.value(), "abc");
}

#[test]
fn env_error_messages_match_the_boundary_format() {
    assert_eq!(
        Error::ReadFile(String::from("a.sh"), String::from("gone")).describe(),
        "Error reading file \"a.sh\": gone"
    );
    assert_eq!(
        Error::CommandNotFound(String::from("nope")).describe(),
        "Command not found: nope"
    );
    assert_eq!(
        Error::WrongNumOfArgs("if", 1, 0).describe(),
        "if: expect 1 arguments, got 0"
    );
    assert_eq!(Error::EarlyExit(-12).describe(), "Process exited with code -12.");
    assert_eq!(Error::EarlyExit(250).describe(), "Process exited with code 250.");
}
