use sheesh::environment::Environment;
use sheesh::evaluate::{Action, Evaluation, Event, Step};
use sheesh::shell::{execute, Error};

/// Steps the machine until it settles on something other than `Working`.
fn settle(m: &mut Evaluation) -> Step {
    let mut budget = 100000;
    loop {
        match m.step() {
            Step::Working => {
                budget -= 1;
                if budget == 0 {
                    panic!("machine did not settle");
                }
            },
            other => return other,
        }
    }
}

/// Runs an input that must need no outside work at all, returning the final
/// status and the (err, text) output lines.
fn run_pure(input: &str, env: Environment) -> (Result<i32, Error>, Vec<(bool, String)>, Environment) {
    let mut m = execute(String::from(input), env);
    let outcome = match settle(&mut m) {
        Step::Done(code) => Ok(code),
        Step::Fail(e) => Err(e),
        Step::Perform(_) => panic!("unexpected outside action"),
        Step::Working => unreachable!(),
    };
    let lines = m.take_output().into_iter().map(|l| (l.err, l.text)).collect();
    (outcome, lines, m.into_env())
}

fn empty_env() -> Environment {
    Environment::new_empty(None)
}

#[test]
fn eval_echo_prints_space_joined_arguments() {
    let (r, out, _) = run_pure("echo a b", empty_env());
    assert_eq!(r.unwrap(), 0);
    assert_eq!(out, vec![(false, String::from("a b"))]);
}

#[test]
fn eval_quoting_round_trips_through_echo() {
    let (r, out, _) = run_pure("echo 'x'\necho \"hello world\"", empty_env());
    assert_eq!(r.unwrap(), 0);
    assert_eq!(
        out,
        vec![(false, String::from("x")), (false, String::from("hello world"))]
    );
}

#[test]
fn eval_export_then_echo_reads_the_binding() {
    let (r, out, _) = run_pure("export FOO = bar\necho $FOO", empty_env());
    assert_eq!(r.unwrap(), 0);
    assert_eq!(out, vec![(false, String::from("bar"))]);
}

#[test]
fn eval_unbound_variable_resolves_to_empty_text() {
    let (r, out, _) = run_pure("echo $NOPE", empty_env());
    assert_eq!(r.unwrap(), 0);
    assert_eq!(out, vec![(false, String::from(""))]);
}

#[test]
fn eval_alias_appends_call_site_arguments() {
    let (r, out, _) = run_pure("alias greet = echo hi\ngreet there", empty_env());
    assert_eq!(r.unwrap(), 0);
    assert_eq!(out, vec![(false, String::from("hi there"))]);
}

#[test]
fn eval_exit_with_number_is_early_exit() {
    let (r, out, _) = run_pure("exit 7", empty_env());
    assert!(matches!(r, Err(Error::EarlyExit(7))));
    assert!(out.is_empty());
}

#[test]
fn eval_exit_with_word_diagnoses_and_exits_2() {
    let (r, out, _) = run_pure("exit abc", empty_env());
    assert!(matches!(r, Err(Error::EarlyExit(2))));
    assert_eq!(out, vec![(true, String::from("exit: abc: numeric argument required"))]);
}

#[test]
fn eval_exit_with_signed_number() {
    let (r, _, _) = run_pure("exit +5", empty_env());
    assert!(matches!(r, Err(Error::EarlyExit(5))));
    let (r2, _, _) = run_pure("exit -3", empty_env());
    assert!(matches!(r2, Err(Error::EarlyExit(-3))));
}

#[test]
fn eval_exit_with_huge_number_diagnoses_and_exits_2() {
    let (r, out, _) = run_pure("exit 99999999999", empty_env());
    assert!(matches!(r, Err(Error::EarlyExit(2))));
    assert_eq!(out.len(), 1);
}

#[test]
fn eval_exit_with_extra_arguments_is_soft_status_1() {
    let (r, out, _) = run_pure("exit 1 2", empty_env());
    assert_eq!(r.unwrap(), 1);
    assert_eq!(out, vec![(true, String::from("exit: too many arguments"))]);
}

#[test]
fn eval_syntax_error_produces_zero_commands() {
    let env = empty_env();
    let mut m = execute(String::from("echo \"abc"), env);
    assert_eq!(m.stack.len(), 0);
    match settle(&mut m) {
        Step::Fail(Error::SyntaxError(_)) => {},
        _ => panic!("expected a syntax error"),
    }
    assert!(m.take_output().is_empty());
}

#[test]
fn eval_if_runs_else_when_condition_fails() {
    let env = empty_env();
    let mut m = execute(String::from("if false; echo yes; else; echo no; end"), env);
    let step = settle(&mut m);
    match step {
        Step::Perform(Action::Spawn { program, background, .. }) => {
            assert_eq!(program, "false");
            assert!(!background);
        },
        _ => panic!("expected a spawn of the condition"),
    }
    m.resume(Event::Spawned { status: 1 });
    match settle(&mut m) {
        Step::Done(code) => assert_eq!(code, 1),
        _ => panic!("expected completion"),
    }
    let out: Vec<(bool, String)> = m.take_output().into_iter().map(|l| (l.err, l.text)).collect();
    assert_eq!(out, vec![(false, String::from("no"))]);
}

#[test]
fn eval_if_runs_then_branch_and_returns_condition_status() {
    let env = empty_env();
    let mut m = execute(String::from("if true; echo yes; else; echo no; end"), env);
    match settle(&mut m) {
        Step::Perform(Action::Spawn { program, .. }) => assert_eq!(program, "true"),
        _ => panic!("expected a spawn of the condition"),
    }
    m.resume(Event::Spawned { status: 0 });
    match settle(&mut m) {
        Step::Done(code) => assert_eq!(code, 0),
        _ => panic!("expected completion"),
    }
    let out: Vec<(bool, String)> = m.take_output().into_iter().map(|l| (l.err, l.text)).collect();
    assert_eq!(out, vec![(false, String::from("yes"))]);
}

#[test]
fn eval_if_without_end_is_a_diagnostic_and_status_2() {
    let (r, out, _) = run_pure("if true; echo x", empty_env());
    assert_eq!(r.unwrap(), 2);
    assert_eq!(out, vec![(true, String::from("if: no end statement received"))]);
}

#[test]
fn eval_if_without_arguments_is_a_hard_arity_error() {
    let (r, _, _) = run_pure("if", empty_env());
    assert!(matches!(r, Err(Error::WrongNumOfArgs("if", 1, 0))));
}

#[test]
fn eval_cd_without_home_diagnoses_status_2_and_continues() {
    let (r, out, _) = run_pure("cd\necho ok", empty_env());
    assert_eq!(r.unwrap(), 0);
    assert_eq!(
        out,
        vec![
            (true, String::from("cd: $HOME environment variable not set.")),
            (false, String::from("ok")),
        ]
    );
}

#[test]
fn eval_cd_uses_home_when_set() {
    let mut env = empty_env();
    env.add_var(String::from("HOME"), String::from("/home/me"));
    let mut m = execute(String::from("cd"), env);
    match settle(&mut m) {
        Step::Perform(Action::ChangeDir { path }) => assert_eq!(path, "/home/me"),
        _ => panic!("expected a directory change"),
    }
    m.resume(Event::DirChanged);
    assert!(matches!(settle(&mut m), Step::Done(0)));
}

#[test]
fn eval_cd_failure_is_a_diagnostic_and_status_1() {
    let env = empty_env();
    let mut m = execute(String::from("cd /nope"), env);
    match settle(&mut m) {
        Step::Perform(Action::ChangeDir { path }) => assert_eq!(path, "/nope"),
        _ => panic!("expected a directory change"),
    }
    m.resume(Event::DirFailed { message: String::from("no such directory") });
    assert!(matches!(settle(&mut m), Step::Done(1)));
    let out: Vec<(bool, String)> = m.take_output().into_iter().map(|l| (l.err, l.text)).collect();
    assert_eq!(out, vec![(true, String::from("cd: no such directory"))]);
}

#[test]
fn eval_cd_with_extra_arguments_is_status_2() {
    let (r, out, _) = run_pure("cd a b", empty_env());
    assert_eq!(r.unwrap(), 2);
    assert_eq!(out, vec![(true, String::from("cd: too many arguments"))]);
}

#[test]
fn eval_external_spawn_reports_resolved_arguments() {
    let mut env = empty_env();
    env.add_var(String::from("W"), String::from("world"));
    let mut m = execute(String::from("printit 'a b' $W plain"), env);
    match settle(&mut m) {
        Step::Perform(Action::Spawn { program, args, background }) => {
            assert_eq!(program, "printit");
            assert_eq!(args, vec!["a b", "world", "plain"]);
            assert!(!background);
        },
        _ => panic!("expected a spawn"),
    }
    m.resume(Event::Spawned { status: 3 });
    assert!(matches!(settle(&mut m), Step::Done(3)));
}

#[test]
fn eval_spawn_failure_is_command_not_found() {
    let env = empty_env();
    let mut m = execute(String::from("nonesuch"), env);
    match settle(&mut m) {
        Step::Perform(Action::Spawn { .. }) => {},
        _ => panic!("expected a spawn"),
    }
    m.resume(Event::SpawnFailed { message: String::from("no such program") });
    match settle(&mut m) {
        Step::Fail(Error::CommandNotFound(msg)) => assert_eq!(msg, "no such program"),
        _ => panic!("expected command-not-found"),
    }
}

#[test]
fn eval_signaled_child_reports_signal_as_status() {
    let env = empty_env();
    let mut m = execute(String::from("crashy"), env);
    match settle(&mut m) {
        Step::Perform(Action::Spawn { .. }) => {},
        _ => panic!("expected a spawn"),
    }
    m.resume(Event::Signaled { signal: 9 });
    assert!(matches!(settle(&mut m), Step::Done(9)));
    let out: Vec<(bool, String)> = m.take_output().into_iter().map(|l| (l.err, l.text)).collect();
    assert_eq!(out, vec![(true, String::from("sheesh: 9 in `crashy`"))]);
}

#[test]
fn eval_require_runs_the_script_in_the_same_environment() {
    let env = empty_env();
    let mut m = execute(String::from("require lib.sh\necho $FOO"), env);
    match settle(&mut m) {
        Step::Perform(Action::ReadScript { path }) => assert_eq!(path, "lib.sh"),
        _ => panic!("expected a script read"),
    }
    m.resume(Event::ScriptText { text: String::from("export FOO = inner\necho loaded") });
    assert!(matches!(settle(&mut m), Step::Done(0)));
    let out: Vec<(bool, String)> = m.take_output().into_iter().map(|l| (l.err, l.text)).collect();
    assert_eq!(
        out,
        vec![(false, String::from("loaded")), (false, String::from("inner"))]
    );
}

#[test]
fn eval_require_read_failure_is_a_hard_error() {
    let env = empty_env();
    let mut m = execute(String::from("require gone.sh"), env);
    match settle(&mut m) {
        Step::Perform(Action::ReadScript { .. }) => {},
        _ => panic!("expected a script read"),
    }
    m.resume(Event::ScriptFailed { message: String::from("not found") });
    match settle(&mut m) {
        Step::Fail(Error::ReadFile(path, msg)) => {
            assert_eq!(path, "gone.sh");
            assert_eq!(msg, "not found");
        },
        _ => panic!("expected a read-file error"),
    }
}

#[test]
fn eval_require_with_wrong_arity_is_status_2() {
    let (r, out, _) = run_pure("require a b", empty_env());
    assert_eq!(r.unwrap(), 2);
    assert_eq!(out.len(), 1);
    assert!(out[0].0);
}

#[test]
fn eval_alias_malformed_is_status_2() {
    let (r, out, _) = run_pure("alias g echo hi", empty_env());
    assert_eq!(r.unwrap(), 2);
    assert_eq!(out.len(), 1);
    assert!(out[0].0);
}

#[test]
fn eval_export_malformed_is_status_2() {
    let (r, out, _) = run_pure("export FOO bar", empty_env());
    assert_eq!(r.unwrap(), 2);
    assert_eq!(out.len(), 1);
    assert!(out[0].0);
}

#[test]
fn eval_operator_arguments_are_functionally_inert() {
    let (r, out, _) = run_pure("echo a && b", empty_env());
    assert_eq!(r.unwrap(), 0);
    assert_eq!(out, vec![(false, String::from("a && b"))]);
}

#[test]
fn eval_empty_input_finishes_with_status_0() {
    let (r, out, _) = run_pure("", empty_env());
    assert_eq!(r.unwrap(), 0);
    assert!(out.is_empty());
}

#[test]
fn eval_hard_error_aborts_the_remaining_sequence() {
    let (r, out, _) = run_pure("exit 4\necho after", empty_env());
    assert!(matches!(r, Err(Error::EarlyExit(4))));
    assert!(out.is_empty());
}

#[test]
fn eval_environment_scopes_read_through_to_outer() {
    let mut root = empty_env();
    root.add_var(String::from("A"), String::from("outer"));
    let child = Environment::new_empty(Some(Box::new(root)));
    let (r, out, _) = run_pure("echo $A", child);
    assert_eq!(r.unwrap(), 0);
    assert_eq!(out, vec![(false, String::from("outer"))]);
}

#[test]
fn eval_export_shadows_in_innermost_scope() {
    let mut root = empty_env();
    root.add_var(String::from("A"), String::from("outer"));
    let child = Environment::new_empty(Some(Box::new(root)));
    let (r, out, _) = run_pure("export A = inner\necho $A", child);
    assert_eq!(r.unwrap(), 0);
    assert_eq!(out, vec![(false, String::from("inner"))]);
}

#[test]
fn eval_last_status_threads_through_the_sequence() {
    let env = empty_env();
    let mut m = execute(String::from("prog1\nprog2"), env);
    assert!(matches!(settle(&mut m), Step::Perform(Action::Spawn { .. })));
    m.resume(Event::Spawned { status: 5 });
    assert!(matches!(settle(&mut m), Step::Perform(Action::Spawn { .. })));
    m.resume(Event::Spawned { status: 0 });
    assert!(matches!(settle(&mut m), Step::Done(0)));
}

#[test]
fn eval_if_blocks_do_not_open_a_new_scope() {
    let env = empty_env();
    let mut m = execute(String::from("if true; export X = v; end\necho $X"), env);
    match settle(&mut m) {
        Step::Perform(Action::Spawn { program, .. }) => assert_eq!(program, "true"),
        _ => panic!("expected a spawn of the condition"),
    }
    m.resume(Event::Spawned { status: 0 });
    assert!(matches!(settle(&mut m), Step::Done(0)));
    let out: Vec<(bool, String)> = m.take_output().into_iter().map(|l| (l.err, l.text)).collect();
    assert_eq!(out, vec![(false, String::from("v"))]);
}

#[test]
fn eval_exit_unwinds_out_of_a_required_script() {
    let env = empty_env();
    let mut m = execute(String::from("require quit.sh\necho never"), env);
    match settle(&mut m) {
        Step::Perform(Action::ReadScript { .. }) => {},
        _ => panic!("expected a script read"),
    }
    m.resume(Event::ScriptText { text: String::from("exit 3") });
    assert!(matches!(settle(&mut m), Step::Fail(Error::EarlyExit(3))));
    assert!(m.take_output().is_empty());
}

#[test]
fn eval_background_flag_reaches_the_spawn() {
    let env = empty_env();
    let mut m = execute(String::from("serve &"), env);
    match settle(&mut m) {
        Step::Perform(Action::Spawn { program, background, .. }) => {
            assert_eq!(program, "serve");
            assert!(background);
        },
        _ => panic!("expected a spawn"),
    }
}
