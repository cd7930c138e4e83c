use vstd::prelude::*;

use crate::command::{command_models, parse, spec_assemble};
use crate::environment::Environment;
use crate::evaluate::{evaluate, Evaluation, Frame, Mode};
use crate::token::{spec_tokens, tokenize};

verus! {

/// The failures that abort an evaluation sequence.  Builtins prefer soft
/// failure (a diagnostic line plus a small nonzero status); these errors are
/// reserved for unrecoverable conditions and unwind to the script or prompt
/// boundary that started the evaluation.
#[derive(Debug)]
pub enum Error {
    /// A script could not be read: the path and the host's message.
    ReadFile(String, String),
    /// Tokenization failed; no partial token stream is produced.
    SyntaxError(&'static str),
    /// Spawning an external program failed.
    CommandNotFound(String),
    /// A structural arity violation surfaced as a hard error:
    /// the command's name, how many arguments it expects, how many it got.
    WrongNumOfArgs(&'static str, usize, usize),
    /// Intentional non-local termination with the given status.
    EarlyExit(i32),
}

/// The whole front end in one call: tokenizes the input, assembles the
/// commands, and starts an evaluation machine over them against the given
/// environment.  An unterminated quote fails the whole call — the machine
/// starts in its failed state with zero commands and reports the syntax
/// error on its first step.
pub fn execute(input: String, env: Environment) -> (m: Evaluation)
    ensures
        m.wf(),
        m.env == env,
        m.output@.len() == 0,
        match spec_tokens(input@, 0) {
            None => m.stack@.len() == 0 && (m.mode matches Mode::Failed(Error::SyntaxError(_))),
            Some(toks) => {
                &&& m.stack@.len() == 1
                &&& match m.stack@[0] {
                    Frame::Script { commands, cursor, last } => command_models(commands@)
                        == spec_assemble(toks, 0) && cursor == 0 && last == 0,
                    _ => false,
                }
                &&& m.mode == Mode::Fetch
            },
        },
{
    match tokenize(input) {
        Err(e) => Evaluation {
            stack: Vec::new(),
            env,
            output: Vec::new(),
            mode: Mode::Failed(e),
        },
        Ok(tokens) => match parse(tokens) {
            Ok(commands) => evaluate(commands, env),
            Err(_) => vstd::pervasive::unreached(),
        },
    }
}

/// The message printed for an error that reached a script or prompt
/// boundary.
pub open spec fn spec_describe(e: Error) -> Seq<char> {
    match e {
        Error::ReadFile(path, msg) => "Error reading file \""@ + path@ + "\": "@ + msg@,
        Error::SyntaxError(msg) => "Syntax error: "@ + msg@,
        Error::CommandNotFound(msg) => "Command not found: "@ + msg@,
        Error::WrongNumOfArgs(name, expected, got) => name@ + ": expect "@ + crate::text::dec_rep(
            expected as int,
        ) + " arguments, got "@ + crate::text::dec_rep(got as int),
        Error::EarlyExit(code) => "Process exited with code "@ + crate::text::spec_i32_text(
            code as int,
        ) + "."@,
    }
}

impl Error {
    /// Renders this error as the line the host prints.
    pub fn describe(&self) -> (r: String)
        ensures
            r@ == spec_describe(*self),
    {
        let mut s = String::new();
        match self {
            Error::ReadFile(path, msg) => {
                s.append("Error reading file \"");
                s.append(path.as_str());
                s.append("\": ");
                s.append(msg.as_str());
            },
            Error::SyntaxError(msg) => {
                s.append("Syntax error: ");
                s.append(msg);
            },
            Error::CommandNotFound(msg) => {
                s.append("Command not found: ");
                s.append(msg.as_str());
            },
            Error::WrongNumOfArgs(name, expected, got) => {
                s.append(name);
                s.append(": expect ");
                s.append(crate::text::u64_text(*expected as u64).as_str());
                s.append(" arguments, got ");
                s.append(crate::text::u64_text(*got as u64).as_str());
            },
            Error::EarlyExit(code) => {
                s.append("Process exited with code ");
                s.append(crate::text::i32_text(*code).as_str());
                s.append(".");
            },
        }
        proof {
            assert(s@ =~= spec_describe(*self));
        }
        s
    }
}

impl Clone for Error {
    fn clone(&self) -> (res: Self)
        ensures
            res == *self,
    {
        match self {
            Error::ReadFile(path, msg) => Error::ReadFile(path.clone(), msg.clone()),
            Error::SyntaxError(msg) => Error::SyntaxError(msg),
            Error::CommandNotFound(msg) => Error::CommandNotFound(msg.clone()),
            Error::WrongNumOfArgs(name, expected, got) => {
                Error::WrongNumOfArgs(name, *expected, *got)
            }
            Error::EarlyExit(code) => Error::EarlyExit(*code),
        }
    }
}

} // verus!
