use vstd::prelude::*;

use crate::text::str_eq;

verus! {

/// The native commands.  The dispatch table is fixed at build time and is
/// consulted before aliases and external programs, so a builtin shadows any
/// alias or program of the same name.
#[derive(Debug, Clone, Copy, PartialEq, Eq, Structural)]
pub enum Builtin {
    Exit,
    Echo,
    Alias,
    Export,
    Require,
    Cd,
    If,
}

/// Which builtin, if any, a resolved callee names.
pub open spec fn spec_builtin(name: Seq<char>) -> Option<Builtin> {
    if name == "exit"@ {
        Some(Builtin::Exit)
    } else if name == "echo"@ {
        Some(Builtin::Echo)
    } else if name == "alias"@ {
        Some(Builtin::Alias)
    } else if name == "export"@ {
        Some(Builtin::Export)
    } else if name == "require"@ {
        Some(Builtin::Require)
    } else if name == "cd"@ {
        Some(Builtin::Cd)
    } else if name == "if"@ {
        Some(Builtin::If)
    } else {
        None
    }
}

/// Looks a resolved callee up in the builtin table.
pub fn lookup_builtin(name: &str) -> (r: Option<Builtin>)
    ensures
        r == spec_builtin(name@),
{
    if str_eq(name, "exit") {
        Some(Builtin::Exit)
    } else if str_eq(name, "echo") {
        Some(Builtin::Echo)
    } else if str_eq(name, "alias") {
        Some(Builtin::Alias)
    } else if str_eq(name, "export") {
        Some(Builtin::Export)
    } else if str_eq(name, "require") {
        Some(Builtin::Require)
    } else if str_eq(name, "cd") {
        Some(Builtin::Cd)
    } else if str_eq(name, "if") {
        Some(Builtin::If)
    } else {
        None
    }
}

} // verus!
