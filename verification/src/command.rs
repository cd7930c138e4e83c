use vstd::prelude::*;
use vstd::string::*;

use crate::shell::Error;
use crate::text::str_eq;
use crate::token::{models_of, Token, TokenKind, TokenModel};

verus! {

/// A not-yet-resolved argument: plain text, a quoted string, or a variable
/// reference with its sigil stripped.  It is resolved to text lazily, at
/// evaluation time, never at parse time.
#[derive(Debug)]
pub enum Value {
    PlainText(TokenKind, String),
    String(String),
    Variable(String),
}

/// The mathematical image of a `Value`.
#[verifier::ext_equal]
pub enum ValueModel {
    PlainText(TokenKind, Seq<char>),
    StringLit(Seq<char>),
    Variable(Seq<char>),
}

impl View for Value {
    type V = ValueModel;

    open spec fn view(&self) -> ValueModel {
        match self {
            Value::PlainText(k, s) => ValueModel::PlainText(*k, s@),
            Value::String(s) => ValueModel::StringLit(s@),
            Value::Variable(s) => ValueModel::Variable(s@),
        }
    }
}

impl Clone for Value {
    fn clone(&self) -> (res: Self)
        ensures
            res == *self,
    {
        match self {
            Value::PlainText(k, s) => Value::PlainText(*k, s.clone()),
            Value::String(s) => Value::String(s.clone()),
            Value::Variable(s) => Value::Variable(s.clone()),
        }
    }
}

/// A variable token's text without its leading `$`.
pub open spec fn strip_sigil(text: Seq<char>) -> Seq<char> {
    if text.len() >= 1 {
        text.skip(1)
    } else {
        text
    }
}

/// How a token becomes a value: quoted text keeps its quotes for now, a
/// variable keeps only its name, anything else is carried verbatim.
pub open spec fn spec_parse_value(t: TokenModel) -> ValueModel {
    if t.kind == TokenKind::STRING {
        ValueModel::StringLit(t.text)
    } else if t.kind == TokenKind::VARIABLE {
        ValueModel::Variable(strip_sigil(t.text))
    } else {
        ValueModel::PlainText(t.kind, t.text)
    }
}

impl Value {
    fn parse(tok: &Token) -> (v: Value)
        ensures
            v@ == spec_parse_value(tok@),
    {
        match tok.kind {
            TokenKind::STRING => Value::String(tok.value.clone()),
            TokenKind::VARIABLE => {
                let s = tok.value.as_str();
                let n = s.unicode_len();
                if n >= 1 {
                    Value::Variable(s.substring_char(1, n).to_owned())
                } else {
                    Value::Variable(tok.value.clone())
                }
            },
            _ => Value::PlainText(tok.kind, tok.value.clone()),
        }
    }
}

/// One command: what to call, its arguments in order, and whether it runs in
/// the background.  Immutable after assembly.
#[derive(Debug)]
pub struct Command {
    pub callee: Value,
    pub args: Vec<Value>,
    pub run_in_bg: bool,
}

/// The mathematical image of a `Command`.
#[verifier::ext_equal]
pub struct CommandModel {
    pub callee: ValueModel,
    pub args: Seq<ValueModel>,
    pub background: bool,
}

pub open spec fn value_models(vs: Seq<Value>) -> Seq<ValueModel> {
    vs.map_values(|v: Value| v@)
}

pub open spec fn command_models(cs: Seq<Command>) -> Seq<CommandModel> {
    cs.map_values(|c: Command| c@)
}

impl View for Command {
    type V = CommandModel;

    open spec fn view(&self) -> CommandModel {
        CommandModel {
            callee: self.callee@,
            args: value_models(self.args@),
            background: self.run_in_bg,
        }
    }
}

impl Clone for Command {
    fn clone(&self) -> (res: Self)
        ensures
            res.callee == self.callee,
            res.args@ == self.args@,
            res.run_in_bg == self.run_in_bg,
            res@ == self@,
    {
        let mut args: Vec<Value> = Vec::new();
        let mut i: usize = 0;
        while i < self.args.len()
            invariant
                i <= self.args@.len(),
                args@ == self.args@.take(i as int),
            decreases self.args@.len() - i,
        {
            args.push(self.args[i].clone());
            proof {
                assert(self.args@.take(i as int).push(self.args@[i as int]) =~= self.args@.take(
                    i + 1,
                ));
            }
            i = i + 1;
        }
        proof {
            assert(self.args@.take(self.args@.len() as int) =~= self.args@);
        }
        Command { callee: self.callee.clone(), args, run_in_bg: self.run_in_bg }
    }
}

impl Command {
    /// Whether this command was marked to run detached.
    pub fn is_in_background(&self) -> (b: bool)
        ensures
            b == self.run_in_bg,
    {
        self.run_in_bg
    }

    /// Appends a call site's arguments after this template's own arguments.
    /// The callee and the background flag stay as they are; the other command
    /// is not touched.
    pub fn combine(&mut self, other: &Command)
        ensures
            final(self).callee == old(self).callee,
            final(self).run_in_bg == old(self).run_in_bg,
            final(self).args@ == old(self).args@ + other.args@,
    {
        let mut i: usize = 0;
        while i < other.args.len()
            invariant
                i <= other.args@.len(),
                self.callee == old(self).callee,
                self.run_in_bg == old(self).run_in_bg,
                self.args@ == old(self).args@ + other.args@.take(i as int),
            decreases other.args@.len() - i,
        {
            self.args.push(other.args[i].clone());
            proof {
                assert((old(self).args@ + other.args@.take(i as int)).push(
                    other.args@[i as int],
                ) =~= old(self).args@ + other.args@.take(i + 1));
            }
            i = i + 1;
        }
        proof {
            assert(other.args@.take(other.args@.len() as int) =~= other.args@);
        }
    }

    /// Whether this command's callee is exactly the given bare keyword.
    pub fn is_keyword(&self, keyword: &str) -> (b: bool)
        ensures
            b == spec_is_keyword(self@, keyword@),
    {
        match &self.callee {
            Value::PlainText(_, text) => str_eq(text.as_str(), keyword),
            _ => false,
        }
    }
}

/// A command whose callee is the given literal keyword, as `if` lookahead
/// recognizes `else` and `end`.
pub open spec fn spec_is_keyword(c: CommandModel, kw: Seq<char>) -> bool {
    c.callee matches ValueModel::PlainText(_, t) && t == kw
}

// ---------------------------------------------------------------------------
// The specification of command assembly.
// ---------------------------------------------------------------------------

/// Collects the argument values of one statement starting at token `i`:
/// the arguments read, the background flag, and the position after the
/// statement.  A newline or semicolon is consumed and ends the statement; a
/// background marker is consumed, sets the flag, and ends the statement; the
/// EOF token ends the statement without being consumed.
pub open spec fn spec_command_args(toks: Seq<TokenModel>, i: int) -> (Seq<ValueModel>, bool, int)
    decreases toks.len() - i
        when 0 <= i <= toks.len()
{
    if i >= toks.len() {
        (Seq::empty(), false, i)
    } else {
        let t = toks[i];
        if t.kind == TokenKind::NEWLINE || t.kind == TokenKind::SEMICOLON {
            (Seq::empty(), false, i + 1)
        } else if t.kind == TokenKind::BGPROCESS {
            (Seq::empty(), true, i + 1)
        } else if t.kind == TokenKind::EOF {
            (Seq::empty(), false, i)
        } else {
            let r = spec_command_args(toks, i + 1);
            (seq![spec_parse_value(t)] + r.0, r.1, r.2)
        }
    }
}

pub proof fn lemma_command_args_bounds(toks: Seq<TokenModel>, i: int)
    requires
        0 <= i <= toks.len(),
    ensures
        i <= spec_command_args(toks, i).2 <= toks.len(),
    decreases toks.len() - i,
{
    if i < toks.len() {
        let t = toks[i];
        if t.kind == TokenKind::NEWLINE || t.kind == TokenKind::SEMICOLON || t.kind
            == TokenKind::BGPROCESS || t.kind == TokenKind::EOF {
        } else {
            lemma_command_args_bounds(toks, i + 1);
        }
    }
}

/// The ordered list of commands assembled from a token stream, reading from
/// position `i`: blank newlines are skipped, EOF ends assembly, and the first
/// token of each statement becomes the callee.
pub open spec fn spec_assemble(toks: Seq<TokenModel>, i: int) -> Seq<CommandModel>
    decreases toks.len() - i
        when 0 <= i <= toks.len()
        via spec_assemble_decreases
{
    if i >= toks.len() {
        Seq::empty()
    } else if toks[i].kind == TokenKind::EOF {
        Seq::empty()
    } else if toks[i].kind == TokenKind::NEWLINE {
        spec_assemble(toks, i + 1)
    } else {
        let r = spec_command_args(toks, i + 1);
        seq![CommandModel { callee: spec_parse_value(toks[i]), args: r.0, background: r.1 }]
            + spec_assemble(toks, r.2)
    }
}

#[via_fn]
proof fn spec_assemble_decreases(toks: Seq<TokenModel>, i: int) {
    if 0 <= i < toks.len() {
        lemma_command_args_bounds(toks, i + 1);
    }
}

/// Assembles tokens into the ordered command list that `spec_assemble`
/// describes.  The call always succeeds.
pub fn parse(tokens: Vec<Token>) -> (r: Result<Vec<Command>, Error>)
    ensures
        r matches Ok(cmds) && command_models(cmds@) == spec_assemble(models_of(tokens@), 0),
{
    let ghost m = models_of(tokens@);
    let n = tokens.len();
    let mut commands: Vec<Command> = Vec::new();
    let mut i: usize = 0;
    proof {
        assert(m.len() == n);
        assert(command_models(commands@) + spec_assemble(m, 0) =~= spec_assemble(m, 0));
    }
    loop
        invariant
            n == tokens@.len(),
            m == models_of(tokens@),
            m.len() == n,
            i <= n,
            spec_assemble(m, 0) == command_models(commands@) + spec_assemble(m, i as int),
        decreases n - i,
    {
        if i >= n {
            proof {
                assert(command_models(commands@) + spec_assemble(m, i as int) =~= command_models(
                    commands@,
                ));
            }
            return Ok(commands);
        }
        proof {
            assert(m[i as int] == tokens@[i as int]@);
        }
        match tokens[i].kind {
            TokenKind::EOF => {
                proof {
                    assert(command_models(commands@) + spec_assemble(m, i as int)
                        =~= command_models(commands@));
                }
                return Ok(commands);
            },
            TokenKind::NEWLINE => {
                proof {
                    assert(spec_assemble(m, i as int) == spec_assemble(m, i + 1));
                }
                i = i + 1;
            },
            _ => {
                let ghost cstart = i as int;
                let callee = Value::parse(&tokens[i]);
                let mut args: Vec<Value> = Vec::new();
                let mut bg = false;
                i = i + 1;
                loop
                    invariant_except_break
                        cstart + 1 <= i <= n,
                        n == tokens@.len(),
                        m == models_of(tokens@),
                        m.len() == n,
                        bg == false,
                        spec_command_args(m, cstart + 1) == (
                            value_models(args@) + spec_command_args(m, i as int).0,
                            spec_command_args(m, i as int).1,
                            spec_command_args(m, i as int).2,
                        ),
                    ensures
                        cstart + 1 <= i <= n,
                        spec_command_args(m, cstart + 1) == (value_models(args@), bg, i as int),
                    decreases n - i,
                {
                    if i >= n {
                        proof {
                            assert(spec_command_args(m, i as int) == (
                                Seq::<ValueModel>::empty(),
                                false,
                                i as int,
                            ));
                            assert(value_models(args@) + Seq::<ValueModel>::empty()
                                =~= value_models(args@));
                        }
                        break ;
                    }
                    proof {
                        assert(m[i as int] == tokens@[i as int]@);
                    }
                    match tokens[i].kind {
                        TokenKind::NEWLINE | TokenKind::SEMICOLON => {
                            proof {
                                assert(value_models(args@) + Seq::<ValueModel>::empty()
                                    =~= value_models(args@));
                            }
                            i = i + 1;
                            break ;
                        },
                        TokenKind::BGPROCESS => {
                            proof {
                                assert(value_models(args@) + Seq::<ValueModel>::empty()
                                    =~= value_models(args@));
                            }
                            bg = true;
                            i = i + 1;
                            break ;
                        },
                        TokenKind::EOF => {
                            proof {
                                assert(value_models(args@) + Seq::<ValueModel>::empty()
                                    =~= value_models(args@));
                            }
                            break ;
                        },
                        _ => {
                            let ghost prevargs = args@;
                            args.push(Value::parse(&tokens[i]));
                            proof {
                                assert(spec_command_args(m, i as int) == (
                                    seq![spec_parse_value(m[i as int])] + spec_command_args(
                                        m,
                                        i + 1,
                                    ).0,
                                    spec_command_args(m, i + 1).1,
                                    spec_command_args(m, i + 1).2,
                                ));
                                assert(value_models(args@) =~= value_models(prevargs).push(
                                    spec_parse_value(m[i as int]),
                                ));
                                assert(value_models(prevargs) + (seq![spec_parse_value(m[i as int])]
                                    + spec_command_args(m, i + 1).0) =~= value_models(args@)
                                    + spec_command_args(m, i + 1).0);
                            }
                            i = i + 1;
                        },
                    }
                }
                let ghost prevcmds = commands@;
                commands.push(Command { callee, args, run_in_bg: bg });
                proof {
                    let cm = CommandModel {
                        callee: spec_parse_value(m[cstart]),
                        args: spec_command_args(m, cstart + 1).0,
                        background: spec_command_args(m, cstart + 1).1,
                    };
                    assert(spec_assemble(m, cstart) == seq![cm] + spec_assemble(m, i as int));
                    assert(command_models(commands@) =~= command_models(prevcmds).push(cm));
                    assert(command_models(prevcmds) + (seq![cm] + spec_assemble(m, i as int))
                        =~= command_models(commands@) + spec_assemble(m, i as int));
                }
            },
        }
    }
}

} // verus!
