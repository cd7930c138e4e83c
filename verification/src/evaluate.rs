use vstd::prelude::*;
use vstd::pervasive::unreached;
use vstd::string::*;

use crate::builtin::{lookup_builtin, spec_builtin, Builtin};
use crate::command::{command_models, parse, spec_is_keyword, spec_parse_value, value_models, Command, CommandModel, Value, ValueModel};
use crate::environment::{Environment, Identifier};
use crate::shell::Error;
use crate::text::{i32_text, join_spaces, parse_i32, spec_join, spec_parse_i32, str_eq, string_views};
use crate::token::{compose, is_quote_char, is_space_char, is_symbol_char, next_token, skip_spaces, spec_tokens, string_end, token_start, tokenize, TokenKind, TokenModel};

verus! {

// ---------------------------------------------------------------------------
// Value resolution.
// ---------------------------------------------------------------------------

/// What a value resolves to at evaluation time: plain text stands for
/// itself; a quoted string loses its first and last character and nothing
/// else; a variable reads its binding, or empty text when unbound — never an
/// error.
pub open spec fn spec_resolve(v: ValueModel, env: Environment) -> Seq<char> {
    match v {
        ValueModel::PlainText(_, s) => s,
        ValueModel::StringLit(s) => if s.len() >= 2 {
            s.subrange(1, s.len() - 1)
        } else {
            Seq::empty()
        },
        ValueModel::Variable(name) => match env.spec_find_var(name) {
            Some(val) => val,
            None => Seq::empty(),
        },
    }
}

/// Every argument of a command resolved against one environment.
pub open spec fn resolved_views(args: Seq<ValueModel>, env: Environment) -> Seq<Seq<char>> {
    args.map_values(|v: ValueModel| spec_resolve(v, env))
}

impl Value {
    /// Resolves this value to text against the environment, which is read
    /// and never changed.  Resolution always succeeds.
    pub fn eval(&self, env: &mut Environment) -> (r: Result<String, Error>)
        ensures
            *final(env) == *old(env),
            r matches Ok(s) && s@ == spec_resolve(self@, *old(env)),
    {
        match self {
            Value::String(text) => {
                let s = text.as_str();
                let n = s.unicode_len();
                if n >= 2 {
                    Ok(s.substring_char(1, n - 1).to_owned())
                } else {
                    Ok(String::new())
                }
            },
            Value::PlainText(_, text) => Ok(text.clone()),
            Value::Variable(name) => match env.find_var(name) {
                Some(var) => Ok(var.value()),
                None => Ok(String::new()),
            },
        }
    }
}

/// The command a value list denotes: its first value, resolved now, names
/// the callee; the rest stay unresolved as the arguments; the background
/// flag is clear.
pub open spec fn spec_from_args(args: Seq<ValueModel>, env: Environment) -> CommandModel {
    CommandModel {
        callee: ValueModel::PlainText(TokenKind::GENERIC, spec_resolve(args[0], env)),
        args: args.skip(1),
        background: false,
    }
}

impl Command {
    /// Builds a command from a value list, as `alias` builds its stored
    /// template and `if` builds its condition.  The call always succeeds.
    pub fn from_args(args: &[Value], env: &mut Environment) -> (r: Result<Command, Error>)
        requires
            args@.len() >= 1,
        ensures
            *final(env) == *old(env),
            r matches Ok(c) && c@ == spec_from_args(value_models(args@), *old(env)),
    {
        let callee_text = match args[0].eval(env) {
            Ok(s) => s,
            Err(_) => unreached(),
        };
        let mut rest: Vec<Value> = Vec::new();
        let mut i: usize = 1;
        proof {
            assert(value_models(rest@) =~= value_models(args@).skip(1).take(0));
        }
        while i < args.len()
            invariant
                1 <= i <= args@.len(),
                value_models(rest@) == value_models(args@).skip(1).take(i - 1),
            decreases args@.len() - i,
        {
            let ghost prev = rest@;
            rest.push(args[i].clone());
            proof {
                let vm = value_models(args@);
                assert(value_models(rest@) =~= value_models(prev).push(args@[i as int]@));
                assert(vm[i as int] == args@[i as int]@);
                assert(vm.skip(1).take(i as int) =~= vm.skip(1).take(i - 1).push(vm[i as int]));
            }
            i = i + 1;
        }
        proof {
            assert(value_models(args@).skip(1).take(args@.len() - 1) =~= value_models(args@).skip(
                1,
            ));
            assert(value_models(args@).skip(1) =~= value_models(args@.skip(1)));
        }
        Ok(
            Command {
                callee: Value::PlainText(TokenKind::GENERIC, callee_text),
                args: rest,
                run_in_bg: false,
            },
        )
    }
}

// ---------------------------------------------------------------------------
// The machine's data.
// ---------------------------------------------------------------------------

/// One line that the shell wants printed: a diagnostic when `err` is set,
/// ordinary output otherwise.  The host drains these and writes them out.
pub struct OutputLine {
    pub err: bool,
    pub text: String,
}

/// Outside work that the machine cannot do itself.  The host performs the
/// action and answers with an `Event`.
pub enum Action {
    /// Spawn an external program, detached when `background` is set.
    Spawn { program: String, args: Vec<String>, background: bool },
    /// Change the working directory.
    ChangeDir { path: String },
    /// Read a script file's whole text, for `require`.
    ReadScript { path: String },
}

/// The mathematical image of an `Action`.
#[verifier::ext_equal]
pub enum ActionModel {
    Spawn { program: Seq<char>, args: Seq<Seq<char>>, background: bool },
    ChangeDir { path: Seq<char> },
    ReadScript { path: Seq<char> },
}

impl View for Action {
    type V = ActionModel;

    open spec fn view(&self) -> ActionModel {
        match self {
            Action::Spawn { program, args, background } => ActionModel::Spawn {
                program: program@,
                args: string_views(args@),
                background: *background,
            },
            Action::ChangeDir { path } => ActionModel::ChangeDir { path: path@ },
            Action::ReadScript { path } => ActionModel::ReadScript { path: path@ },
        }
    }
}

fn clone_strings(v: &Vec<String>) -> (r: Vec<String>)
    ensures
        r@ == v@,
{
    let mut r: Vec<String> = Vec::new();
    let mut i: usize = 0;
    while i < v.len()
        invariant
            i <= v@.len(),
            r@ == v@.take(i as int),
        decreases v@.len() - i,
    {
        r.push(v[i].clone());
        proof {
            assert(v@.take(i as int).push(v@[i as int]) =~= v@.take(i + 1));
        }
        i = i + 1;
    }
    proof {
        assert(v@.take(v@.len() as int) =~= v@);
    }
    r
}

impl Clone for Action {
    fn clone(&self) -> (res: Self)
        ensures
            res@ == self@,
    {
        match self {
            Action::Spawn { program, args, background } => Action::Spawn {
                program: program.clone(),
                args: clone_strings(args),
                background: *background,
            },
            Action::ChangeDir { path } => Action::ChangeDir { path: path.clone() },
            Action::ReadScript { path } => Action::ReadScript { path: path.clone() },
        }
    }
}

/// What the host reports back after performing an action.
pub enum Event {
    /// The spawned program finished with this status (an indeterminate
    /// platform status is reported as 0), or, for a background command, was
    /// dispatched successfully (status 0).
    Spawned { status: i32 },
    /// The spawned program was terminated by this signal.
    Signaled { signal: i32 },
    /// The program could not be spawned at all.
    SpawnFailed { message: String },
    /// The directory change succeeded.
    DirChanged,
    /// The directory change failed.
    DirFailed { message: String },
    /// The script file's whole text.
    ScriptText { text: String },
    /// The script file could not be read.
    ScriptFailed { message: String },
}

/// One activation on the machine's control stack.
pub enum Frame {
    /// One `evaluate` activation: an owned command list with the cursor of
    /// not-yet-evaluated commands and the last status seen.  `if` lookahead
    /// consumes from the nearest `Script` frame's cursor.
    Script { commands: Vec<Command>, cursor: usize, last: i32 },
    /// An `if` or `else` block being run; `result` is the condition's own
    /// status, reported when the block ends whatever the block did.
    Block { body: Vec<Command>, idx: usize, result: i32 },
    /// An `if` whose condition is still being evaluated: the two blocks wait
    /// for the condition's status to pick one.
    IfArms { then_block: Vec<Command>, else_block: Vec<Command> },
}

impl Frame {
    pub open spec fn wf(self) -> bool {
        match self {
            Frame::Script { commands, cursor, last } => cursor <= commands@.len(),
            Frame::Block { body, idx, result } => idx <= body@.len(),
            Frame::IfArms { .. } => true,
        }
    }
}

/// Where the machine stands between two steps.
pub enum Mode {
    /// Take the next command from the top frame.
    Fetch,
    /// Evaluate this command: builtin first, then alias, then external
    /// program.
    Run(Command),
    /// A command finished with this status; hand it to the top frame.
    Deliver(i32),
    /// Outside work is pending; `resume` with its event.
    Awaiting(Action),
    /// The whole evaluation finished with this status.
    Done(i32),
    /// A hard error unwound past everything; the host prints it.
    Failed(Error),
}

impl Clone for Mode {
    fn clone(&self) -> (res: Self)
        ensures
            match *self {
                Mode::Fetch => res == Mode::Fetch,
                Mode::Run(c) => res matches Mode::Run(c2) && c2@ == c@,
                Mode::Deliver(s) => res == Mode::Deliver(s),
                Mode::Awaiting(a) => res matches Mode::Awaiting(a2) && a2@ == a@,
                Mode::Done(s) => res == Mode::Done(s),
                Mode::Failed(e) => res == Mode::Failed(e),
            },
    {
        match self {
            Mode::Fetch => Mode::Fetch,
            Mode::Run(c) => Mode::Run(c.clone()),
            Mode::Deliver(s) => Mode::Deliver(*s),
            Mode::Awaiting(a) => Mode::Awaiting(a.clone()),
            Mode::Done(s) => Mode::Done(*s),
            Mode::Failed(e) => Mode::Failed(e.clone()),
        }
    }
}

/// What one `step` call asks of the host.
pub enum Step {
    /// Internal progress was made; step again.
    Working,
    /// Perform this action, then `resume` with the event.
    Perform(Action),
    /// Evaluation finished with this status.
    Done(i32),
    /// Evaluation failed hard with this error.
    Fail(Error),
}

/// The evaluation machine: the whole state of one `execute` call.  The host
/// drives it by calling `step` until it reports `Done` or `Fail`, performing
/// each requested `Action` and answering through `resume`.
pub struct Evaluation {
    pub stack: Vec<Frame>,
    pub env: Environment,
    pub output: Vec<OutputLine>,
    pub mode: Mode,
}

impl Evaluation {
    /// Every frame's cursor stays within its command list.
    pub open spec fn wf(self) -> bool {
        forall|k: int| 0 <= k < self.stack@.len() ==> (#[trigger] self.stack@[k]).wf()
    }
}

// ---------------------------------------------------------------------------
// Lookahead over the nearest Script frame, for `if`.
// ---------------------------------------------------------------------------

/// The commands of an `if` block: everything up to, and excluding, the first
/// command whose callee is the bare word `else` or `end`; the terminator is
/// consumed.  `None` when the commands run out first.
pub open spec fn spec_scan_block(cmds: Seq<Command>, i: int) -> Option<
    (Seq<CommandModel>, bool, int),
>
    decreases cmds.len() - i
        when 0 <= i <= cmds.len()
{
    if i >= cmds.len() {
        None
    } else if spec_is_keyword(cmds[i]@, "else"@) {
        Some((Seq::empty(), true, i + 1))
    } else if spec_is_keyword(cmds[i]@, "end"@) {
        Some((Seq::empty(), false, i + 1))
    } else {
        match spec_scan_block(cmds, i + 1) {
            Some(r) => Some((seq![cmds[i]@] + r.0, r.1, r.2)),
            None => None,
        }
    }
}

/// The commands of an `else` block: everything up to, and excluding, the
/// first command whose callee is the bare word `end`, which is consumed.
pub open spec fn spec_scan_end(cmds: Seq<Command>, i: int) -> Option<(Seq<CommandModel>, int)>
    decreases cmds.len() - i
        when 0 <= i <= cmds.len()
{
    if i >= cmds.len() {
        None
    } else if spec_is_keyword(cmds[i]@, "end"@) {
        Some((Seq::empty(), i + 1))
    } else {
        match spec_scan_end(cmds, i + 1) {
            Some(r) => Some((seq![cmds[i]@] + r.0, r.1)),
            None => None,
        }
    }
}

pub proof fn lemma_scan_block_bounds(cmds: Seq<Command>, i: int)
    requires
        0 <= i <= cmds.len(),
    ensures
        match spec_scan_block(cmds, i) {
            Some(t) => i < t.2 <= cmds.len(),
            None => true,
        },
    decreases cmds.len() - i,
{
    if i < cmds.len() && !spec_is_keyword(cmds[i]@, "else"@) && !spec_is_keyword(cmds[i]@, "end"@) {
        lemma_scan_block_bounds(cmds, i + 1);
    }
}

pub proof fn lemma_scan_end_bounds(cmds: Seq<Command>, i: int)
    requires
        0 <= i <= cmds.len(),
    ensures
        match spec_scan_end(cmds, i) {
            Some(t) => i < t.1 <= cmds.len(),
            None => true,
        },
    decreases cmds.len() - i,
{
    if i < cmds.len() && !spec_is_keyword(cmds[i]@, "end"@) {
        lemma_scan_end_bounds(cmds, i + 1);
    }
}

/// The position of the nearest enclosing `Script` frame, searching from the
/// top of the stack.
pub open spec fn top_script(stack: Seq<Frame>) -> Option<int>
    decreases stack.len(),
{
    if stack.len() == 0 {
        None
    } else if stack.last() matches Frame::Script { .. } {
        Some(stack.len() - 1)
    } else {
        top_script(stack.drop_last())
    }
}

// ---------------------------------------------------------------------------
// The transition relation: what one step does, case by case.
// ---------------------------------------------------------------------------

pub open spec fn same_stack(pre: Evaluation, post: Evaluation) -> bool {
    post.stack == pre.stack
}

pub open spec fn same_env(pre: Evaluation, post: Evaluation) -> bool {
    post.env == pre.env
}

pub open spec fn same_output(pre: Evaluation, post: Evaluation) -> bool {
    post.output == pre.output
}

/// Nothing at all changed.
pub open spec fn frozen(pre: Evaluation, post: Evaluation) -> bool {
    same_stack(pre, post) && same_env(pre, post) && same_output(pre, post) && post.mode == pre.mode
}

/// Exactly one line was appended to the output; everything already there is
/// untouched.
pub open spec fn pushed_line(pre: Evaluation, post: Evaluation, err: bool, text: Seq<char>) -> bool {
    post.output@.len() == pre.output@.len() + 1 && (forall|k: int|
        0 <= k < pre.output@.len() ==> post.output@[k] == pre.output@[k])
        && post.output@.last().err == err && post.output@.last().text@ == text
}

/// Fetching: the top frame hands out its next command, or finishes.
pub open spec fn fetch_rel(pre: Evaluation, post: Evaluation, r: Step) -> bool {
    let stack = pre.stack@;
    same_env(pre, post) && same_output(pre, post) && if stack.len() == 0 {
        same_stack(pre, post) && post.mode == Mode::Done(0) && r == Step::Done(0)
    } else {
        let k = stack.len() - 1;
        match stack[k] {
            Frame::Script { commands, cursor, last } => {
                if cursor < commands@.len() {
                    &&& post.stack@ == stack.update(
                        k,
                        Frame::Script { commands, cursor: (cursor + 1) as usize, last },
                    )
                    &&& match post.mode {
                        Mode::Run(c) => c@ == commands@[cursor as int]@,
                        _ => false,
                    }
                    &&& r == Step::Working
                } else {
                    &&& post.stack@ == stack.drop_last()
                    &&& if stack.len() == 1 {
                        post.mode == Mode::Done(last) && r == Step::Done(last)
                    } else {
                        post.mode == Mode::Deliver(last) && r == Step::Working
                    }
                }
            },
            Frame::Block { body, idx, result } => {
                if idx < body@.len() {
                    &&& post.stack@ == stack.update(
                        k,
                        Frame::Block { body, idx: (idx + 1) as usize, result },
                    )
                    &&& match post.mode {
                        Mode::Run(c) => c@ == body@[idx as int]@,
                        _ => false,
                    }
                    &&& r == Step::Working
                } else {
                    &&& post.stack@ == stack.drop_last()
                    &&& post.mode == Mode::Deliver(result)
                    &&& r == Step::Working
                }
            },
            Frame::IfArms { .. } => {
                post.stack@ == stack.drop_last() && post.mode == Mode::Fetch && r == Step::Working
            },
        }
    }
}

/// Delivering a finished command's status: a `Script` frame threads it as
/// the last status, a `Block` frame discards it, and waiting `if` arms pick
/// their branch by it — the block remembers the condition's status as its
/// own result.
pub open spec fn deliver_rel(pre: Evaluation, st: i32, post: Evaluation, r: Step) -> bool {
    let stack = pre.stack@;
    same_env(pre, post) && same_output(pre, post) && if stack.len() == 0 {
        same_stack(pre, post) && post.mode == Mode::Done(st) && r == Step::Done(st)
    } else {
        let k = stack.len() - 1;
        match stack[k] {
            Frame::Script { commands, cursor, last } => {
                &&& post.stack@ == stack.update(k, Frame::Script { commands, cursor, last: st })
                &&& post.mode == Mode::Fetch
                &&& r == Step::Working
            },
            Frame::Block { .. } => {
                same_stack(pre, post) && post.mode == Mode::Fetch && r == Step::Working
            },
            Frame::IfArms { then_block, else_block } => {
                &&& post.stack@ == stack.update(
                    k,
                    Frame::Block {
                        body: if st == 0 {
                            then_block
                        } else {
                            else_block
                        },
                        idx: 0,
                        result: st,
                    },
                )
                &&& post.mode == Mode::Fetch
                &&& r == Step::Working
            },
        }
    }
}

/// `exit`: no argument exits with 0; one argument must be an integer status,
/// else a diagnostic and exit 2; more arguments are a diagnostic and soft
/// status 1 without exiting.
pub open spec fn exit_rel(pre: Evaluation, cm: CommandModel, post: Evaluation, r: Step) -> bool {
    same_stack(pre, post) && same_env(pre, post) && if cm.args.len() == 0 {
        same_output(pre, post) && post.mode == Mode::Failed(Error::EarlyExit(0)) && r == Step::Fail(
            Error::EarlyExit(0),
        )
    } else if cm.args.len() == 1 {
        let s = spec_resolve(cm.args[0], pre.env);
        match spec_parse_i32(s) {
            Some(v) => same_output(pre, post) && post.mode == Mode::Failed(
                Error::EarlyExit(v as i32),
            ) && r == Step::Fail(Error::EarlyExit(v as i32)),
            None => pushed_line(pre, post, true, "exit: "@ + s + ": numeric argument required"@)
                && post.mode == Mode::Failed(Error::EarlyExit(2)) && r == Step::Fail(
                Error::EarlyExit(2),
            ),
        }
    } else {
        pushed_line(pre, post, true, "exit: too many arguments"@) && post.mode == Mode::Deliver(1)
            && r == Step::Working
    }
}

/// `echo`: the arguments resolved and joined by single spaces become one
/// output line; the status is 0.
pub open spec fn echo_rel(pre: Evaluation, cm: CommandModel, post: Evaluation, r: Step) -> bool {
    &&& same_stack(pre, post)
    &&& same_env(pre, post)
    &&& pushed_line(pre, post, false, spec_join(resolved_views(cm.args, pre.env), " "@))
    &&& post.mode == Mode::Deliver(0)
    &&& r == Step::Working
}

/// `alias NAME = VALUE...`: at least three arguments with a literal `=`
/// second, else a diagnostic and status 2.  The remainder becomes a stored
/// template bound to the name; nothing else in the environment moves.
pub open spec fn alias_rel(pre: Evaluation, cm: CommandModel, post: Evaluation, r: Step) -> bool {
    same_stack(pre, post) && if cm.args.len() < 3 || spec_resolve(cm.args[1], pre.env) != "="@ {
        &&& same_env(pre, post)
        &&& pushed_line(
            pre,
            post,
            true,
            "alias: expect matching arguments: alias <name> = <value...>"@,
        )
        &&& post.mode == Mode::Deliver(2)
        &&& r == Step::Working
    } else {
        let name = spec_resolve(cm.args[0], pre.env);
        let template = spec_from_args(cm.args.skip(2), pre.env);
        &&& same_output(pre, post)
        &&& post.env.spec_find_ident(name) == Some(template)
        &&& forall|n2: Seq<char>|
            n2 != name ==> post.env.spec_find_ident(n2) == pre.env.spec_find_ident(n2)
        &&& forall|n2: Seq<char>| post.env.spec_find_var(n2) == pre.env.spec_find_var(n2)
        &&& post.mode == Mode::Deliver(0)
        &&& r == Step::Working
    }
}

/// `export NAME = VALUE`: exactly three arguments with a literal `=` second,
/// else a diagnostic and status 2.  The resolved name is bound to the
/// resolved value; nothing else in the environment moves.
pub open spec fn export_rel(pre: Evaluation, cm: CommandModel, post: Evaluation, r: Step) -> bool {
    same_stack(pre, post) && if cm.args.len() != 3 || spec_resolve(cm.args[1], pre.env) != "="@ {
        &&& same_env(pre, post)
        &&& pushed_line(
            pre,
            post,
            true,
            "export: expect matching arguments: export <name> = <value...>"@,
        )
        &&& post.mode == Mode::Deliver(2)
        &&& r == Step::Working
    } else {
        let name = spec_resolve(cm.args[0], pre.env);
        let value = spec_resolve(cm.args[2], pre.env);
        &&& same_output(pre, post)
        &&& post.env.spec_find_var(name) == Some(value)
        &&& forall|n2: Seq<char>|
            n2 != name ==> post.env.spec_find_var(n2) == pre.env.spec_find_var(n2)
        &&& forall|n2: Seq<char>| post.env.spec_find_ident(n2) == pre.env.spec_find_ident(n2)
        &&& post.mode == Mode::Deliver(0)
        &&& r == Step::Working
    }
}

/// `require PATH`: exactly one argument, else a diagnostic and status 2.
/// The machine asks the host for the script's text and waits.
pub open spec fn require_rel(pre: Evaluation, cm: CommandModel, post: Evaluation, r: Step) -> bool {
    same_stack(pre, post) && same_env(pre, post) && if cm.args.len() != 1 {
        &&& pushed_line(pre, post, true, "require: expect arguments matching: require <file.sh>"@)
        &&& post.mode == Mode::Deliver(2)
        &&& r == Step::Working
    } else {
        let path = spec_resolve(cm.args[0], pre.env);
        &&& same_output(pre, post)
        &&& match post.mode {
            Mode::Awaiting(a) => a@ == ActionModel::ReadScript { path },
            _ => false,
        }
        &&& match r {
            Step::Perform(a) => a@ == ActionModel::ReadScript { path },
            _ => false,
        }
    }
}

/// `cd [PATH]`: no argument uses `$HOME` (a diagnostic and status 2 when it
/// is unset), one argument uses that path, more are a diagnostic and status
/// 2.  An actual change of directory is the host's work.
pub open spec fn cd_rel(pre: Evaluation, cm: CommandModel, post: Evaluation, r: Step) -> bool {
    same_stack(pre, post) && same_env(pre, post) && if cm.args.len() == 0 {
        match pre.env.spec_find_var("HOME"@) {
            Some(p) => {
                &&& same_output(pre, post)
                &&& match post.mode {
                    Mode::Awaiting(a) => a@ == ActionModel::ChangeDir { path: p },
                    _ => false,
                }
                &&& match r {
                    Step::Perform(a) => a@ == ActionModel::ChangeDir { path: p },
                    _ => false,
                }
            },
            None => {
                &&& pushed_line(pre, post, true, "cd: $HOME environment variable not set."@)
                &&& post.mode == Mode::Deliver(2)
                &&& r == Step::Working
            },
        }
    } else if cm.args.len() == 1 {
        let p = spec_resolve(cm.args[0], pre.env);
        &&& same_output(pre, post)
        &&& match post.mode {
            Mode::Awaiting(a) => a@ == ActionModel::ChangeDir { path: p },
            _ => false,
        }
        &&& match r {
            Step::Perform(a) => a@ == ActionModel::ChangeDir { path: p },
            _ => false,
        }
    } else {
        &&& pushed_line(pre, post, true, "cd: too many arguments"@)
        &&& post.mode == Mode::Deliver(2)
        &&& r == Step::Working
    }
}

/// The common tail of a successful `if` lookahead: the nearest `Script`
/// frame's cursor has moved past the blocks, the two blocks wait on the
/// stack, and the condition — an ordinary command built from the arguments —
/// is about to run.
pub open spec fn if_proceed(
    pre: Evaluation,
    cm: CommandModel,
    post: Evaluation,
    r: Step,
    k: int,
    cnew: int,
    then_m: Seq<CommandModel>,
    else_m: Seq<CommandModel>,
) -> bool {
    match pre.stack@[k] {
        Frame::Script { commands, cursor, last } => {
            &&& post.stack@.len() == pre.stack@.len() + 1
            &&& post.stack@.drop_last() == pre.stack@.update(
                k,
                Frame::Script { commands, cursor: cnew as usize, last },
            )
            &&& match post.stack@.last() {
                Frame::IfArms { then_block, else_block } => command_models(then_block@) == then_m
                    && command_models(else_block@) == else_m,
                _ => false,
            }
            &&& same_env(pre, post)
            &&& same_output(pre, post)
            &&& match post.mode {
                Mode::Run(c) => c@ == spec_from_args(cm.args, pre.env),
                _ => false,
            }
            &&& r == Step::Working
        },
        _ => false,
    }
}

/// `if CONDITION...`: without arguments a hard arity error.  Otherwise the
/// lookahead greedily consumes commands from the nearest `Script` frame up
/// to an `else` or `end` terminator (and, after `else`, up to `end`); a
/// missing terminator is a diagnostic and status 2, the consumed commands
/// lost.  With both blocks in hand the condition runs as an ordinary
/// command.
pub open spec fn if_rel(pre: Evaluation, cm: CommandModel, post: Evaluation, r: Step) -> bool {
    if cm.args.len() == 0 {
        &&& same_stack(pre, post)
        &&& same_env(pre, post)
        &&& same_output(pre, post)
        &&& match post.mode {
            Mode::Failed(Error::WrongNumOfArgs(name, expected, got)) => name@ == "if"@ && expected
                == 1 && got == 0,
            _ => false,
        }
        &&& match r {
            Step::Fail(Error::WrongNumOfArgs(name, expected, got)) => name@ == "if"@ && expected
                == 1 && got == 0,
            _ => false,
        }
    } else {
        match top_script(pre.stack@) {
            None => {
                &&& same_stack(pre, post)
                &&& same_env(pre, post)
                &&& pushed_line(pre, post, true, "if: no end statement received"@)
                &&& post.mode == Mode::Deliver(2)
                &&& r == Step::Working
            },
            Some(k) => match pre.stack@[k] {
                Frame::Script { commands, cursor, last } => {
                    match spec_scan_block(commands@, cursor as int) {
                        None => {
                            &&& post.stack@ == pre.stack@.update(
                                k,
                                Frame::Script {
                                    commands,
                                    cursor: commands@.len() as usize,
                                    last,
                                },
                            )
                            &&& same_env(pre, post)
                            &&& pushed_line(pre, post, true, "if: no end statement received"@)
                            &&& post.mode == Mode::Deliver(2)
                            &&& r == Step::Working
                        },
                        Some(t1) => {
                            if t1.1 {
                                match spec_scan_end(commands@, t1.2) {
                                    None => {
                                        &&& post.stack@ == pre.stack@.update(
                                            k,
                                            Frame::Script {
                                                commands,
                                                cursor: commands@.len() as usize,
                                                last,
                                            },
                                        )
                                        &&& same_env(pre, post)
                                        &&& pushed_line(
                                            pre,
                                            post,
                                            true,
                                            "else: no end statement received"@,
                                        )
                                        &&& post.mode == Mode::Deliver(2)
                                        &&& r == Step::Working
                                    },
                                    Some(t2) => if_proceed(
                                        pre,
                                        cm,
                                        post,
                                        r,
                                        k,
                                        t2.1,
                                        t1.0,
                                        t2.0,
                                    ),
                                }
                            } else {
                                if_proceed(pre, cm, post, r, k, t1.2, t1.0, Seq::empty())
                            }
                        },
                    }
                },
                _ => false,
            },
        }
    }
}

/// Spawning an external program: the callee and every argument resolved, the
/// background flag carried along; the machine waits for the host's event.
pub open spec fn spawn_rel(
    pre: Evaluation,
    cm: CommandModel,
    name: Seq<char>,
    post: Evaluation,
    r: Step,
) -> bool {
    &&& same_stack(pre, post)
    &&& same_env(pre, post)
    &&& same_output(pre, post)
    &&& match post.mode {
        Mode::Awaiting(a) => a@ == ActionModel::Spawn {
            program: name,
            args: resolved_views(cm.args, pre.env),
            background: cm.background,
        },
        _ => false,
    }
    &&& match r {
        Step::Perform(a) => a@ == ActionModel::Spawn {
            program: name,
            args: resolved_views(cm.args, pre.env),
            background: cm.background,
        },
        _ => false,
    }
}

/// Running one command: the resolved callee is looked up among the builtins
/// first; otherwise an alias binding expands — template arguments first,
/// call-site arguments appended — and the combined command runs; otherwise
/// the command spawns as an external program.
pub open spec fn run_cmd_rel(pre: Evaluation, cm: CommandModel, post: Evaluation, r: Step) -> bool {
    let name = spec_resolve(cm.callee, pre.env);
    match spec_builtin(name) {
        Some(Builtin::Exit) => exit_rel(pre, cm, post, r),
        Some(Builtin::Echo) => echo_rel(pre, cm, post, r),
        Some(Builtin::Alias) => alias_rel(pre, cm, post, r),
        Some(Builtin::Export) => export_rel(pre, cm, post, r),
        Some(Builtin::Require) => require_rel(pre, cm, post, r),
        Some(Builtin::Cd) => cd_rel(pre, cm, post, r),
        Some(Builtin::If) => if_rel(pre, cm, post, r),
        None => match pre.env.spec_find_ident(name) {
            Some(sub) => {
                &&& same_stack(pre, post)
                &&& same_env(pre, post)
                &&& same_output(pre, post)
                &&& match post.mode {
                    Mode::Run(c2) => c2@ == CommandModel {
                        callee: sub.callee,
                        args: sub.args + cm.args,
                        background: sub.background,
                    },
                    _ => false,
                }
                &&& r == Step::Working
            },
            None => spawn_rel(pre, cm, name, post, r),
        },
    }
}

/// One whole step of the machine.
pub open spec fn step_rel(pre: Evaluation, post: Evaluation, r: Step) -> bool {
    match pre.mode {
        Mode::Fetch => fetch_rel(pre, post, r),
        Mode::Run(cmd) => run_cmd_rel(pre, cmd@, post, r),
        Mode::Deliver(st) => deliver_rel(pre, st, post, r),
        Mode::Awaiting(a) => frozen(pre, post) && match r {
            Step::Perform(a2) => a2@ == a@,
            _ => false,
        },
        Mode::Done(st) => frozen(pre, post) && r == Step::Done(st),
        Mode::Failed(e) => frozen(pre, post) && match r {
            Step::Fail(e2) => e2 == e,
            _ => false,
        },
    }
}

/// What `resume` does with the host's answer to the pending action.  An
/// answer that does not fit the pending action — or arrives when nothing is
/// pending — changes nothing.
pub open spec fn resume_rel(pre: Evaluation, ev: Event, post: Evaluation) -> bool {
    match pre.mode {
        Mode::Awaiting(a) => match a {
            Action::Spawn { program, .. } => match ev {
                Event::Spawned { status } => same_stack(pre, post) && same_env(pre, post)
                    && same_output(pre, post) && post.mode == Mode::Deliver(status),
                Event::Signaled { signal } => same_stack(pre, post) && same_env(pre, post)
                    && pushed_line(
                    pre,
                    post,
                    true,
                    "sheesh: "@ + crate::text::spec_i32_text(signal as int) + " in `"@ + program@
                        + "`"@,
                ) && post.mode == Mode::Deliver(signal),
                Event::SpawnFailed { message } => same_stack(pre, post) && same_env(pre, post)
                    && same_output(pre, post) && match post.mode {
                    Mode::Failed(Error::CommandNotFound(m)) => m@ == message@,
                    _ => false,
                },
                _ => post == pre,
            },
            Action::ChangeDir { .. } => match ev {
                Event::DirChanged => same_stack(pre, post) && same_env(pre, post) && same_output(
                    pre,
                    post,
                ) && post.mode == Mode::Deliver(0),
                Event::DirFailed { message } => same_stack(pre, post) && same_env(pre, post)
                    && pushed_line(pre, post, true, "cd: "@ + message@) && post.mode
                    == Mode::Deliver(1),
                _ => post == pre,
            },
            Action::ReadScript { path } => match ev {
                Event::ScriptText { text } => match spec_tokens(text@, 0) {
                    None => same_stack(pre, post) && same_env(pre, post) && same_output(pre, post)
                        && match post.mode {
                        Mode::Failed(Error::SyntaxError(_)) => true,
                        _ => false,
                    },
                    Some(toks) => {
                        &&& same_env(pre, post)
                        &&& same_output(pre, post)
                        &&& post.stack@.len() == pre.stack@.len() + 1
                        &&& post.stack@.drop_last() == pre.stack@
                        &&& match post.stack@.last() {
                            Frame::Script { commands, cursor, last } => command_models(commands@)
                                == crate::command::spec_assemble(toks, 0) && cursor == 0 && last
                                == 0,
                            _ => false,
                        }
                        &&& post.mode == Mode::Fetch
                    },
                },
                Event::ScriptFailed { message } => same_stack(pre, post) && same_env(pre, post)
                    && same_output(pre, post) && match post.mode {
                    Mode::Failed(Error::ReadFile(p, m)) => p@ == path@ && m@ == message@,
                    _ => false,
                },
                _ => post == pre,
            },
        },
        _ => post == pre,
    }
}

// ---------------------------------------------------------------------------
// The executable machine.
// ---------------------------------------------------------------------------

/// Starts the machine on an assembled command list, as the evaluation entry
/// point of a whole input: one `Script` frame, the given environment, no
/// output yet, ready to fetch.
pub fn evaluate(commands: Vec<Command>, env: Environment) -> (m: Evaluation)
    ensures
        m.wf(),
        m.stack@.len() == 1,
        m.stack@[0] == (Frame::Script { commands, cursor: 0, last: 0 }),
        m.env == env,
        m.output@.len() == 0,
        m.mode == Mode::Fetch,
{
    let mut stack: Vec<Frame> = Vec::new();
    stack.push(Frame::Script { commands, cursor: 0, last: 0 });
    Evaluation { stack, env, output: Vec::new(), mode: Mode::Fetch }
}

fn diag_line(text: String) -> (l: OutputLine)
    ensures
        l.err == true,
        l.text == text,
{
    OutputLine { err: true, text }
}

impl Evaluation {
    /// Makes one transition and says what the host must do next: keep
    /// stepping, perform an action, or stop.  Calling `step` again while an
    /// action is pending just repeats the request; after `Done` or `Fail`
    /// the machine stays where it is.
    pub fn step(&mut self) -> (r: Step)
        requires
            old(self).wf(),
        ensures
            final(self).wf(),
            step_rel(*old(self), *final(self), r),
    {
        let m = self.mode.clone();
        match m {
            Mode::Fetch => self.step_fetch(),
            Mode::Run(cmd) => self.step_run(cmd),
            Mode::Deliver(st) => self.step_deliver(st),
            Mode::Awaiting(a) => Step::Perform(a),
            Mode::Done(st) => Step::Done(st),
            Mode::Failed(e) => Step::Fail(e),
        }
    }

    fn step_fetch(&mut self) -> (r: Step)
        requires
            old(self).wf(),
        ensures
            final(self).wf(),
            fetch_rel(*old(self), *final(self), r),
    {
        let n = self.stack.len();
        if n == 0 {
            self.mode = Mode::Done(0);
            return Step::Done(0);
        }
        let k = n - 1;
        let mut to_run: Option<Command> = None;
        let mut script_end: Option<i32> = None;
        let mut block_end: Option<i32> = None;
        match &mut self.stack[k] {
            Frame::Script { commands, cursor, last } => {
                if *cursor < commands.len() {
                    to_run = Some(commands[*cursor].clone());
                    *cursor = *cursor + 1;
                } else {
                    script_end = Some(*last);
                }
            },
            Frame::Block { body, idx, result } => {
                if *idx < body.len() {
                    to_run = Some(body[*idx].clone());
                    *idx = *idx + 1;
                } else {
                    block_end = Some(*result);
                }
            },
            Frame::IfArms { .. } => {},
        }
        if let Some(c) = to_run {
            self.mode = Mode::Run(c);
            return Step::Working;
        }
        proof {
            assert(self.stack@ =~= old(self).stack@);
        }
        if let Some(st) = script_end {
            let _ = self.stack.pop();
            if self.stack.len() == 0 {
                self.mode = Mode::Done(st);
                return Step::Done(st);
            }
            self.mode = Mode::Deliver(st);
            return Step::Working;
        }
        if let Some(st) = block_end {
            let _ = self.stack.pop();
            self.mode = Mode::Deliver(st);
            return Step::Working;
        }
        let _ = self.stack.pop();
        self.mode = Mode::Fetch;
        Step::Working
    }

    fn step_deliver(&mut self, st: i32) -> (r: Step)
        requires
            old(self).wf(),
        ensures
            final(self).wf(),
            deliver_rel(*old(self), st, *final(self), r),
    {
        let n = self.stack.len();
        if n == 0 {
            self.mode = Mode::Done(st);
            return Step::Done(st);
        }
        let k = n - 1;
        let is_ifarms = matches!(&self.stack[k], Frame::IfArms { .. });
        if is_ifarms {
            let popped = self.stack.pop();
            match popped {
                Some(Frame::IfArms { then_block, else_block }) => {
                    let body = if st == 0 {
                        then_block
                    } else {
                        else_block
                    };
                    self.stack.push(Frame::Block { body, idx: 0, result: st });
                    proof {
                        assert(self.stack@ =~= old(self).stack@.update(
                            k as int,
                            self.stack@.last(),
                        ));
                    }
                },
                _ => {
                    proof {
                        assert(false);
                    }
                },
            }
            self.mode = Mode::Fetch;
            Step::Working
        } else {
            let is_script = matches!(&self.stack[k], Frame::Script { .. });
            if is_script {
                match &mut self.stack[k] {
                    Frame::Script { commands, cursor, last } => {
                        *last = st;
                    },
                    _ => {
                        proof {
                            assert(false);
                        }
                    },
                }
            }
            self.mode = Mode::Fetch;
            Step::Working
        }
    }

    /// Resolves every argument of a command to text, in order.
    fn resolve_args(&mut self, cmd: &Command) -> (parts: Vec<String>)
        ensures
            *final(self) == *old(self),
            string_views(parts@) == resolved_views(cmd@.args, old(self).env),
    {
        let n = cmd.args.len();
        let mut parts: Vec<String> = Vec::new();
        let mut i: usize = 0;
        proof {
            assert(string_views(parts@) =~= resolved_views(cmd@.args, self.env).take(0));
        }
        while i < n
            invariant
                i <= n,
                n == cmd.args@.len(),
                *self == *old(self),
                string_views(parts@) == resolved_views(cmd@.args, self.env).take(i as int),
            decreases n - i,
        {
            let v = match cmd.args[i].eval(&mut self.env) {
                Ok(s) => s,
                Err(_) => unreached(),
            };
            let ghost gv = v@;
            let ghost prev = parts@;
            parts.push(v);
            proof {
                let rv = resolved_views(cmd@.args, self.env);
                assert(rv[i as int] == spec_resolve(cmd@.args[i as int], self.env));
                assert(string_views(parts@) =~= string_views(prev).push(gv));
                assert(rv.take(i + 1) =~= rv.take(i as int).push(rv[i as int]));
            }
            i = i + 1;
        }
        proof {
            assert(resolved_views(cmd@.args, self.env).take(n as int) =~= resolved_views(
                cmd@.args,
                self.env,
            ));
        }
        parts
    }

    fn run_exit(&mut self, cmd: &Command) -> (r: Step)
        requires
            old(self).wf(),
        ensures
            final(self).wf(),
            exit_rel(*old(self), cmd@, *final(self), r),
    {
        let n = cmd.args.len();
        if n == 0 {
            self.mode = Mode::Failed(Error::EarlyExit(0));
            Step::Fail(Error::EarlyExit(0))
        } else if n == 1 {
            let s = match cmd.args[0].eval(&mut self.env) {
                Ok(v) => v,
                Err(_) => unreached(),
            };
            match parse_i32(s.as_str()) {
                Some(code) => {
                    self.mode = Mode::Failed(Error::EarlyExit(code));
                    Step::Fail(Error::EarlyExit(code))
                },
                None => {
                    let mut d = String::new();
                    d.append("exit: ");
                    d.append(s.as_str());
                    d.append(": numeric argument required");
                    self.output.push(diag_line(d));
                    self.mode = Mode::Failed(Error::EarlyExit(2));
                    Step::Fail(Error::EarlyExit(2))
                },
            }
        } else {
            self.output.push(diag_line(String::from_str("exit: too many arguments")));
            self.mode = Mode::Deliver(1);
            Step::Working
        }
    }

    fn run_echo(&mut self, cmd: &Command) -> (r: Step)
        requires
            old(self).wf(),
        ensures
            final(self).wf(),
            echo_rel(*old(self), cmd@, *final(self), r),
    {
        let parts = self.resolve_args(cmd);
        let line = join_spaces(&parts);
        self.output.push(OutputLine { err: false, text: line });
        self.mode = Mode::Deliver(0);
        Step::Working
    }

    fn run_alias(&mut self, cmd: &Command) -> (r: Step)
        requires
            old(self).wf(),
        ensures
            final(self).wf(),
            alias_rel(*old(self), cmd@, *final(self), r),
    {
        let n = cmd.args.len();
        let mut ok = n >= 3;
        if ok {
            let sep = match cmd.args[1].eval(&mut self.env) {
                Ok(v) => v,
                Err(_) => unreached(),
            };
            ok = str_eq(sep.as_str(), "=");
        }
        if !ok {
            self.output.push(
                diag_line(
                    String::from_str("alias: expect matching arguments: alias <name> = <value...>"),
                ),
            );
            self.mode = Mode::Deliver(2);
            return Step::Working;
        }
        let name = match cmd.args[0].eval(&mut self.env) {
            Ok(v) => v,
            Err(_) => unreached(),
        };
        let template = match Command::from_args(&cmd.args[2..cmd.args.len()], &mut self.env) {
            Ok(c) => c,
            Err(_) => unreached(),
        };
        proof {
            assert(value_models(cmd.args@.subrange(2, cmd.args@.len() as int)) =~= cmd@.args.skip(
                2,
            ));
        }
        self.env.add_ident(name, Identifier::Alias { substitute: template });
        self.mode = Mode::Deliver(0);
        Step::Working
    }

    fn run_export(&mut self, cmd: &Command) -> (r: Step)
        requires
            old(self).wf(),
        ensures
            final(self).wf(),
            export_rel(*old(self), cmd@, *final(self), r),
    {
        let n = cmd.args.len();
        let mut ok = n == 3;
        if ok {
            let sep = match cmd.args[1].eval(&mut self.env) {
                Ok(v) => v,
                Err(_) => unreached(),
            };
            ok = str_eq(sep.as_str(), "=");
        }
        if !ok {
            self.output.push(
                diag_line(
                    String::from_str("export: expect matching arguments: export <name> = <value...>"),
                ),
            );
            self.mode = Mode::Deliver(2);
            return Step::Working;
        }
        let value = match cmd.args[2].eval(&mut self.env) {
            Ok(v) => v,
            Err(_) => unreached(),
        };
        let name = match cmd.args[0].eval(&mut self.env) {
            Ok(v) => v,
            Err(_) => unreached(),
        };
        self.env.add_var(name, value);
        self.mode = Mode::Deliver(0);
        Step::Working
    }

    fn run_require(&mut self, cmd: &Command) -> (r: Step)
        requires
            old(self).wf(),
        ensures
            final(self).wf(),
            require_rel(*old(self), cmd@, *final(self), r),
    {
        if cmd.args.len() != 1 {
            self.output.push(
                diag_line(String::from_str("require: expect arguments matching: require <file.sh>")),
            );
            self.mode = Mode::Deliver(2);
            return Step::Working;
        }
        let path = match cmd.args[0].eval(&mut self.env) {
            Ok(v) => v,
            Err(_) => unreached(),
        };
        let action = Action::ReadScript { path };
        let again = action.clone();
        self.mode = Mode::Awaiting(action);
        Step::Perform(again)
    }

    fn run_cd(&mut self, cmd: &Command) -> (r: Step)
        requires
            old(self).wf(),
        ensures
            final(self).wf(),
            cd_rel(*old(self), cmd@, *final(self), r),
    {
        let n = cmd.args.len();
        if n == 0 {
            let home_key = String::from_str("HOME");
            let found = match self.env.find_var(&home_key) {
                Some(var) => Some(var.value()),
                None => None,
            };
            match found {
                Some(path) => {
                    let action = Action::ChangeDir { path };
                    let again = action.clone();
                    self.mode = Mode::Awaiting(action);
                    Step::Perform(again)
                },
                None => {
                    self.output.push(
                        diag_line(String::from_str("cd: $HOME environment variable not set.")),
                    );
                    self.mode = Mode::Deliver(2);
                    Step::Working
                },
            }
        } else if n == 1 {
            let path = match cmd.args[0].eval(&mut self.env) {
                Ok(v) => v,
                Err(_) => unreached(),
            };
            let action = Action::ChangeDir { path };
            let again = action.clone();
            self.mode = Mode::Awaiting(action);
            Step::Perform(again)
        } else {
            self.output.push(diag_line(String::from_str("cd: too many arguments")));
            self.mode = Mode::Deliver(2);
            Step::Working
        }
    }

    fn run_if(&mut self, cmd: &Command) -> (r: Step)
        requires
            old(self).wf(),
        ensures
            final(self).wf(),
            if_rel(*old(self), cmd@, *final(self), r),
    {
        if cmd.args.len() == 0 {
            self.mode = Mode::Failed(Error::WrongNumOfArgs("if", 1, 0));
            return Step::Fail(Error::WrongNumOfArgs("if", 1, 0));
        }
        let kopt = find_script(&self.stack);
        let k = match kopt {
            Some(k) => k,
            None => {
                self.output.push(diag_line(String::from_str("if: no end statement received")));
                self.mode = Mode::Deliver(2);
                return Step::Working;
            },
        };
        let scan1 = match &self.stack[k] {
            Frame::Script { commands, cursor, .. } => scan_block(commands, *cursor),
            _ => unreached(),
        };
        let (then_vec, hit_else, c2) = match scan1 {
            Some(t) => t,
            None => {
                match &mut self.stack[k] {
                    Frame::Script { commands, cursor, last } => {
                        *cursor = commands.len();
                    },
                    _ => {
                        proof {
                            assert(false);
                        }
                    },
                }
                self.output.push(diag_line(String::from_str("if: no end statement received")));
                self.mode = Mode::Deliver(2);
                return Step::Working;
            },
        };
        let mut else_vec: Vec<Command> = Vec::new();
        let mut cnew = c2;
        if hit_else {
            let scan2 = match &self.stack[k] {
                Frame::Script { commands, .. } => scan_end(commands, c2),
                _ => unreached(),
            };
            match scan2 {
                Some(t) => {
                    else_vec = t.0;
                    cnew = t.1;
                },
                None => {
                    match &mut self.stack[k] {
                        Frame::Script { commands, cursor, last } => {
                            *cursor = commands.len();
                        },
                        _ => {
                            proof {
                                assert(false);
                            }
                        },
                    }
                    self.output.push(
                        diag_line(String::from_str("else: no end statement received")),
                    );
                    self.mode = Mode::Deliver(2);
                    return Step::Working;
                },
            }
        }
        proof {
            match old(self).stack@[k as int] {
                Frame::Script { commands, cursor, last } => {
                    lemma_scan_block_bounds(commands@, cursor as int);
                    lemma_scan_end_bounds(commands@, c2 as int);
                },
                _ => {},
            }
        }
        match &mut self.stack[k] {
            Frame::Script { commands, cursor, last } => {
                *cursor = cnew;
            },
            _ => {
                proof {
                    assert(false);
                }
            },
        }
        let cond = match Command::from_args(&cmd.args[0..cmd.args.len()], &mut self.env) {
            Ok(c) => c,
            Err(_) => unreached(),
        };
        proof {
            assert(value_models(cmd.args@.subrange(0, cmd.args@.len() as int)) =~= cmd@.args);
        }
        let ghost mid = self.stack@;
        let ghost then_m = command_models(then_vec@);
        let ghost else_m = command_models(else_vec@);
        self.stack.push(Frame::IfArms { then_block: then_vec, else_block: else_vec });
        proof {
            assert(self.stack@.drop_last() =~= mid);
            assert(command_models(Seq::<Command>::empty()) =~= Seq::<CommandModel>::empty());
            assert forall|k2: int| 0 <= k2 < self.stack@.len() implies (
            #[trigger] self.stack@[k2]).wf() by {
                if k2 < self.stack@.len() - 1 && k2 != k {
                    assert(self.stack@[k2] == old(self).stack@[k2]);
                    assert(old(self).stack@[k2].wf());
                }
            }
        }
        self.mode = Mode::Run(cond);
        proof {
            let pre = *old(self);
            let post = *self;
            match pre.stack@[k as int] {
                Frame::Script { commands, cursor, last } => {
                    assert(post.stack@.len() == pre.stack@.len() + 1);
                    assert(post.stack@.drop_last() == pre.stack@.update(
                        k as int,
                        Frame::Script { commands, cursor: cnew as usize, last },
                    ));
                    match post.stack@.last() {
                        Frame::IfArms { then_block, else_block } => {
                            assert(command_models(then_block@) == then_m);
                            assert(command_models(else_block@) == else_m);
                        },
                        _ => {
                            assert(false);
                        },
                    }
                    assert(same_env(pre, post));
                    assert(same_output(pre, post));
                    match post.mode {
                        Mode::Run(c) => {
                            assert(c@ == spec_from_args(cmd@.args, pre.env));
                        },
                        _ => {
                            assert(false);
                        },
                    }
                },
                _ => {
                    assert(false);
                },
            }
        }
        Step::Working
    }

    fn run_external(&mut self, cmd: &Command, name: String) -> (r: Step)
        requires
            old(self).wf(),
        ensures
            final(self).wf(),
            spawn_rel(*old(self), cmd@, name@, *final(self), r),
    {
        let args = self.resolve_args(cmd);
        let action = Action::Spawn { program: name, args, background: cmd.is_in_background() };
        let again = action.clone();
        self.mode = Mode::Awaiting(action);
        Step::Perform(again)
    }

    fn step_run(&mut self, cmd: Command) -> (r: Step)
        requires
            old(self).wf(),
        ensures
            final(self).wf(),
            run_cmd_rel(*old(self), cmd@, *final(self), r),
    {
        let name = match cmd.callee.eval(&mut self.env) {
            Ok(s) => s,
            Err(_) => unreached(),
        };
        match lookup_builtin(name.as_str()) {
            Some(Builtin::Exit) => self.run_exit(&cmd),
            Some(Builtin::Echo) => self.run_echo(&cmd),
            Some(Builtin::Alias) => self.run_alias(&cmd),
            Some(Builtin::Export) => self.run_export(&cmd),
            Some(Builtin::Require) => self.run_require(&cmd),
            Some(Builtin::Cd) => self.run_cd(&cmd),
            Some(Builtin::If) => self.run_if(&cmd),
            None => {
                let found = match self.env.find_ident(&name) {
                    Some(id) => Some(id.clone()),
                    None => None,
                };
                match found {
                    Some(Identifier::Alias { substitute }) => {
                        let ghost subm = substitute@;
                        let ghost before = substitute.args@;
                        let mut combined = substitute;
                        combined.combine(&cmd);
                        proof {
                            assert(value_models(before + cmd.args@) =~= value_models(before)
                                + value_models(cmd.args@));
                            assert(combined@ =~~= CommandModel {
                                callee: subm.callee,
                                args: subm.args + cmd@.args,
                                background: subm.background,
                            });
                        }
                        self.mode = Mode::Run(combined);
                        Step::Working
                    },
                    None => self.run_external(&cmd, name),
                }
            },
        }
    }

    /// Answers the pending action with what the host observed.
    pub fn resume(&mut self, event: Event)
        requires
            old(self).wf(),
        ensures
            final(self).wf(),
            resume_rel(*old(self), event, *final(self)),
    {
        let m = self.mode.clone();
        match m {
            Mode::Awaiting(a) => match (a, event) {
                (Action::Spawn { .. }, Event::Spawned { status }) => {
                    self.mode = Mode::Deliver(status);
                },
                (Action::Spawn { program, .. }, Event::Signaled { signal }) => {
                    let mut d = String::new();
                    d.append("sheesh: ");
                    d.append(i32_text(signal).as_str());
                    d.append(" in `");
                    d.append(program.as_str());
                    d.append("`");
                    self.output.push(diag_line(d));
                    self.mode = Mode::Deliver(signal);
                },
                (Action::Spawn { .. }, Event::SpawnFailed { message }) => {
                    self.mode = Mode::Failed(Error::CommandNotFound(message));
                },
                (Action::ChangeDir { .. }, Event::DirChanged) => {
                    self.mode = Mode::Deliver(0);
                },
                (Action::ChangeDir { .. }, Event::DirFailed { message }) => {
                    let mut d = String::new();
                    d.append("cd: ");
                    d.append(message.as_str());
                    self.output.push(diag_line(d));
                    self.mode = Mode::Deliver(1);
                },
                (Action::ReadScript { .. }, Event::ScriptText { text }) => {
                    match tokenize(text) {
                        Err(e) => {
                            self.mode = Mode::Failed(e);
                        },
                        Ok(toks) => match parse(toks) {
                            Ok(cmds) => {
                                let ghost mid = self.stack@;
                                self.stack.push(
                                    Frame::Script { commands: cmds, cursor: 0, last: 0 },
                                );
                                proof {
                                    assert(self.stack@.drop_last() =~= mid);
                                    assert forall|k2: int|
                                        0 <= k2 < self.stack@.len() implies (
                                    #[trigger] self.stack@[k2]).wf() by {
                                        if k2 < self.stack@.len() - 1 {
                                            assert(self.stack@[k2] == old(self).stack@[k2]);
                                            assert(old(self).stack@[k2].wf());
                                        }
                                    }
                                }
                                self.mode = Mode::Fetch;
                            },
                            Err(_) => {
                                proof {
                                    assert(false);
                                }
                            },
                        },
                    }
                },
                (Action::ReadScript { path }, Event::ScriptFailed { message }) => {
                    self.mode = Mode::Failed(Error::ReadFile(path, message));
                },
                _ => {},
            },
            _ => {},
        }
    }

    /// Hands the collected output lines over and leaves the machine's output
    /// empty; nothing else moves.
    pub fn take_output(&mut self) -> (out: Vec<OutputLine>)
        ensures
            out == old(self).output,
            final(self).output@.len() == 0,
            final(self).stack == old(self).stack,
            final(self).env == old(self).env,
            final(self).mode == old(self).mode,
    {
        let mut out: Vec<OutputLine> = Vec::new();
        core::mem::swap(&mut out, &mut self.output);
        out
    }

    /// Surrenders the environment, for the next turn of a prompt loop.
    pub fn into_env(self) -> (env: Environment)
        ensures
            env == self.env,
    {
        self.env
    }
}

/// Scans an `if` block out of a command list, per `spec_scan_block`.
fn scan_block(cmds: &Vec<Command>, start: usize) -> (r: Option<(Vec<Command>, bool, usize)>)
    requires
        start <= cmds@.len(),
    ensures
        match r {
            Some(t) => spec_scan_block(cmds@, start as int) == Some(
                (command_models(t.0@), t.1, t.2 as int),
            ) && start < t.2 <= cmds@.len(),
            None => spec_scan_block(cmds@, start as int) is None,
        },
{
    let n = cmds.len();
    let mut block: Vec<Command> = Vec::new();
    let mut i = start;
    proof {
        assert(command_models(block@) =~= Seq::<CommandModel>::empty());
        lemma_scan_block_bounds(cmds@, start as int);
    }
    loop
        invariant
            start <= i <= n,
            n == cmds@.len(),
            scan_cons3(command_models(block@), spec_scan_block(cmds@, i as int)) == spec_scan_block(
                cmds@,
                start as int,
            ),
        decreases n - i,
    {
        if i >= n {
            return None;
        }
        let is_else = cmds[i].is_keyword("else");
        let is_end = cmds[i].is_keyword("end");
        if is_else || is_end {
            proof {
                assert(command_models(block@) + Seq::<CommandModel>::empty() =~= command_models(
                    block@,
                ));
            }
            return Some((block, is_else, i + 1));
        }
        let ghost prev = block@;
        block.push(cmds[i].clone());
        proof {
            assert(command_models(block@) =~= command_models(prev).push(cmds@[i as int]@));
            lemma_scan_cons3_push(
                command_models(prev),
                cmds@[i as int]@,
                spec_scan_block(cmds@, i + 1),
            );
        }
        i = i + 1;
    }
}

/// Prefixing already-collected block commands onto the rest of a scan.
pub open spec fn scan_cons3(
    pre: Seq<CommandModel>,
    rest: Option<(Seq<CommandModel>, bool, int)>,
) -> Option<(Seq<CommandModel>, bool, int)> {
    match rest {
        Some(t) => Some((pre + t.0, t.1, t.2)),
        None => None,
    }
}

proof fn lemma_scan_cons3_push(
    pre: Seq<CommandModel>,
    c: CommandModel,
    rest: Option<(Seq<CommandModel>, bool, int)>,
)
    ensures
        scan_cons3(pre.push(c), rest) == scan_cons3(pre, scan_cons3(seq![c], rest)),
{
    match rest {
        Some(t) => {
            assert(pre.push(c) + t.0 =~= pre + (seq![c] + t.0));
        },
        None => {},
    }
}

/// Prefixing already-collected block commands onto the rest of an
/// `else`-block scan.
pub open spec fn scan_cons2(
    pre: Seq<CommandModel>,
    rest: Option<(Seq<CommandModel>, int)>,
) -> Option<(Seq<CommandModel>, int)> {
    match rest {
        Some(t) => Some((pre + t.0, t.1)),
        None => None,
    }
}

proof fn lemma_scan_cons2_push(
    pre: Seq<CommandModel>,
    c: CommandModel,
    rest: Option<(Seq<CommandModel>, int)>,
)
    ensures
        scan_cons2(pre.push(c), rest) == scan_cons2(pre, scan_cons2(seq![c], rest)),
{
    match rest {
        Some(t) => {
            assert(pre.push(c) + t.0 =~= pre + (seq![c] + t.0));
        },
        None => {},
    }
}

/// Scans an `else` block out of a command list, per `spec_scan_end`.
fn scan_end(cmds: &Vec<Command>, start: usize) -> (r: Option<(Vec<Command>, usize)>)
    requires
        start <= cmds@.len(),
    ensures
        match r {
            Some(t) => spec_scan_end(cmds@, start as int) == Some(
                (command_models(t.0@), t.1 as int),
            ) && start < t.1 <= cmds@.len(),
            None => spec_scan_end(cmds@, start as int) is None,
        },
{
    let n = cmds.len();
    let mut block: Vec<Command> = Vec::new();
    let mut i = start;
    proof {
        assert(command_models(block@) =~= Seq::<CommandModel>::empty());
        lemma_scan_end_bounds(cmds@, start as int);
    }
    loop
        invariant
            start <= i <= n,
            n == cmds@.len(),
            scan_cons2(command_models(block@), spec_scan_end(cmds@, i as int)) == spec_scan_end(
                cmds@,
                start as int,
            ),
        decreases n - i,
    {
        if i >= n {
            return None;
        }
        if cmds[i].is_keyword("end") {
            proof {
                assert(command_models(block@) + Seq::<CommandModel>::empty() =~= command_models(
                    block@,
                ));
            }
            return Some((block, i + 1));
        }
        let ghost prev = block@;
        block.push(cmds[i].clone());
        proof {
            assert(command_models(block@) =~= command_models(prev).push(cmds@[i as int]@));
            lemma_scan_cons2_push(
                command_models(prev),
                cmds@[i as int]@,
                spec_scan_end(cmds@, i + 1),
            );
        }
        i = i + 1;
    }
}

/// The closing quote of a clean string body is found right where the body
/// ends.
proof fn lemma_string_end_clean(u: Seq<char>, q: char, i: int)
    requires
        u.len() >= 2,
        1 <= i <= u.len() - 1,
        u[u.len() - 1] == q,
        forall|k: int| i <= k < u.len() - 1 ==> (#[trigger] u[k]) != q && u[k] != '\\',
    ensures
        string_end(u, q, i) == Some(u.len() - 1),
    decreases u.len() - i,
{
    if i < u.len() - 1 {
        lemma_string_end_clean(u, q, i + 1);
    }
}

/// Law: quoting round-trips.  Any text without the quote character or a
/// backslash, wrapped in single or double quotes, scans as exactly one
/// string token, and resolving that token yields exactly the quoted text,
/// in any environment.
pub proof fn lemma_quote_round_trip(s: Seq<char>, q: char, env: Environment)
    requires
        q == '\'' || q == '"',
        forall|k: int| 0 <= k < s.len() ==> (#[trigger] s[k]) != q && s[k] != '\\',
    ensures
        spec_tokens(seq![q] + s + seq![q], 0) == Some(
            seq![
                TokenModel { kind: TokenKind::STRING, text: seq![q] + s + seq![q] },
                TokenModel { kind: TokenKind::EOF, text: Seq::empty() },
            ],
        ),
        spec_resolve(
            spec_parse_value(TokenModel { kind: TokenKind::STRING, text: seq![q] + s + seq![q] }),
            env,
        ) == s,
{
    let u = seq![q] + s + seq![q];
    let n = u.len() as int;
    assert(n == s.len() + 2);
    assert(u[0] == q);
    assert(u[n - 1] == q);
    assert(forall|k: int| 1 <= k < n - 1 ==> u[k] == s[k - 1]);
    assert(!is_space_char(u[0]));
    assert(skip_spaces(u, 0) == 0);
    assert(token_start(u, 0) == 0);
    assert(is_quote_char(u[0]));
    assert(!is_symbol_char(u[0]));
    lemma_string_end_clean(u, q, 1);
    let t = TokenModel { kind: TokenKind::STRING, text: u.subrange(0, n) };
    assert(next_token(u, 0) == Some(t));
    assert(t.text =~= u);
    crate::token::lemma_tokens_at_end(u);
    assert(spec_tokens(u, 0) == compose(seq![t], spec_tokens(u, n)));
    assert(seq![t] + seq![TokenModel { kind: TokenKind::EOF, text: Seq::empty() }] =~= seq![
        TokenModel { kind: TokenKind::STRING, text: u },
        TokenModel { kind: TokenKind::EOF, text: Seq::empty() },
    ]);
    assert(spec_parse_value(TokenModel { kind: TokenKind::STRING, text: u })
        == ValueModel::StringLit(u));
    assert(u.subrange(1, u.len() - 1) =~= s);
}

/// Finds the nearest `Script` frame from the top of the stack.
fn find_script(stack: &Vec<Frame>) -> (r: Option<usize>)
    ensures
        match r {
            Some(k) => top_script(stack@) == Some(k as int) && k < stack@.len() && (stack@[k as int]
                matches Frame::Script { .. }),
            None => top_script(stack@) is None,
        },
{
    let mut idx = stack.len();
    proof {
        assert(stack@.take(idx as int) =~= stack@);
    }
    while idx > 0
        invariant
            idx <= stack@.len(),
            top_script(stack@) == top_script(stack@.take(idx as int)),
        decreases idx,
    {
        let k = idx - 1;
        let is_script = matches!(&stack[k], Frame::Script { .. });
        proof {
            assert(stack@.take(idx as int).last() == stack@[k as int]);
            assert(stack@.take(idx as int).drop_last() =~= stack@.take(k as int));
        }
        if is_script {
            return Some(k);
        }
        idx = k;
    }
    None
}

} // verus!
