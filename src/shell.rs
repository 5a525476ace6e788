//! The shell session and the decisions of its execution engine.
//!
//! The engine is a state machine over the commands of one line: `step` takes
//! the next command and says what is to be done with it, and the caller does
//! that outside work (printing, changing directory, spawning a process) and,
//! for a spawn, reports back through `Run::spawn_result`. The running state is
//! a `Run`: the next command, whether a captured output waits for the next
//! stage, and whether the pipeline was stopped.
use vstd::prelude::*;

use crate::builtins::{cd, cd_action, decimal, decimal_string, help, help_lines, message, pwd, pwd_action};
use crate::commands::{Command, CommandIO, CommandView, IoView, commands_view, strings_view};
use crate::config::Config;
use crate::unicode::{is_whitespace, white_space};
use crate::vars::{Entry, VarStore, assign, keys_unique, lemma_assign, resolve};

verus! {

/// Where a stage reads its standard input from.
#[derive(Debug, PartialEq, Eq)]
pub enum StdinPlan {
    /// The shell's own standard input.
    Inherit,
    /// The captured output of the stage spawned before.
    Previous,
    /// A file opened for reading.
    File(String),
}

/// Where a stage writes its standard output to.
#[derive(Debug, PartialEq, Eq)]
pub enum StdoutPlan {
    /// The shell's own standard output.
    Inherit,
    /// Captured, for the next stage to read.
    Piped,
    /// A file created, or truncated, for writing.
    File(String),
}

pub ghost enum StdinView {
    Inherit,
    Previous,
    File(Seq<char>),
}

pub ghost enum StdoutView {
    Inherit,
    Piped,
    File(Seq<char>),
}

impl View for StdinPlan {
    type V = StdinView;

    open spec fn view(&self) -> StdinView {
        match self {
            StdinPlan::Inherit => StdinView::Inherit,
            StdinPlan::Previous => StdinView::Previous,
            StdinPlan::File(p) => StdinView::File(p@),
        }
    }
}

impl View for StdoutPlan {
    type V = StdoutView;

    open spec fn view(&self) -> StdoutView {
        match self {
            StdoutPlan::Inherit => StdoutView::Inherit,
            StdoutPlan::Piped => StdoutView::Piped,
            StdoutPlan::File(p) => StdoutView::File(p@),
        }
    }
}

/// One external process to spawn: the program, its arguments, and where its
/// standard streams go. Standard error is always inherited.
#[derive(Debug, PartialEq, Eq)]
pub struct Stage {
    pub program: String,
    pub args: Vec<String>,
    pub stdin: StdinPlan,
    pub stdout: StdoutPlan,
}

/// How the execution of a line ends.
#[derive(Debug, Clone, Copy, PartialEq, Eq, Structural)]
pub enum ExecOutcome {
    Continue,
    ExitRequested,
}

/// What the engine asks its caller to do.
#[derive(Debug, PartialEq, Eq)]
pub enum Action {
    /// Print these lines on standard output.
    Print(Vec<String>),
    /// Change the working directory to this path.
    ChangeDir(String),
    /// Print the working directory.
    PrintCwd,
    /// Switch to command generation mode.
    EnterWish,
    /// Spawn this stage.
    Spawn(Stage),
    /// Nothing outside the session.
    Nothing,
    /// Wait on every spawned process, in the order of spawning; the line is done.
    Finish(ExecOutcome),
}

pub ghost enum ActionView {
    Print(Seq<Seq<char>>),
    ChangeDir(Seq<char>),
    PrintCwd,
    EnterWish,
    Spawn { program: Seq<char>, args: Seq<Seq<char>>, stdin: StdinView, stdout: StdoutView },
    Nothing,
    Finish(ExecOutcome),
}

impl View for Action {
    type V = ActionView;

    open spec fn view(&self) -> ActionView {
        match self {
            Action::Print(lines) => ActionView::Print(strings_view(lines@)),
            Action::ChangeDir(p) => ActionView::ChangeDir(p@),
            Action::PrintCwd => ActionView::PrintCwd,
            Action::EnterWish => ActionView::EnterWish,
            Action::Spawn(st) => ActionView::Spawn {
                program: st.program@,
                args: strings_view(st.args@),
                stdin: st.stdin@,
                stdout: st.stdout@,
            },
            Action::Nothing => ActionView::Nothing,
            Action::Finish(o) => ActionView::Finish(*o),
        }
    }
}

/// What became of a spawn that the engine asked for.
#[derive(Debug, Clone, Copy, PartialEq, Eq, Structural)]
pub enum SpawnOutcome {
    /// The process runs.
    Started,
    /// A redirection file could not be opened: the pipeline stops here.
    RedirectFailed,
    /// The program could not be run; the next commands still are.
    Failed,
}

/// The running state of the engine over the commands of one line.
#[derive(Debug, Clone, Copy, PartialEq, Eq, Structural)]
pub struct Run {
    /// The index of the next command.
    pub next: usize,
    /// A captured output of the last spawned stage waits for a reader.
    pub piped: bool,
    /// A redirection failed: no further command runs.
    pub stopped: bool,
    /// The number of processes started, all of which are to be waited on.
    pub spawned: usize,
    /// The stage last asked for has its output captured.
    pub stage_piped: bool,
}

/// The state before the first command of a line.
pub open spec fn run_start() -> Run {
    Run { next: 0, piped: false, stopped: false, spawned: 0, stage_piped: false }
}

/// The state after the caller reports what became of the spawn last asked for.
pub open spec fn after_spawn(run: Run, o: SpawnOutcome) -> Run {
    match o {
        SpawnOutcome::Started => Run {
            piped: run.stage_piped,
            spawned: (run.spawned + 1) as usize,
            ..run
        },
        SpawnOutcome::RedirectFailed => Run { stopped: true, ..run },
        SpawnOutcome::Failed => run,
    }
}

impl Run {
    pub fn new() -> (r: Run)
        ensures
            r == run_start(),
    {
        Run { next: 0, piped: false, stopped: false, spawned: 0, stage_piped: false }
    }

    /// Takes in what became of the spawn last asked for: a started process
    /// passes on its captured output, if any; a failed redirection stops the
    /// pipeline.
    pub fn spawn_result(&mut self, o: SpawnOutcome)
        requires
            old(self).spawned < usize::MAX,
        ensures
            *final(self) == after_spawn(*old(self), o),
    {
        match o {
            SpawnOutcome::Started => {
                self.piped = self.stage_piped;
                self.spawned = self.spawned + 1;
            },
            SpawnOutcome::RedirectFailed => {
                self.stopped = true;
            },
            SpawnOutcome::Failed => {},
        }
    }
}

/// Characters that may stand in a variable's name after `$`.
pub open spec fn name_char(c: char) -> bool {
    !white_space(c) && c != '$' && c != '='
}

/// The end of the variable name that begins at `j`.
pub open spec fn name_end(s: Seq<char>, j: int) -> int
    decreases s.len() - j,
{
    if 0 <= j < s.len() && name_char(s[j]) {
        name_end(s, j + 1)
    } else {
        j
    }
}

pub proof fn lemma_name_end_bounds(s: Seq<char>, j: int)
    requires
        0 <= j <= s.len(),
    ensures
        j <= name_end(s, j) <= s.len(),
    decreases s.len() - j,
{
    if j < s.len() && name_char(s[j]) {
        lemma_name_end_bounds(s, j + 1);
    }
}

/// The text from `i` on with each `$name` replaced by the variable's value,
/// where it has one; a name without a value stays as it was written.
pub open spec fn expand_from(store: Seq<Entry>, env: Seq<Entry>, s: Seq<char>, i: int) -> Seq<char>
    decreases s.len() - i,
{
    if i < 0 || i >= s.len() {
        seq![]
    } else if s[i] == '$' {
        let e = name_end(s, i + 1);
        if i < e <= s.len() {
            let rest = expand_from(store, env, s, e);
            match resolve(store, env, s.subrange(i + 1, e)) {
                Some(v) => v + rest,
                None => s.subrange(i, e) + rest,
            }
        } else {
            seq![]
        }
    } else {
        seq![s[i]] + expand_from(store, env, s, i + 1)
    }
}

/// The whole line after expansion.
pub open spec fn expansion(store: Seq<Entry>, env: Seq<Entry>, s: Seq<char>) -> Seq<char> {
    expand_from(store, env, s, 0)
}

/// The value of `k`, or nothing, as `get` prints it.
pub open spec fn value_or_empty(v: Option<Seq<char>>) -> Seq<char> {
    match v {
        Some(x) => x,
        None => seq![],
    }
}

/// What `get` prints for its arguments, the command's name first.
pub open spec fn get_lines(store: Seq<Entry>, env: Seq<Entry>, args: Seq<Seq<char>>) -> Seq<Seq<char>> {
    if args.len() == 1 {
        seq!["get: expected key"@]
    } else if args.len() == 2 {
        seq![value_or_empty(resolve(store, env, args[1]))]
    } else {
        seq!["get: too many arguments"@]
    }
}

/// What `lsv` prints: the number of variables, then each as `name: value`.
pub open spec fn list_lines(store: Seq<Entry>) -> Seq<Seq<char>> {
    seq![decimal(store.len()) + " items:"@] + Seq::new(
        store.len(),
        |i: int| store[i].0 + ": "@ + store[i].1,
    )
}

/// Where an external stage reads from.
pub open spec fn stdin_plan(input: IoView, piped: bool) -> StdinView {
    match input {
        IoView::File(p) => StdinView::File(p),
        IoView::Std => if piped {
            StdinView::Previous
        } else {
            StdinView::Inherit
        },
    }
}

/// Where an external stage writes to: captured unless it is the last command.
pub open spec fn stdout_plan(output: IoView, last: bool) -> StdoutView {
    match output {
        IoView::File(p) => StdoutView::File(p),
        IoView::Std => if last {
            StdoutView::Inherit
        } else {
            StdoutView::Piped
        },
    }
}

/// One step of the engine: the session's variables after it, the running
/// state after it, and what the caller is to do.
pub open spec fn step_spec(store: Seq<Entry>, env: Seq<Entry>, cmds: Seq<CommandView>, run: Run) -> (
    Seq<Entry>,
    Run,
    ActionView,
) {
    if run.stopped || run.next >= cmds.len() {
        (store, run, ActionView::Finish(ExecOutcome::Continue))
    } else {
        let after = Run { next: (run.next + 1) as usize, ..run };
        match cmds[run.next as int] {
            CommandView::Exit => (
                store,
                Run { stopped: true, ..after },
                ActionView::Finish(ExecOutcome::ExitRequested),
            ),
            CommandView::Error(m) => (store, after, ActionView::Print(seq!["error: "@ + m])),
            CommandView::Cd(args) => (store, after, cd_action(args, resolve(store, env, "HOME"@))),
            CommandView::Pwd(args) => (store, after, pwd_action(args)),
            CommandView::Help => (store, after, ActionView::Print(help_lines())),
            CommandView::SetVar(k, v) => (assign(store, k, v), after, ActionView::Nothing),
            CommandView::GetVar(args) => (
                store,
                after,
                ActionView::Print(get_lines(store, env, args)),
            ),
            CommandView::ListVars => (store, after, ActionView::Print(list_lines(store))),
            CommandView::Wish => (store, after, ActionView::EnterWish),
            CommandView::External { args, input, output } => {
                if args.len() == 0 {
                    (store, after, ActionView::Nothing)
                } else {
                    let stdout = stdout_plan(output, run.next + 1 >= cmds.len());
                    (
                        store,
                        Run { piped: false, stage_piped: stdout is Piped, ..after },
                        ActionView::Spawn {
                            program: args[0],
                            args: args.drop_first(),
                            stdin: stdin_plan(input, run.piped),
                            stdout,
                        },
                    )
                }
            },
        }
    }
}

/// Copies the strings of `v` from index `from` on.
fn copy_from(v: &Vec<String>, from: usize) -> (r: Vec<String>)
    requires
        from <= v@.len(),
    ensures
        strings_view(r@) == strings_view(v@).subrange(from as int, v@.len() as int),
{
    let mut r: Vec<String> = Vec::new();
    let mut i: usize = from;
    while i < v.len()
        invariant
            from <= i <= v@.len(),
            strings_view(r@) == strings_view(v@).subrange(from as int, i as int),
        decreases v@.len() - i,
    {
        let ghost before = r@;
        let x = v[i].clone();
        r.push(x);
        proof {
            assert(strings_view(r@) =~= strings_view(before).push(x@));
            assert(strings_view(r@) =~= strings_view(v@).subrange(from as int, i + 1));
        }
        i += 1;
    }
    r
}

/// A shell session: its prompt and its variables.
pub struct Shell {
    prompt: String,
    vars: VarStore,
}

impl Shell {
    pub closed spec fn wf(&self) -> bool {
        self.vars.wf()
    }

    /// The session's variables.
    pub closed spec fn variables(&self) -> Seq<Entry> {
        self.vars@
    }

    /// The prompt.
    pub closed spec fn prompt_view(&self) -> Seq<char> {
        self.prompt@
    }

    pub fn new(config: Config) -> (r: Shell)
        ensures
            r.wf(),
            r.variables() == Seq::<Entry>::empty(),
            r.prompt_view() == config.prompt@,
    {
        Shell { prompt: config.prompt, vars: VarStore::new() }
    }

    /// The text shown before each line of input.
    pub fn prompt(&self) -> (r: &String)
        ensures
            r@ == self.prompt_view(),
    {
        &self.prompt
    }

    /// The session's variables.
    pub fn vars(&self) -> (r: &VarStore)
        ensures
            r@ == self.variables(),
            self.wf() ==> r.wf(),
    {
        &self.vars
    }

    /// The value of `key`: the session's variable, else the environment's.
    pub fn get_var(&self, key: &str, env: &VarStore) -> (r: Option<String>)
        ensures
            match r {
                Some(v) => resolve(self.variables(), env@, key@) == Some(v@),
                None => resolve(self.variables(), env@, key@) is None,
            },
    {
        match self.vars.get(key) {
            Some(v) => Some(v),
            None => env.get(key),
        }
    }

    /// Replaces each `$name` of `input` by the value of `name`, where it has one.
    pub fn expand(&self, input: &str, env: &VarStore) -> (r: String)
        ensures
            r@ == expansion(self.variables(), env@, input@),
    {
        let ghost s = input@;
        let ghost store = self.variables();
        let n = input.unicode_len();
        let mut result = String::new();
        let mut i: usize = 0;
        while i < n
            invariant
                n == s.len(),
                s == input@,
                store == self.variables(),
                i <= n,
                expansion(store, env@, s) == result@ + expand_from(store, env@, s, i as int),
            decreases n - i,
        {
            let ghost before = result@;
            let c = input.get_char(i);
            if c == '$' {
                let mut j: usize = i + 1;
                let mut more = true;
                proof {
                    lemma_name_end_bounds(s, i + 1);
                }
                while j < n && more
                    invariant
                        n == s.len(),
                        s == input@,
                        i < j <= n,
                        name_end(s, i + 1) == if more {
                            name_end(s, j as int)
                        } else {
                            j as int
                        },
                    decreases n - j + (if more { 1int } else { 0int }),
                {
                    let d = input.get_char(j);
                    if d != '$' && d != '=' && !is_whitespace(d) {
                        j += 1;
                    } else {
                        more = false;
                    }
                }
                let name = input.substring_char(i + 1, j);
                match self.get_var(name, env) {
                    Some(v) => {
                        result.append(v.as_str());
                    },
                    None => {
                        result.append(input.substring_char(i, j));
                    },
                }
                proof {
                    let rest = expand_from(store, env@, s, j as int);
                    assert(expand_from(store, env@, s, i as int) == (result@.subrange(
                        before.len() as int,
                        result@.len() as int,
                    )) + rest);
                    assert(result@ =~= before + result@.subrange(
                        before.len() as int,
                        result@.len() as int,
                    ));
                    assert(before + (result@.subrange(before.len() as int, result@.len() as int)
                        + rest) =~= result@ + rest);
                }
                i = j;
            } else {
                let one = input.substring_char(i, i + 1);
                result.append(one);
                proof {
                    assert(one@ =~= seq![c]);
                    let rest = expand_from(store, env@, s, i + 1);
                    assert(before + (seq![c] + rest) =~= result@ + rest);
                }
                i += 1;
            }
        }
        result
    }

    /// The lines that `get` prints.
    pub fn bn_get(&self, args: &Vec<String>, env: &VarStore) -> (r: Vec<String>)
        ensures
            strings_view(r@) == get_lines(self.variables(), env@, strings_view(args@)),
    {
        let mut lines: Vec<String> = Vec::new();
        if args.len() == 1 {
            lines.push(String::from_str("get: expected key"));
        } else if args.len() == 2 {
            match self.get_var(args[1].as_str(), env) {
                Some(v) => lines.push(v),
                None => lines.push(String::new()),
            }
        } else {
            lines.push(String::from_str("get: too many arguments"));
        }
        proof {
            assert(strings_view(lines@) =~= get_lines(
                self.variables(),
                env@,
                strings_view(args@),
            ));
        }
        lines
    }

    /// The lines that `lsv` prints, which depend on the variables alone.
    pub fn bn_lsv(&self) -> (r: Vec<String>)
        ensures
            strings_view(r@) == list_lines(self.variables()),
    {
        let ghost store = self.variables();
        let mut lines: Vec<String> = Vec::new();
        let n = self.vars.len();
        let mut head = decimal_string(n);
        head.append(" items:");
        lines.push(head);
        let mut i: usize = 0;
        while i < n
            invariant
                n == store.len(),
                store == self.variables(),
                i <= n,
                strings_view(lines@) =~= seq![decimal(store.len()) + " items:"@] + Seq::new(
                    i as nat,
                    |k: int| store[k].0 + ": "@ + store[k].1,
                ),
            decreases n - i,
        {
            let (k, v) = self.vars.entry(i);
            let mut line = k.clone();
            line.append(": ");
            line.append(v.as_str());
            let ghost before = lines@;
            lines.push(line);
            proof {
                assert(strings_view(lines@) =~= strings_view(before).push(line@));
            }
            i += 1;
        }
        lines
    }

    /// Decides the next command of a line. Builtins that touch the session's
    /// variables take effect here; for anything else the result says what the
    /// caller is to do.
    pub fn step(&mut self, cmds: &Vec<Command>, run: &mut Run, env: &VarStore) -> (r: Action)
        requires
            old(self).wf(),
        ensures
            final(self).wf(),
            final(self).prompt_view() == old(self).prompt_view(),
            (final(self).variables(), *final(run), r@) == step_spec(
                old(self).variables(),
                env@,
                commands_view(cmds@),
                *old(run),
            ),
    {
        if run.stopped || run.next >= cmds.len() {
            return Action::Finish(ExecOutcome::Continue);
        }
        let i = run.next;
        let last = i + 1 >= cmds.len();
        let ghost cv = commands_view(cmds@);
        assert(cv[i as int] == cmds@[i as int]@);
        run.next = i + 1;
        match &cmds[i] {
            Command::Exit => {
                run.stopped = true;
                Action::Finish(ExecOutcome::ExitRequested)
            },
            Command::Error(m) => {
                let mut line = String::from_str("error: ");
                line.append(m.as_str());
                let mut lines: Vec<String> = Vec::new();
                lines.push(line);
                proof {
                    assert(strings_view(lines@) =~= seq!["error: "@ + m@]);
                }
                Action::Print(lines)
            },
            Command::Cd(args) => {
                let home = self.get_var("HOME", env);
                cd(args, home)
            },
            Command::Pwd(args) => pwd(args),
            Command::Help => Action::Print(help()),
            Command::SetVar(k, v) => {
                self.vars.set(k.clone(), v.clone());
                Action::Nothing
            },
            Command::GetVar(args) => Action::Print(self.bn_get(args, env)),
            Command::ListVars => Action::Print(self.bn_lsv()),
            Command::Wish => Action::EnterWish,
            Command::External { args, input, output } => {
                if args.len() == 0 {
                    Action::Nothing
                } else {
                    let stdin = match input {
                        CommandIO::File(p) => StdinPlan::File(p.clone()),
                        CommandIO::Std => if run.piped {
                            StdinPlan::Previous
                        } else {
                            StdinPlan::Inherit
                        },
                    };
                    let stdout = match output {
                        CommandIO::File(p) => StdoutPlan::File(p.clone()),
                        CommandIO::Std => if last {
                            StdoutPlan::Inherit
                        } else {
                            StdoutPlan::Piped
                        },
                    };
                    run.piped = false;
                    run.stage_piped = match stdout {
                        StdoutPlan::Piped => true,
                        _ => false,
                    };
                    let program = args[0].clone();
                    let rest = copy_from(args, 1);
                    proof {
                        assert(strings_view(args@).subrange(1, args@.len() as int)
                            =~= strings_view(args@).drop_first());
                    }
                    Action::Spawn(Stage { program, args: rest, stdin, stdout })
                }
            },
        }
    }
}

/// A step on any command but an assignment leaves the session's variables as
/// they were.
pub proof fn lemma_step_keeps_variables(
    store: Seq<Entry>,
    env: Seq<Entry>,
    cmds: Seq<CommandView>,
    run: Run,
)
    requires
        !(run.next < cmds.len() && cmds[run.next as int] is SetVar),
    ensures
        step_spec(store, env, cmds, run).0 == store,
{
}

/// Listing the variables leaves them as they were, and prints what depends
/// on them alone: two listings with no assignment in between print the same.
pub proof fn lemma_list_twice(
    store: Seq<Entry>,
    env: Seq<Entry>,
    cmds: Seq<CommandView>,
    first: Run,
    second: Run,
)
    requires
        !first.stopped,
        !second.stopped,
        first.next < cmds.len(),
        second.next < cmds.len(),
        cmds[first.next as int] is ListVars,
        cmds[second.next as int] is ListVars,
    ensures
        step_spec(store, env, cmds, first).0 == store,
        step_spec(store, env, cmds, first).2 == ActionView::Print(list_lines(store)),
        step_spec(step_spec(store, env, cmds, first).0, env, cmds, second).2 == step_spec(
            store,
            env,
            cmds,
            first,
        ).2,
{
}

/// A variable set on one line reads back with `get` on the next.
pub proof fn lemma_set_then_get(store: Seq<Entry>, env: Seq<Entry>, k: Seq<char>, v: Seq<char>)
    requires
        keys_unique(store),
    ensures
        ({
            let set = step_spec(store, env, seq![CommandView::SetVar(k, v)], run_start());
            let get = step_spec(
                set.0,
                env,
                seq![CommandView::GetVar(seq!["get"@, k])],
                run_start(),
            );
            &&& set.2 == ActionView::Nothing
            &&& get.2 == ActionView::Print(seq![v])
        }),
{
    lemma_assign(store, k, v);
}

/// An external command that keeps its standard streams.
pub open spec fn plain_stage(args: Seq<Seq<char>>) -> CommandView {
    CommandView::External { args, input: IoView::Std, output: IoView::Std }
}

/// 1 for a started process, 0 otherwise.
pub open spec fn started(o: SpawnOutcome) -> int {
    if o == SpawnOutcome::Started {
        1
    } else {
        0
    }
}

/// Three external commands without redirection form one pipeline. The first
/// reads the shell's input; the first two have their output captured; each
/// later stage reads what the stage before it wrote, where that one started;
/// the last writes to the shell's output. Each stage is tried whatever became
/// of the others, and the line then finishes with every started process to be
/// waited on. Each stage takes the captured output waiting for it, so no output
/// has a second reader. Where all three start, the stages are joined by
/// exactly two pipes. Standard error has no plan: every stage inherits it.
pub proof fn lemma_three_stage_pipeline(
    store: Seq<Entry>,
    env: Seq<Entry>,
    a: Seq<Seq<char>>,
    b: Seq<Seq<char>>,
    c: Seq<Seq<char>>,
    o1: SpawnOutcome,
    o2: SpawnOutcome,
    o3: SpawnOutcome,
)
    requires
        a.len() > 0,
        b.len() > 0,
        c.len() > 0,
        o1 != SpawnOutcome::RedirectFailed,
        o2 != SpawnOutcome::RedirectFailed,
        o3 != SpawnOutcome::RedirectFailed,
    ensures
        ({
            let cmds = seq![plain_stage(a), plain_stage(b), plain_stage(c)];
            let s1 = step_spec(store, env, cmds, run_start());
            let s2 = step_spec(s1.0, env, cmds, after_spawn(s1.1, o1));
            let s3 = step_spec(s2.0, env, cmds, after_spawn(s2.1, o2));
            let s4 = step_spec(s3.0, env, cmds, after_spawn(s3.1, o3));
            &&& s1.2 == ActionView::Spawn {
                program: a[0],
                args: a.drop_first(),
                stdin: StdinView::Inherit,
                stdout: StdoutView::Piped,
            }
            &&& s2.2 == ActionView::Spawn {
                program: b[0],
                args: b.drop_first(),
                stdin: if o1 == SpawnOutcome::Started {
                    StdinView::Previous
                } else {
                    StdinView::Inherit
                },
                stdout: StdoutView::Piped,
            }
            &&& s3.2 == ActionView::Spawn {
                program: c[0],
                args: c.drop_first(),
                stdin: if o2 == SpawnOutcome::Started {
                    StdinView::Previous
                } else {
                    StdinView::Inherit
                },
                stdout: StdoutView::Inherit,
            }
            &&& !s1.1.piped && !s2.1.piped && !s3.1.piped
            &&& s4.2 == ActionView::Finish(ExecOutcome::Continue)
            &&& s4.1.spawned == started(o1) + started(o2) + started(o3)
            &&& s4.0 == store
        }),
{
}

} // verus!
