//! The command builder: groups the tokens of one line into commands.
//!
//! A line is a run of assignments `key=value`, then a pipeline whose stages are
//! separated by `|`. A stage may redirect its input with `< path` and its
//! output with `> path`; a second redirection of the same direction replaces
//! the first.
use vstd::prelude::*;

use crate::scanner::{Token, TokenView, tokens_view};

verus! {

/// Where a command reads from or writes to.
#[derive(Debug, PartialEq, Eq)]
pub enum CommandIO {
    Std,
    File(String),
}

pub ghost enum IoView {
    Std,
    File(Seq<char>),
}

impl View for CommandIO {
    type V = IoView;

    open spec fn view(&self) -> IoView {
        match self {
            CommandIO::Std => IoView::Std,
            CommandIO::File(p) => IoView::File(p@),
        }
    }
}

#[derive(Debug, PartialEq, Eq)]
pub enum Command {
    Exit,
    Help,
    Cd(Vec<String>),
    Pwd(Vec<String>),
    SetVar(String, String),
    GetVar(Vec<String>),
    ListVars,
    External { args: Vec<String>, input: CommandIO, output: CommandIO },
    Wish,
    Error(String),
}

pub ghost enum CommandView {
    Exit,
    Help,
    Cd(Seq<Seq<char>>),
    Pwd(Seq<Seq<char>>),
    SetVar(Seq<char>, Seq<char>),
    GetVar(Seq<Seq<char>>),
    ListVars,
    External { args: Seq<Seq<char>>, input: IoView, output: IoView },
    Wish,
    Error(Seq<char>),
}

/// The text of each string of a sequence.
pub open spec fn strings_view(v: Seq<String>) -> Seq<Seq<char>> {
    v.map_values(|s: String| s@)
}

impl View for Command {
    type V = CommandView;

    open spec fn view(&self) -> CommandView {
        match self {
            Command::Exit => CommandView::Exit,
            Command::Help => CommandView::Help,
            Command::Cd(a) => CommandView::Cd(strings_view(a@)),
            Command::Pwd(a) => CommandView::Pwd(strings_view(a@)),
            Command::SetVar(k, v) => CommandView::SetVar(k@, v@),
            Command::GetVar(a) => CommandView::GetVar(strings_view(a@)),
            Command::ListVars => CommandView::ListVars,
            Command::External { args, input, output } => CommandView::External {
                args: strings_view(args@),
                input: input@,
                output: output@,
            },
            Command::Wish => CommandView::Wish,
            Command::Error(m) => CommandView::Error(m@),
        }
    }
}

/// The view of each command of a sequence.
pub open spec fn commands_view(v: Seq<Command>) -> Seq<CommandView> {
    v.map_values(|c: Command| c@)
}

/// The command that a non-empty argument list names, by its first word.
pub open spec fn classify(args: Seq<Seq<char>>, input: IoView, output: IoView) -> CommandView {
    let name = args[0];
    if name == "exit"@ {
        CommandView::Exit
    } else if name == "cd"@ {
        CommandView::Cd(args)
    } else if name == "pwd"@ {
        CommandView::Pwd(args)
    } else if name == "lsv"@ {
        CommandView::ListVars
    } else if name == "get"@ {
        CommandView::GetVar(args)
    } else if name == "help"@ {
        CommandView::Help
    } else if name == "wish"@ {
        CommandView::Wish
    } else {
        CommandView::External { args, input, output }
    }
}

/// The index of the first `=` of `s` at or after `i`, or the length of `s`.
pub open spec fn equals_index(s: Seq<char>, i: int) -> int
    decreases s.len() - i,
{
    if 0 <= i < s.len() {
        if s[i] == '=' {
            i
        } else {
            equals_index(s, i + 1)
        }
    } else {
        s.len() as int
    }
}

/// The key and the value of an assignment `key=value`: the key is what stands
/// before the first `=`, and must not be empty.
pub open spec fn assignment(s: Seq<char>) -> Option<(Seq<char>, Seq<char>)> {
    let f = equals_index(s, 0);
    if 0 < f < s.len() {
        Some((s.subrange(0, f), s.subrange(f + 1, s.len() as int)))
    } else {
        None
    }
}

/// The last command of a stage, if any argument was gathered for it.
pub open spec fn finish(args: Seq<Seq<char>>, input: IoView, output: IoView) -> Seq<CommandView> {
    if args.len() == 0 {
        seq![]
    } else {
        seq![classify(args, input, output)]
    }
}

/// The commands that the tokens from `i` on give, where the current stage has
/// gathered `args` and the redirections `input` and `output`.
pub open spec fn pipeline(
    ts: Seq<TokenView>,
    i: int,
    args: Seq<Seq<char>>,
    input: IoView,
    output: IoView,
) -> Seq<CommandView>
    decreases ts.len() - i,
{
    if i < 0 || i >= ts.len() {
        finish(args, input, output)
    } else {
        match ts[i] {
            TokenView::Pipe => {
                if args.len() == 0 {
                    seq![CommandView::Error("syntax error: | |"@)]
                } else {
                    seq![classify(args, input, output)] + pipeline(
                        ts,
                        i + 1,
                        seq![],
                        IoView::Std,
                        IoView::Std,
                    )
                }
            },
            TokenView::Literal(l) => pipeline(ts, i + 1, args.push(l), input, output),
            TokenView::Greater => {
                if i + 1 < ts.len() && ts[i + 1] is Literal {
                    pipeline(ts, i + 2, args, input, IoView::File(ts[i + 1]->Literal_0))
                } else {
                    seq![CommandView::Error("syntax error: no path provided after >"@)]
                }
            },
            TokenView::Less => {
                if i + 1 < ts.len() && ts[i + 1] is Literal {
                    pipeline(ts, i + 2, args, IoView::File(ts[i + 1]->Literal_0), output)
                } else {
                    seq![CommandView::Error("syntax error: no path provided after <"@)]
                }
            },
            TokenView::Eof => finish(args, input, output),
        }
    }
}

/// The commands of the tokens from `i` on: the leading assignments, then the
/// pipeline.
pub open spec fn build_from(ts: Seq<TokenView>, i: int) -> Seq<CommandView>
    decreases ts.len() - i,
{
    if 0 <= i < ts.len() && ts[i] is Literal && assignment(ts[i]->Literal_0) is Some {
        let (k, v) = assignment(ts[i]->Literal_0)->Some_0;
        seq![CommandView::SetVar(k, v)] + build_from(ts, i + 1)
    } else {
        pipeline(ts, i, seq![], IoView::Std, IoView::Std)
    }
}

/// The commands of a whole token sequence.
pub open spec fn build(ts: Seq<TokenView>) -> Seq<CommandView> {
    build_from(ts, 0)
}

/// Every external command has a program name, and no assignment stands in a
/// pipeline.
pub open spec fn stage_ok(c: CommandView) -> bool {
    &&& (c is External ==> c->External_args.len() > 0)
    &&& !(c is SetVar)
}

proof fn lemma_pipeline_stages(
    ts: Seq<TokenView>,
    i: int,
    args: Seq<Seq<char>>,
    input: IoView,
    output: IoView,
)
    ensures
        forall|j: int|
            0 <= j < pipeline(ts, i, args, input, output).len() ==> stage_ok(
                #[trigger] pipeline(ts, i, args, input, output)[j],
            ),
    decreases ts.len() - i,
{
    let r = pipeline(ts, i, args, input, output);
    if args.len() > 0 {
        assert(stage_ok(classify(args, input, output)));
    }
    if i < 0 || i >= ts.len() || ts[i] is Eof {
        assert(r == finish(args, input, output));
    } else if ts[i] is Pipe {
        if args.len() > 0 {
            let rest = pipeline(ts, i + 1, seq![], IoView::Std, IoView::Std);
            lemma_pipeline_stages(ts, i + 1, seq![], IoView::Std, IoView::Std);
            assert(r == seq![classify(args, input, output)] + rest);
            assert forall|j: int| 0 <= j < r.len() implies stage_ok(#[trigger] r[j]) by {
                if j > 0 {
                    assert(r[j] == rest[j - 1]);
                }
            }
        }
    } else if ts[i] is Literal {
        let l = ts[i]->Literal_0;
        lemma_pipeline_stages(ts, i + 1, args.push(l), input, output);
        assert(r == pipeline(ts, i + 1, args.push(l), input, output));
    } else if i + 1 < ts.len() && ts[i + 1] is Literal {
        let p = IoView::File(ts[i + 1]->Literal_0);
        if ts[i] is Greater {
            lemma_pipeline_stages(ts, i + 2, args, input, p);
            assert(r == pipeline(ts, i + 2, args, input, p));
        } else {
            lemma_pipeline_stages(ts, i + 2, args, p, output);
            assert(r == pipeline(ts, i + 2, args, p, output));
        }
    }
}

/// The commands of a line: assignments first, then the pipeline's commands, in
/// which every external command has a program name.
pub proof fn lemma_build_shape(ts: Seq<TokenView>, i: int)
    ensures
        ({
            let r = build_from(ts, i);
            &&& forall|j: int|
                0 <= j < r.len() && (#[trigger] r[j] is External) ==> r[j]->External_args.len()
                    > 0
            &&& forall|a: int, b: int|
                0 <= a < b < r.len() && (#[trigger] r[b] is SetVar) ==> #[trigger] r[a] is SetVar
        }),
    decreases ts.len() - i,
{
    let r = build_from(ts, i);
    if 0 <= i < ts.len() && ts[i] is Literal && assignment(ts[i]->Literal_0) is Some {
        lemma_build_shape(ts, i + 1);
        let rest = build_from(ts, i + 1);
        assert forall|j: int| 0 <= j < r.len() && j > 0 implies #[trigger] r[j] == rest[j - 1] by {}
        assert forall|a: int, b: int|
            0 <= a < b < r.len() && (#[trigger] r[b] is SetVar) implies #[trigger] r[a] is SetVar by {
            if a > 0 {
                assert(r[a] == rest[a - 1]);
                assert(r[b] == rest[b - 1]);
            }
        }
    } else {
        lemma_pipeline_stages(ts, i, seq![], IoView::Std, IoView::Std);
        assert forall|j: int| 0 <= j < r.len() implies stage_ok(#[trigger] r[j]) by {}
    }
}

/// Whether `s` holds exactly the characters of `w`.
pub fn is_word(s: &String, w: &str) -> (r: bool)
    ensures
        r == (s@ == w@),
{
    let t = String::from_str(w);
    *s == t
}

/// Splits `key=value` at its first `=`; `None` where there is none, or where
/// the key would be empty.
pub fn split_assignment(l: &String) -> (r: Option<(String, String)>)
    ensures
        match r {
            Some((k, v)) => assignment(l@) == Some((k@, v@)),
            None => assignment(l@) is None,
        },
{
    let s = l.as_str();
    let n = s.unicode_len();
    let mut i: usize = 0;
    let mut found = false;
    while i < n && !found
        invariant
            n == l@.len(),
            s@ == l@,
            i <= n,
            equals_index(l@, 0) == if found {
                i as int
            } else {
                equals_index(l@, i as int)
            },
            found ==> i < n,
        decreases n - i + (if found { 0int } else { 1int }),
    {
        if s.get_char(i) == '=' {
            found = true;
        } else {
            i += 1;
        }
    }
    if found && i > 0 {
        let k = String::from_str(s.substring_char(0, i));
        let v = String::from_str(s.substring_char(i + 1, n));
        Some((k, v))
    } else {
        None
    }
}

impl Command {
    /// Classifies a finished argument list by its first word.
    pub fn from(args: Vec<String>, input: CommandIO, output: CommandIO) -> (r: Command)
        requires
            args@.len() > 0,
        ensures
            r@ == classify(strings_view(args@), input@, output@),
    {
        if is_word(&args[0], "exit") {
            Command::Exit
        } else if is_word(&args[0], "cd") {
            Command::Cd(args)
        } else if is_word(&args[0], "pwd") {
            Command::Pwd(args)
        } else if is_word(&args[0], "lsv") {
            Command::ListVars
        } else if is_word(&args[0], "get") {
            Command::GetVar(args)
        } else if is_word(&args[0], "help") {
            Command::Help
        } else if is_word(&args[0], "wish") {
            Command::Wish
        } else {
            Command::External { args, input, output }
        }
    }

    /// The commands of one line: its leading assignments, then its pipeline.
    pub fn process_input(tokens: Vec<Token>) -> (r: Vec<Command>)
        ensures
            commands_view(r@) == build(tokens_view(tokens@)),
    {
        let ghost ts = tokens_view(tokens@);
        let mut cmds: Vec<Command> = Vec::new();
        let n = tokens.len();
        let mut i: usize = 0;
        let mut more = true;
        while i < n && more
            invariant
                n == tokens@.len(),
                ts == tokens_view(tokens@),
                i <= n,
                build(ts) == commands_view(cmds@) + build_from(ts, i as int),
                !more ==> !(ts[i as int] is Literal && assignment(ts[i as int]->Literal_0) is Some),
                !more ==> i < n,
            decreases n - i + (if more { 1int } else { 0int }),
        {
            more = false;
            if let Token::Literal(l) = &tokens[i] {
                if let Some((k, v)) = split_assignment(l) {
                    let ghost before = cmds@;
                    let c = Command::SetVar(k, v);
                    cmds.push(c);
                    proof {
                        assert(commands_view(cmds@) =~= commands_view(before).push(c@));
                        assert(commands_view(cmds@) + build_from(ts, i + 1) =~= commands_view(before)
                            + (seq![c@] + build_from(ts, i + 1)));
                    }
                    i += 1;
                    more = true;
                }
            }
        }
        let mut rest = Self::build_piped_commands(&tokens, i);
        let ghost before = cmds@;
        cmds.append(&mut rest);
        proof {
            assert(commands_view(cmds@) =~= commands_view(before) + build_from(ts, i as int));
        }
        cmds
    }

    fn build_piped_commands(tokens: &Vec<Token>, start: usize) -> (r: Vec<Command>)
        requires
            start <= tokens@.len(),
        ensures
            commands_view(r@) == pipeline(
                tokens_view(tokens@),
                start as int,
                seq![],
                IoView::Std,
                IoView::Std,
            ),
    {
        let ghost ts = tokens_view(tokens@);
        let ghost goal = pipeline(ts, start as int, seq![], IoView::Std, IoView::Std);
        let mut cmds: Vec<Command> = Vec::new();
        let mut args: Vec<String> = Vec::new();
        let mut input = CommandIO::Std;
        let mut output = CommandIO::Std;
        let n = tokens.len();
        let mut i: usize = start;
        let mut done = false;
        proof {
            assert(strings_view(args@) =~= seq![]);
            assert(commands_view(cmds@) + goal =~= goal);
        }
        while i < n && !done
            invariant
                n == tokens@.len(),
                ts == tokens_view(tokens@),
                i <= n,
                goal == commands_view(cmds@) + if done {
                    finish(strings_view(args@), input@, output@)
                } else {
                    pipeline(ts, i as int, strings_view(args@), input@, output@)
                },
            decreases n - i + (if done { 0int } else { 1int }),
        {
            let ghost before = cmds@;
            match &tokens[i] {
                Token::Pipe => {
                    if args.len() == 0 {
                        let c = Command::Error(String::from_str("syntax error: | |"));
                        cmds.push(c);
                        proof {
                            assert(commands_view(cmds@) =~= commands_view(before).push(c@));
                            assert(commands_view(before) + seq![c@] =~= commands_view(cmds@)
                                + finish(strings_view(args@), input@, output@));
                        }
                        done = true;
                    } else {
                        let c = Command::from(args, input, output);
                        cmds.push(c);
                        args = Vec::new();
                        input = CommandIO::Std;
                        output = CommandIO::Std;
                        proof {
                            assert(commands_view(cmds@) =~= commands_view(before).push(c@));
                            assert(strings_view(args@) =~= seq![]);
                            let rest = pipeline(ts, i + 1, seq![], IoView::Std, IoView::Std);
                            assert(commands_view(before) + (seq![c@] + rest) =~= commands_view(
                                cmds@,
                            ) + rest);
                        }
                        i += 1;
                    }
                },
                Token::Literal(l) => {
                    let ghost old_args = args@;
                    args.push(l.clone());
                    proof {
                        assert(strings_view(args@) =~= strings_view(old_args).push(l@));
                    }
                    i += 1;
                },
                Token::Greater => {
                    let mut path: Option<String> = None;
                    if i + 1 < n {
                        if let Token::Literal(p) = &tokens[i + 1] {
                            path = Some(p.clone());
                        }
                    }
                    match path {
                        Some(p) => {
                            output = CommandIO::File(p);
                            i += 2;
                        },
                        None => {
                            let c = Command::Error(
                                String::from_str("syntax error: no path provided after >"),
                            );
                            cmds.push(c);
                            args = Vec::new();
                            proof {
                                assert(commands_view(cmds@) =~= commands_view(before).push(c@));
                                assert(strings_view(args@) =~= seq![]);
                                assert(commands_view(before) + seq![c@] =~= commands_view(cmds@)
                                    + finish(strings_view(args@), input@, output@));
                            }
                            done = true;
                        },
                    }
                },
                Token::Less => {
                    let mut path: Option<String> = None;
                    if i + 1 < n {
                        if let Token::Literal(p) = &tokens[i + 1] {
                            path = Some(p.clone());
                        }
                    }
                    match path {
                        Some(p) => {
                            input = CommandIO::File(p);
                            i += 2;
                        },
                        None => {
                            let c = Command::Error(
                                String::from_str("syntax error: no path provided after <"),
                            );
                            cmds.push(c);
                            args = Vec::new();
                            proof {
                                assert(commands_view(cmds@) =~= commands_view(before).push(c@));
                                assert(strings_view(args@) =~= seq![]);
                                assert(commands_view(before) + seq![c@] =~= commands_view(cmds@)
                                    + finish(strings_view(args@), input@, output@));
                            }
                            done = true;
                        },
                    }
                },
                Token::Eof => {
                    done = true;
                },
            }
        }
        if args.len() > 0 {
            let ghost before = cmds@;
            let c = Command::from(args, input, output);
            cmds.push(c);
            proof {
                assert(commands_view(cmds@) =~= commands_view(before).push(c@));
            }
        } else {
            proof {
                assert(commands_view(cmds@) + seq![] =~= commands_view(cmds@));
            }
        }
        cmds
    }
}

} // verus!
