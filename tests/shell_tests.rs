use wsh::builtins::{cd, decimal_string, help, pwd};
use wsh::commands::Command;
use wsh::scanner::Scanner;
use wsh::shell::{Action, ExecOutcome, Run, SpawnOutcome, Stage, StdinPlan, StdoutPlan};
use wsh::vars::VarStore;
use wsh::{Config, Shell};

fn build(line: &str) -> Vec<Command> {
    Command::process_input(Scanner::new(line).scan_tokens().unwrap())
}

fn strings(v: &[&str]) -> Vec<String> {
    v.iter().map(|s| s.to_string()).collect()
}

fn shell() -> Shell {
    Shell::new(Config::default())
}

fn store(pairs: &[(&str, &str)]) -> VarStore {
    let mut s = VarStore::new();
    for (k, v) in pairs {
        s.set(k.to_string(), v.to_string());
    }
    s
}

/// Runs a line to its end, every spawn starting; returns what was asked for.
fn run_line(sh: &mut Shell, line: &str, env: &VarStore) -> Vec<Action> {
    let cmds = build(line);
    let mut run = Run::new();
    let mut actions = Vec::new();
    loop {
        let a = sh.step(&cmds, &mut run, env);
        let done = matches!(a, Action::Finish(_));
        if matches!(a, Action::Spawn(_)) {
            run.spawn_result(SpawnOutcome::Started);
        }
        actions.push(a);
        if done {
            return actions;
        }
    }
}

fn print(lines: &[&str]) -> Action {
    Action::Print(strings(lines))
}

fn spawn(program: &str, args: &[&str], stdin: StdinPlan, stdout: StdoutPlan) -> Action {
    Action::Spawn(Stage {
        program: program.to_owned(),
        args: strings(args),
        stdin,
        stdout,
    })
}

const DONE: Action = Action::Finish(ExecOutcome::Continue);

#[test]
fn set_then_get_prints_value() {
    let mut sh = shell();
    let env = VarStore::new();
    assert_eq!(run_line(&mut sh, "x=5", &env), vec![Action::Nothing, DONE]);
    assert_eq!(run_line(&mut sh, "get x", &env), vec![print(&["5"]), DONE]);
}

#[test]
fn three_stage_pipeline_is_wired_by_two_pipes() {
    let mut sh = shell();
    let env = VarStore::new();
    let actions = run_line(&mut sh, "a | b x | c", &env);
    assert_eq!(
        actions,
        vec![
            spawn("a", &[], StdinPlan::Inherit, StdoutPlan::Piped),
            spawn("b", &["x"], StdinPlan::Previous, StdoutPlan::Piped),
            spawn("c", &[], StdinPlan::Previous, StdoutPlan::Inherit),
            DONE
        ]
    );
    let pipes = actions
        .iter()
        .filter(|a| matches!(a, Action::Spawn(st) if st.stdin == StdinPlan::Previous))
        .count();
    assert_eq!(pipes, 2);
}

#[test]
fn failed_spawn_does_not_stop_later_stages() {
    let mut sh = shell();
    let env = VarStore::new();
    let cmds = build("a | b | c");
    let mut run = Run::new();
    assert_eq!(
        sh.step(&cmds, &mut run, &env),
        spawn("a", &[], StdinPlan::Inherit, StdoutPlan::Piped)
    );
    run.spawn_result(SpawnOutcome::Failed);
    assert_eq!(
        sh.step(&cmds, &mut run, &env),
        spawn("b", &[], StdinPlan::Inherit, StdoutPlan::Piped)
    );
    run.spawn_result(SpawnOutcome::Started);
    assert_eq!(
        sh.step(&cmds, &mut run, &env),
        spawn("c", &[], StdinPlan::Previous, StdoutPlan::Inherit)
    );
    run.spawn_result(SpawnOutcome::Started);
    assert_eq!(sh.step(&cmds, &mut run, &env), DONE);
    assert_eq!(run.spawned, 2);
}

#[test]
fn failed_redirection_stops_the_pipeline() {
    let mut sh = shell();
    let env = VarStore::new();
    let cmds = build("a | b < missing | c");
    let mut run = Run::new();
    assert_eq!(
        sh.step(&cmds, &mut run, &env),
        spawn("a", &[], StdinPlan::Inherit, StdoutPlan::Piped)
    );
    run.spawn_result(SpawnOutcome::Started);
    assert_eq!(
        sh.step(&cmds, &mut run, &env),
        spawn(
            "b",
            &[],
            StdinPlan::File("missing".to_owned()),
            StdoutPlan::Piped
        )
    );
    run.spawn_result(SpawnOutcome::RedirectFailed);
    assert!(run.stopped);
    assert_eq!(sh.step(&cmds, &mut run, &env), DONE);
    assert_eq!(run.spawned, 1);
}

#[test]
fn output_redirection_plans_a_file() {
    let mut sh = shell();
    let env = VarStore::new();
    assert_eq!(
        run_line(&mut sh, "echo hi > out.txt | wc", &env),
        vec![
            spawn(
                "echo",
                &["hi"],
                StdinPlan::Inherit,
                StdoutPlan::File("out.txt".to_owned())
            ),
            spawn("wc", &[], StdinPlan::Inherit, StdoutPlan::Inherit),
            DONE
        ]
    );
}

#[test]
fn listing_twice_prints_the_same() {
    let mut sh = shell();
    let env = VarStore::new();
    run_line(&mut sh, "b=2 a=1", &env);
    let first = run_line(&mut sh, "lsv", &env);
    let second = run_line(&mut sh, "lsv", &env);
    assert_eq!(first, second);
    assert_eq!(first, vec![print(&["2 items:", "b: 2", "a: 1"]), DONE]);
    assert_eq!(
        run_line(&mut sh, "lsv | lsv", &env),
        vec![
            print(&["2 items:", "b: 2", "a: 1"]),
            print(&["2 items:", "b: 2", "a: 1"]),
            DONE
        ]
    );
}

#[test]
fn listing_empty_store() {
    let mut sh = shell();
    let env = VarStore::new();
    assert_eq!(run_line(&mut sh, "lsv", &env), vec![print(&["0 items:"]), DONE]);
}

#[test]
fn overwriting_keeps_the_place() {
    let mut sh = shell();
    let env = VarStore::new();
    run_line(&mut sh, "a=1 b=2 a=3", &env);
    assert_eq!(
        run_line(&mut sh, "lsv", &env),
        vec![print(&["2 items:", "a: 3", "b: 2"]), DONE]
    );
}

#[test]
fn expansion_then_external_command() {
    let mut sh = shell();
    let env = VarStore::new();
    run_line(&mut sh, "name=world", &env);
    let line = sh.expand("echo hello $name", &env);
    assert_eq!(line, "echo hello world");
    let cmds = build(&line);
    assert_eq!(
        cmds,
        vec![Command::External {
            args: strings(&["echo", "hello", "world"]),
            input: wsh::commands::CommandIO::Std,
            output: wsh::commands::CommandIO::Std,
        }]
    );
    assert_eq!(
        run_line(&mut sh, &line, &env),
        vec![
            spawn("echo", &["hello", "world"], StdinPlan::Inherit, StdoutPlan::Inherit),
            DONE
        ]
    );
}

#[test]
fn expansion_leaves_unknown_names() {
    let sh = shell();
    let env = VarStore::new();
    assert_eq!(sh.expand("echo $nope", &env), "echo $nope");
    assert_eq!(sh.expand("a $ b", &env), "a $ b");
    assert_eq!(sh.expand("$", &env), "$");
    assert_eq!(sh.expand("", &env), "");
}

#[test]
fn expansion_stops_names_at_separators() {
    let mut sh = shell();
    let env = VarStore::new();
    run_line(&mut sh, "x=1 y=2", &env);
    assert_eq!(sh.expand("$x$y", &env), "12");
    assert_eq!(sh.expand("k=$x=z", &env), "k=1=z");
    assert_eq!(sh.expand("$x\ty", &env), "1\ty");
    assert_eq!(sh.expand("$x\u{a0}y", &env), "1\u{a0}y");
    assert_eq!(sh.expand("$x\u{a0}", &env), "1\u{a0}");
    assert_eq!(sh.expand("$x y", &env), "1 y");
}

#[test]
fn expansion_falls_back_to_environment() {
    let mut sh = shell();
    let env = store(&[("HOME", "/home/u"), ("x", "env")]);
    assert_eq!(sh.expand("$HOME $x", &env), "/home/u env");
    run_line(&mut sh, "x=mine", &env);
    assert_eq!(sh.expand("$HOME $x", &env), "/home/u mine");
}

#[test]
fn get_reports_argument_errors() {
    let mut sh = shell();
    let env = store(&[("E", "from-env")]);
    assert_eq!(
        run_line(&mut sh, "get", &env),
        vec![print(&["get: expected key"]), DONE]
    );
    assert_eq!(
        run_line(&mut sh, "get a b", &env),
        vec![print(&["get: too many arguments"]), DONE]
    );
    assert_eq!(run_line(&mut sh, "get missing", &env), vec![print(&[""]), DONE]);
    assert_eq!(run_line(&mut sh, "get E", &env), vec![print(&["from-env"]), DONE]);
}

#[test]
fn exit_ends_the_line() {
    let mut sh = shell();
    let env = VarStore::new();
    assert_eq!(
        run_line(&mut sh, "exit", &env),
        vec![Action::Finish(ExecOutcome::ExitRequested)]
    );
    let cmds = build("a=1 exit");
    let mut run = Run::new();
    assert_eq!(sh.step(&cmds, &mut run, &env), Action::Nothing);
    assert_eq!(
        sh.step(&cmds, &mut run, &env),
        Action::Finish(ExecOutcome::ExitRequested)
    );
    assert_eq!(sh.step(&cmds, &mut run, &env), DONE);
}

#[test]
fn syntax_error_is_reported_and_earlier_commands_run() {
    let mut sh = shell();
    let env = VarStore::new();
    assert_eq!(
        run_line(&mut sh, "ls | | wc", &env),
        vec![
            spawn("ls", &[], StdinPlan::Inherit, StdoutPlan::Piped),
            print(&["error: syntax error: | |"]),
            DONE
        ]
    );
}

#[test]
fn builtins_do_not_take_part_in_pipes() {
    let mut sh = shell();
    let env = VarStore::new();
    assert_eq!(
        run_line(&mut sh, "ls | pwd | wc", &env),
        vec![
            spawn("ls", &[], StdinPlan::Inherit, StdoutPlan::Piped),
            Action::PrintCwd,
            spawn("wc", &[], StdinPlan::Previous, StdoutPlan::Inherit),
            DONE
        ]
    );
}

#[test]
fn cd_uses_home_and_checks_arguments() {
    let mut sh = shell();
    let env = store(&[("HOME", "/home/u")]);
    assert_eq!(
        run_line(&mut sh, "cd", &env),
        vec![Action::ChangeDir("/home/u".to_owned()), DONE]
    );
    assert_eq!(
        run_line(&mut sh, "cd", &VarStore::new()),
        vec![print(&["cd: HOME not set"]), DONE]
    );
    assert_eq!(
        run_line(&mut sh, "cd /tmp", &env),
        vec![Action::ChangeDir("/tmp".to_owned()), DONE]
    );
    assert_eq!(
        run_line(&mut sh, "cd a b", &env),
        vec![print(&["cd: too many arguments"]), DONE]
    );
    assert_eq!(
        cd(&strings(&["cd"]), Some("/h".to_owned())),
        Action::ChangeDir("/h".to_owned())
    );
}

#[test]
fn pwd_checks_arguments() {
    assert_eq!(pwd(&strings(&["pwd"])), Action::PrintCwd);
    assert_eq!(
        pwd(&strings(&["pwd", "x"])),
        print(&["pwd: too many arguments"])
    );
}

#[test]
fn help_is_aligned_to_the_longest_name() {
    let lines = help();
    assert_eq!(
        lines,
        strings(&[
            "       help - shows this message",
            "       exit - terminates the shell",
            "   cd [dir] - change directory to [dir]",
            "        pwd - print current working directory",
            "        lsv - list all variables",
            "  get [var] - print a variable [var]",
        ])
    );
    assert_eq!(lines[0], "       help - shows this message");
    assert_eq!(lines[5], "  get [var] - print a variable [var]");
    assert_eq!(lines[2], "   cd [dir] - change directory to [dir]");
    let mut sh = shell();
    let env = VarStore::new();
    assert_eq!(run_line(&mut sh, "help", &env), vec![Action::Print(lines), DONE]);
}

#[test]
fn wish_enters_generation_mode() {
    let mut sh = shell();
    let env = VarStore::new();
    assert_eq!(run_line(&mut sh, "wish", &env), vec![Action::EnterWish, DONE]);
}

#[test]
fn decimal_numerals() {
    assert_eq!(decimal_string(0), "0");
    assert_eq!(decimal_string(7), "7");
    assert_eq!(decimal_string(10), "10");
    assert_eq!(decimal_string(12345), "12345");
    assert_eq!(decimal_string(usize::MAX), usize::MAX.to_string());
}

#[test]
fn store_sets_and_gets() {
    let mut s = VarStore::new();
    assert_eq!(s.len(), 0);
    assert_eq!(s.get("a"), None);
    s.set("a".to_owned(), "1".to_owned());
    s.set("b".to_owned(), "2".to_owned());
    s.set("a".to_owned(), "3".to_owned());
    assert_eq!(s.len(), 2);
    assert_eq!(s.get("a"), Some("3".to_owned()));
    assert_eq!(s.find("b"), Some(1));
    let (k, v) = s.entry(0);
    assert_eq!((k.as_str(), v.as_str()), ("a", "3"));
}

#[test]
fn shell_keeps_its_prompt() {
    let sh = Shell::new(Config {
        prompt: "$ ".to_owned(),
    });
    assert_eq!(sh.prompt(), "$ ");
    assert_eq!(shell().prompt(), "> ");
}

#[test]
fn list_variables_twice_is_the_same() {
    let mut sh = shell();
    let env = VarStore::new();
    run_line(&mut sh, "k=v", &env);
    let first = sh.bn_lsv();
    let second = sh.bn_lsv();
    assert_eq!(first, second);
    assert_eq!(first, strings(&["1 items:", "k: v"]));
}
