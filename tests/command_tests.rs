use wsh::commands::{Command, CommandIO};
use wsh::scanner::Scanner;

fn build(line: &str) -> Vec<Command> {
    Command::process_input(Scanner::new(line).scan_tokens().unwrap())
}

fn strings(v: &[&str]) -> Vec<String> {
    v.iter().map(|s| s.to_string()).collect()
}

fn external(args: &[&str]) -> Command {
    Command::External {
        args: strings(args),
        input: CommandIO::Std,
        output: CommandIO::Std,
    }
}

fn set(k: &str, v: &str) -> Command {
    Command::SetVar(k.to_owned(), v.to_owned())
}

#[test]
fn assignments_come_before_the_pipeline() {
    assert_eq!(
        build("a=1 b=2 cmd"),
        vec![set("a", "1"), set("b", "2"), external(&["cmd"])]
    );
}

#[test]
fn empty_pipe_segment_is_a_syntax_error() {
    assert_eq!(
        build("cmd1 | | cmd2"),
        vec![
            external(&["cmd1"]),
            Command::Error("syntax error: | |".to_owned())
        ]
    );
    assert_eq!(
        build("| ls"),
        vec![Command::Error("syntax error: | |".to_owned())]
    );
}

#[test]
fn output_redirection_names_a_file() {
    assert_eq!(
        build("echo hi > out.txt"),
        vec![Command::External {
            args: strings(&["echo", "hi"]),
            input: CommandIO::Std,
            output: CommandIO::File("out.txt".to_owned()),
        }]
    );
}

#[test]
fn input_redirection_names_a_file() {
    assert_eq!(
        build("wc -l < in.txt | sort"),
        vec![
            Command::External {
                args: strings(&["wc", "-l"]),
                input: CommandIO::File("in.txt".to_owned()),
                output: CommandIO::Std,
            },
            external(&["sort"])
        ]
    );
}

#[test]
fn redirection_without_path_is_a_syntax_error() {
    assert_eq!(
        build("ls >"),
        vec![Command::Error(
            "syntax error: no path provided after >".to_owned()
        )]
    );
    assert_eq!(
        build("a | cat < | b"),
        vec![
            external(&["a"]),
            Command::Error("syntax error: no path provided after <".to_owned())
        ]
    );
}

#[test]
fn empty_line_gives_no_commands() {
    assert_eq!(build(""), vec![]);
    assert_eq!(build("   "), vec![]);
}

#[test]
fn assignments_alone_give_only_assignments() {
    assert_eq!(build("x=5"), vec![set("x", "5")]);
    assert_eq!(build("a=b=c"), vec![set("a", "b=c")]);
    assert_eq!(build("e="), vec![set("e", "")]);
}

#[test]
fn empty_key_is_no_assignment() {
    assert_eq!(build("=x"), vec![external(&["=x"])]);
}

#[test]
fn assignment_after_a_command_is_an_argument() {
    assert_eq!(
        build("a=1 env b=2"),
        vec![set("a", "1"), external(&["env", "b=2"])]
    );
}

#[test]
fn trailing_pipe_is_no_error() {
    assert_eq!(build("ls |"), vec![external(&["ls"])]);
}

#[test]
fn pipeline_of_three() {
    assert_eq!(
        build("a | b x | c"),
        vec![external(&["a"]), external(&["b", "x"]), external(&["c"])]
    );
}

#[test]
fn builtins_are_classified_by_first_word() {
    assert_eq!(build("exit"), vec![Command::Exit]);
    assert_eq!(build("help"), vec![Command::Help]);
    assert_eq!(build("lsv"), vec![Command::ListVars]);
    assert_eq!(build("wish"), vec![Command::Wish]);
    assert_eq!(build("cd /tmp"), vec![Command::Cd(strings(&["cd", "/tmp"]))]);
    assert_eq!(build("pwd"), vec![Command::Pwd(strings(&["pwd"]))]);
    assert_eq!(build("get x"), vec![Command::GetVar(strings(&["get", "x"]))]);
    assert_eq!(build("exitnow"), vec![external(&["exitnow"])]);
}

#[test]
fn from_classifies_and_keeps_redirections() {
    let c = Command::from(
        strings(&["grep", "x"]),
        CommandIO::File("a".to_owned()),
        CommandIO::File("b".to_owned()),
    );
    assert_eq!(
        c,
        Command::External {
            args: strings(&["grep", "x"]),
            input: CommandIO::File("a".to_owned()),
            output: CommandIO::File("b".to_owned()),
        }
    );
    assert_eq!(
        Command::from(strings(&["exit", "1"]), CommandIO::Std, CommandIO::Std),
        Command::Exit
    );
}
