//! The builtins that decide alone: `help`, `cd` and `pwd`, and the decimal
//! numbers that builtins print.
use vstd::prelude::*;

use crate::commands::strings_view;
use crate::shell::{Action, ActionView};

verus! {

/// The character of the decimal digit `d`.
pub open spec fn digit(d: int) -> char {
    "0123456789"@[d]
}

/// The decimal numeral of `n`, without leading zeros.
pub open spec fn decimal(n: nat) -> Seq<char>
    decreases n,
{
    if n < 10 {
        seq![digit(n as int)]
    } else {
        decimal(n / 10).push(digit((n % 10) as int))
    }
}

/// The decimal numeral of `n`.
pub fn decimal_string(n: usize) -> (r: String)
    ensures
        r@ == decimal(n as nat),
    decreases n,
{
    let digits = "0123456789";
    proof {
        reveal_strlit("0123456789");
    }
    let d = digits.substring_char(n % 10, n % 10 + 1);
    proof {
        assert(d@ =~= seq![digit((n % 10) as int)]);
    }
    if n < 10 {
        String::from_str(d)
    } else {
        let mut s = decimal_string(n / 10);
        s.append(d);
        proof {
            assert(s@ =~= decimal((n / 10) as nat).push(digit((n % 10) as int)));
        }
        s
    }
}

/// `n` spaces.
pub open spec fn spaces(n: nat) -> Seq<char> {
    Seq::new(n, |i: int| ' ')
}

/// A string of `n` spaces.
fn spaces_string(n: usize) -> (r: String)
    ensures
        r@ == spaces(n as nat),
{
    let mut s = String::new();
    let mut i: usize = 0;
    while i < n
        invariant
            i <= n,
            s@ == spaces(i as nat),
        decreases n - i,
    {
        s.append(" ");
        proof {
            reveal_strlit(" ");
            assert(s@ =~= spaces((i + 1) as nat));
        }
        i += 1;
    }
    s
}

/// The builtins and what each does.
pub open spec fn help_table() -> Seq<(Seq<char>, Seq<char>)> {
    seq![
        ("help"@, "shows this message"@),
        ("exit"@, "terminates the shell"@),
        ("cd [dir]"@, "change directory to [dir]"@),
        ("pwd"@, "print current working directory"@),
        ("lsv"@, "list all variables"@),
        ("get [var]"@, "print a variable [var]"@),
    ]
}

/// The length of the longest name of a table.
pub open spec fn longest_name(t: Seq<(Seq<char>, Seq<char>)>) -> nat
    decreases t.len(),
{
    if t.len() == 0 {
        0
    } else {
        let rest = longest_name(t.drop_last());
        if t.last().0.len() > rest {
            t.last().0.len()
        } else {
            rest
        }
    }
}

/// One line of help: the name right-aligned in `width` columns, then its
/// description.
pub open spec fn help_line(name: Seq<char>, desc: Seq<char>, width: nat) -> Seq<char> {
    spaces((width - name.len()) as nat) + name + " - "@ + desc
}

/// The help text: each builtin aligned two columns past the longest name.
pub open spec fn help_lines() -> Seq<Seq<char>> {
    let t = help_table();
    let w = longest_name(t) + 2;
    Seq::new(t.len(), |i: int| help_line(t[i].0, t[i].1, w))
}

proof fn lemma_longest_name(t: Seq<(Seq<char>, Seq<char>)>)
    ensures
        forall|i: int| 0 <= i < t.len() ==> #[trigger] t[i].0.len() <= longest_name(t),
    decreases t.len(),
{
    if t.len() > 0 {
        lemma_longest_name(t.drop_last());
        assert forall|i: int| 0 <= i < t.len() implies #[trigger] t[i].0.len() <= longest_name(
            t,
        ) by {
            if i < t.len() - 1 {
                assert(t[i] == t.drop_last()[i]);
            }
        }
    }
}

/// The lines that `help` prints.
pub fn help() -> (r: Vec<String>)
    ensures
        strings_view(r@) == help_lines(),
{
    let table: Vec<(&str, &str)> = vec![
        ("help", "shows this message"),
        ("exit", "terminates the shell"),
        ("cd [dir]", "change directory to [dir]"),
        ("pwd", "print current working directory"),
        ("lsv", "list all variables"),
        ("get [var]", "print a variable [var]"),
    ];
    let ghost t = table@.map_values(|e: (&str, &str)| (e.0@, e.1@));
    proof {
        assert(t =~= help_table());
        reveal_strlit("help");
        reveal_strlit("exit");
        reveal_strlit("cd [dir]");
        reveal_strlit("pwd");
        reveal_strlit("lsv");
        reveal_strlit("get [var]");
        assert(forall|k: int| 0 <= k < t.len() ==> #[trigger] t[k].0.len() <= 9);
    }
    let n = table.len();
    let mut longest: usize = 0;
    let mut i: usize = 0;
    while i < n
        invariant
            n == t.len(),
            t == table@.map_values(|e: (&str, &str)| (e.0@, e.1@)),
            t == help_table(),
            i <= n,
            longest == longest_name(t.subrange(0, i as int)),
            longest <= 9,
            forall|k: int| 0 <= k < t.len() ==> #[trigger] t[k].0.len() <= 9,
        decreases n - i,
    {
        proof {
            assert(t.subrange(0, i + 1).drop_last() =~= t.subrange(0, i as int));
        }
        let len = table[i].0.unicode_len();
        proof {
            assert(t[i as int].0.len() == len);
        }
        if len > longest {
            longest = len;
        }
        i += 1;
    }
    proof {
        assert(t.subrange(0, n as int) =~= t);
        lemma_longest_name(t);
    }
    let width = longest + 2;
    let mut lines: Vec<String> = Vec::new();
    let mut j: usize = 0;
    while j < n
        invariant
            n == t.len(),
            t == table@.map_values(|e: (&str, &str)| (e.0@, e.1@)),
            t == help_table(),
            j <= n,
            width == longest_name(t) + 2,
            forall|k: int| 0 <= k < t.len() ==> #[trigger] t[k].0.len() <= longest_name(t),
            strings_view(lines@) =~= Seq::new(
                j as nat,
                |k: int| help_line(t[k].0, t[k].1, width as nat),
            ),
        decreases n - j,
    {
        let (name, desc) = table[j];
        let name_len = name.unicode_len();
        proof {
            assert(t[j as int].0 == name@);
            assert(t[j as int].1 == desc@);
        }
        let mut line = spaces_string(width - name_len);
        line.append(name);
        line.append(" - ");
        line.append(desc);
        let ghost before = lines@;
        lines.push(line);
        proof {
            assert(strings_view(lines@) =~= strings_view(before).push(line@));
        }
        j += 1;
    }
    lines
}

/// What `cd` does with its arguments, the command's name first, where `home`
/// is the value of `HOME`, if it is set.
pub open spec fn cd_action(args: Seq<Seq<char>>, home: Option<Seq<char>>) -> ActionView {
    if args.len() == 1 {
        match home {
            Some(h) => ActionView::ChangeDir(h),
            None => ActionView::Print(seq!["cd: HOME not set"@]),
        }
    } else if args.len() == 2 {
        ActionView::ChangeDir(args[1])
    } else {
        ActionView::Print(seq!["cd: too many arguments"@])
    }
}

/// What `pwd` does with its arguments, the command's name first.
pub open spec fn pwd_action(args: Seq<Seq<char>>) -> ActionView {
    if args.len() > 1 {
        ActionView::Print(seq!["pwd: too many arguments"@])
    } else {
        ActionView::PrintCwd
    }
}

/// A single line to print.
pub fn message(text: &str) -> (r: Action)
    ensures
        r@ == ActionView::Print(seq![text@]),
{
    let mut lines: Vec<String> = Vec::new();
    lines.push(String::from_str(text));
    proof {
        assert(strings_view(lines@) =~= seq![text@]);
    }
    Action::Print(lines)
}

/// Decides `cd`: the directory to change to, or the message to print.
pub fn cd(args: &Vec<String>, home: Option<String>) -> (r: Action)
    ensures
        r@ == cd_action(
            strings_view(args@),
            match home {
                Some(h) => Some(h@),
                None => None,
            },
        ),
{
    if args.len() == 1 {
        match home {
            Some(h) => Action::ChangeDir(h),
            None => message("cd: HOME not set"),
        }
    } else if args.len() == 2 {
        Action::ChangeDir(args[1].clone())
    } else {
        message("cd: too many arguments")
    }
}

/// Decides `pwd`: print the working directory, or the message to print.
pub fn pwd(args: &Vec<String>) -> (r: Action)
    ensures
        r@ == pwd_action(strings_view(args@)),
{
    if args.len() > 1 {
        message("pwd: too many arguments")
    } else {
        Action::PrintCwd
    }
}

} // verus!
