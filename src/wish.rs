//! The decisions of command generation mode: which answers confirm a proposed
//! command, which line leaves the mode, and what a generator's reply yields.
use vstd::prelude::*;

use crate::commands::is_word;
use crate::unicode::{is_whitespace, white_space};

verus! {

/// The text in lower case, by the Unicode case mappings.
pub uninterp spec fn lowercase_of(s: Seq<char>) -> Seq<char>;

/// Relies on `str::to_lowercase`: the lowercase mapping of the text, which
/// depends on the text alone.
#[verifier::external_body]
fn to_lowercase(s: &str) -> (r: String)
    ensures
        r@ == lowercase_of(s@),
{
    s.to_lowercase()
}

/// The answers, once in lower case, that confirm a command.
pub open spec fn is_yes(s: Seq<char>) -> bool {
    s == "y"@ || s == "yes"@
}

/// Whether an answer already in lower case confirms a command.
pub fn confirms_lowered(lowered: &str) -> (r: bool)
    ensures
        r == is_yes(lowered@),
{
    let s = String::from_str(lowered);
    is_word(&s, "y") || is_word(&s, "yes")
}

/// Whether an answer confirms a command: `y` or `yes`, in any case.
pub fn confirms(answer: &str) -> (r: bool)
    ensures
        r == is_yes(lowercase_of(answer@)),
{
    let lowered = to_lowercase(answer);
    confirms_lowered(lowered.as_str())
}

/// The index of the first character at or after `i` that is not whitespace.
pub open spec fn trim_start(s: Seq<char>, i: int) -> int
    decreases s.len() - i,
{
    if 0 <= i < s.len() && white_space(s[i]) {
        trim_start(s, i + 1)
    } else {
        i
    }
}

/// The index just past the last character before `j`, and not before `lo`,
/// that is not whitespace.
pub open spec fn trim_end(s: Seq<char>, lo: int, j: int) -> int
    decreases j - lo,
{
    if lo < j <= s.len() && white_space(s[j - 1]) {
        trim_end(s, lo, j - 1)
    } else {
        j
    }
}

/// The text without its leading and trailing whitespace.
pub open spec fn trimmed(s: Seq<char>) -> Seq<char> {
    let a = trim_start(s, 0);
    s.subrange(a, trim_end(s, a, s.len() as int))
}

proof fn lemma_trim_bounds(s: Seq<char>, i: int, lo: int, j: int)
    requires
        0 <= i <= s.len(),
        0 <= lo <= j <= s.len(),
    ensures
        i <= trim_start(s, i) <= s.len(),
        lo <= trim_end(s, lo, j) <= j,
    decreases s.len() - i + j - lo,
{
    if i < s.len() && white_space(s[i]) {
        lemma_trim_bounds(s, i + 1, lo, j);
    } else if lo < j && white_space(s[j - 1]) {
        lemma_trim_bounds(s, i, lo, j - 1);
    }
}

/// Whether a line asks to leave generation mode: `exit`, whitespace aside.
pub fn is_leave_request(line: &str) -> (r: bool)
    ensures
        r == (trimmed(line@) == "exit"@),
{
    let ghost s = line@;
    let n = line.unicode_len();
    proof {
        lemma_trim_bounds(s, 0, 0, n as int);
    }
    let mut a: usize = 0;
    let mut more = true;
    while a < n && more
        invariant
            n == s.len(),
            s == line@,
            a <= n,
            trim_start(s, 0) == if more {
                trim_start(s, a as int)
            } else {
                a as int
            },
        decreases n - a + (if more { 1int } else { 0int }),
    {
        if is_whitespace(line.get_char(a)) {
            a += 1;
        } else {
            more = false;
        }
    }
    let mut b: usize = n;
    more = true;
    while b > a && more
        invariant
            n == s.len(),
            s == line@,
            a as int == trim_start(s, 0),
            a <= b <= n,
            trim_end(s, a as int, n as int) == if more {
                trim_end(s, a as int, b as int)
            } else {
                b as int
            },
        decreases b - a + (if more { 1int } else { 0int }),
    {
        if is_whitespace(line.get_char(b - 1)) {
            b -= 1;
        } else {
            more = false;
        }
    }
    let word = String::from_str(line.substring_char(a, b));
    is_word(&word, "exit")
}

/// What a generator's reply yields: its commands where its status is `ok`,
/// its error message where the status is `error`, and a message naming the
/// status otherwise.
pub open spec fn reply_outcome(
    status: Seq<char>,
    commands: Seq<Seq<char>>,
    error_msg: Seq<char>,
) -> Result<Seq<Seq<char>>, Seq<char>> {
    if status == "ok"@ {
        Ok(commands)
    } else if status == "error"@ {
        Err(error_msg)
    } else {
        Err("unknown status: "@ + status)
    }
}

/// Reads a generator's reply.
pub fn read_reply(status: &String, commands: Vec<String>, error_msg: String) -> (r: Result<
    Vec<String>,
    String,
>)
    ensures
        match r {
            Ok(c) => reply_outcome(status@, commands@.map_values(|s: String| s@), error_msg@)
                == Ok::<Seq<Seq<char>>, Seq<char>>(c@.map_values(|s: String| s@)),
            Err(e) => reply_outcome(status@, commands@.map_values(|s: String| s@), error_msg@)
                == Err::<Seq<Seq<char>>, Seq<char>>(e@),
        },
{
    if is_word(status, "ok") {
        Ok(commands)
    } else if is_word(status, "error") {
        Err(error_msg)
    } else {
        let mut m = String::from_str("unknown status: ");
        m.append(status.as_str());
        Err(m)
    }
}

} // verus!
