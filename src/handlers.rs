//! What each builtin reports, and the interpreter's other messages.

use vstd::prelude::*;
use crate::builtin::{builtin_of, BuiltinCommand};
use crate::path::{candidates, executable, first_executable, join_path, split_colons, FileMeta};
use crate::text::{concat_str, join_with_spaces, join_words, opt_view, same_text, views};

verus! {

/// `d` is an ASCII decimal digit.
pub open spec fn is_digit(d: char) -> bool {
    '0' <= d <= '9'
}

/// The number written by the decimal digits `s`.
pub open spec fn digits_value(s: Seq<char>) -> int
    decreases s.len(),
{
    if s.len() == 0 {
        0
    } else {
        digits_value(s.drop_last()) * 10 + (s.last() as int - '0' as int)
    }
}

/// The digits of a status argument: one leading `+` is allowed.
pub open spec fn unsigned_part(s: Seq<char>) -> Seq<char> {
    if s.len() > 0 && s[0] == '+' {
        s.drop_first()
    } else {
        s
    }
}

/// The exit status that `s` writes: one or more decimal digits, after an
/// optional `+`, whose value lies in 0..=255.
pub open spec fn parse_status(s: Seq<char>) -> Option<u8> {
    let d = unsigned_part(s);
    if d.len() > 0 && (forall|i: int| 0 <= i < d.len() ==> is_digit(#[trigger] d[i]))
        && digits_value(d) <= 255 {
        Some(digits_value(d) as u8)
    } else {
        None
    }
}

proof fn lemma_digits_value_nonneg(s: Seq<char>)
    requires
        forall|i: int| 0 <= i < s.len() ==> is_digit(#[trigger] s[i]),
    ensures
        digits_value(s) >= 0,
    decreases s.len(),
{
    if s.len() > 0 {
        let p = s.drop_last();
        assert forall|i: int| 0 <= i < p.len() implies is_digit(#[trigger] p[i]) by {
            assert(p[i] == s[i]);
        }
        lemma_digits_value_nonneg(p);
    }
}

/// Reads an exit status argument.
pub fn parse_exit_status(s: &str) -> (r: Option<u8>)
    ensures
        r == parse_status(s@),
{
    let n = s.unicode_len();
    let mut start: usize = 0;
    if n > 0 && s.get_char(0) == '+' {
        start = 1;
    }
    let ghost d = unsigned_part(s@);
    assert(d =~= s@.subrange(start as int, n as int));
    if start == n {
        return None;
    }
    // `acc` is the value read so far, held at 256 once it passes 255.
    let mut acc: u32 = 0;
    let mut i: usize = start;
    while i < n
        invariant
            n == s@.len(),
            start <= i <= n,
            d == s@.subrange(start as int, n as int),
            d == unsigned_part(s@),
            forall|k: int| 0 <= k < i - start ==> is_digit(#[trigger] d[k]),
            ({
                let v = digits_value(d.take(i - start));
                acc as int == if v > 255 { 256 } else { v }
            }),
        decreases n - i,
    {
        let c = s.get_char(i);
        if !('0' <= c && c <= '9') {
            assert(d[i - start] == c);
            assert(!is_digit(d[i - start]));
            return None;
        }
        let ghost prefix = d.take(i - start);
        let ghost next = d.take(i - start + 1);
        assert(next.drop_last() =~= prefix);
        assert(next.last() == c);
        proof {
            assert forall|k: int| 0 <= k < prefix.len() implies is_digit(#[trigger] prefix[k]) by {
                assert(prefix[k] == d[k]);
            }
            lemma_digits_value_nonneg(prefix);
        }
        let digit = (c as u32) - ('0' as u32);
        if acc <= 255 {
            acc = acc * 10 + digit;
            if acc > 255 {
                acc = 256;
            }
        }
        i = i + 1;
    }
    assert(d.take(n - start) =~= d);
    if acc <= 255 {
        Some(acc as u8)
    } else {
        None
    }
}

/// The status `exit` ends the session with: 0 without an argument, the
/// argument's value when it reads as a status, 1 otherwise.
pub open spec fn exit_status(args: Seq<Seq<char>>) -> u8 {
    if args.len() == 0 {
        0
    } else {
        match parse_status(args[0]) {
            Some(v) => v,
            None => 1,
        }
    }
}

/// The message `exit` reports before ending the session, if any.
pub open spec fn exit_error(args: Seq<Seq<char>>) -> Option<Seq<char>> {
    if args.len() > 0 && parse_status(args[0]) is None {
        Some("exit: numeric argument required: "@ + args[0])
    } else {
        None
    }
}

/// The `exit` builtin: the status to end with, and the message for the
/// error stream when the argument is not a status.
pub fn handle_exit(args: &Vec<String>) -> (r: (u8, Option<String>))
    ensures
        r.0 == exit_status(views(args@)),
        opt_view(r.1) == exit_error(views(args@)),
{
    if args.len() == 0 {
        (0, None)
    } else {
        assert(views(args@)[0] == args@[0]@);
        match parse_exit_status(args[0].as_str()) {
            Some(v) => (v, None),
            None => (1, Some(concat_str("exit: numeric argument required: ", args[0].as_str()))),
        }
    }
}

/// The `echo` builtin: the line to print, the arguments joined by single
/// spaces (empty without arguments).
pub fn handle_echo(args: &Vec<String>) -> (r: String)
    ensures
        r@ == join_words(views(args@)),
{
    join_with_spaces(args)
}

/// What `type` reports: `resolved` is where the search list finds the
/// first argument.
pub open spec fn type_report(args: Seq<Seq<char>>, resolved: Option<Seq<char>>) -> Seq<char> {
    if args.len() == 0 {
        "Usage: type <command>"@
    } else if builtin_of(args[0]) is Some {
        args[0] + " is a shell builtin"@
    } else {
        match resolved {
            Some(p) => args[0] + " is "@ + p,
            None => args[0] + ": not found"@,
        }
    }
}

/// The `type` builtin: `resolved` is the search result for the first
/// argument.
pub fn handle_type(args: &Vec<String>, resolved: &Option<String>) -> (r: String)
    ensures
        r@ == type_report(views(args@), opt_view(*resolved)),
{
    if args.len() == 0 {
        return String::from_str("Usage: type <command>");
    }
    let name = args[0].as_str();
    assert(views(args@)[0] == name@);
    if BuiltinCommand::from_str(name).is_some() {
        concat_str(name, " is a shell builtin")
    } else {
        match resolved {
            Some(p) => {
                let mut r = concat_str(name, " is ");
                r.append(p.as_str());
                r
            },
            None => concat_str(name, ": not found"),
        }
    }
}

/// Where `cd` goes (`Ok`), or the message for the error stream (`Err`);
/// `home` is the user's home directory, if it is known.
pub open spec fn cd_decision(args: Seq<Seq<char>>, home: Option<Seq<char>>) -> Result<
    Seq<char>,
    Seq<char>,
> {
    if args.len() == 0 {
        Err("cd: missing argument"@)
    } else if args[0] == "~"@ {
        match home {
            Some(h) => Ok(h),
            None => Err("cd: HOME not set"@),
        }
    } else {
        Ok(args[0])
    }
}

/// The character sequences held by a result of two strings.
pub open spec fn result_view(r: Result<String, String>) -> Result<Seq<char>, Seq<char>> {
    match r {
        Ok(s) => Ok(s@),
        Err(e) => Err(e@),
    }
}

/// Where `cd` goes, given the home directory `home`.
pub fn cd_target(args: &Vec<String>, home: &Option<String>) -> (r: Result<String, String>)
    ensures
        result_view(r) == cd_decision(views(args@), opt_view(*home)),
{
    if args.len() == 0 {
        return Err(String::from_str("cd: missing argument"));
    }
    assert(views(args@)[0] == args@[0]@);
    if same_text(args[0].as_str(), "~") {
        match home {
            Some(h) => Ok(h.clone()),
            None => Err(String::from_str("cd: HOME not set")),
        }
    } else {
        Ok(args[0].clone())
    }
}

/// Relies on `home::home_dir`: the user's home directory, if it can be
/// found, converted to text. It reads the environment and the user
/// database, so nothing is promised of what comes back.
#[verifier::external_body]
fn home_directory() -> Option<String> {
    home::home_dir().map(|p| p.to_string_lossy().into_owned())
}

/// The `cd` builtin: where to go, or the message for the error stream.
/// The home directory is looked up only for `~`.
pub fn handle_cd(args: &Vec<String>) -> (r: Result<String, String>)
    ensures
        exists|home: Option<Seq<char>>| result_view(r) == cd_decision(views(args@), home),
        !(args@.len() > 0 && args@[0]@ == "~"@) ==> result_view(r) == cd_decision(
            views(args@),
            None,
        ),
{
    let needs_home = args.len() > 0 && same_text(args[0].as_str(), "~");
    if args.len() > 0 {
        assert(views(args@)[0] == args@[0]@);
    }
    let home = if needs_home {
        home_directory()
    } else {
        None
    };
    let r = cd_target(args, &home);
    assert(result_view(r) == cd_decision(views(args@), opt_view(home)));
    r
}

/// The message for a directory that `cd` could not enter.
pub fn cd_failure_message(target: &str) -> (r: String)
    ensures
        r@ == "cd: "@ + target@ + ": No such file or directory"@,
{
    let mut r = concat_str("cd: ", target);
    r.append(": No such file or directory");
    r
}

/// The message for a name that is neither a builtin nor found on the
/// search list.
pub fn command_not_found(name: &str) -> (r: String)
    ensures
        r@ == name@ + ": command not found"@,
{
    concat_str(name, ": command not found")
}

/// The message for a program that could not be started.
pub fn spawn_failure_message(program: &str, reason: &str) -> (r: String)
    ensures
        r@ == "Shell: Failed to execute command '"@ + program@ + "': "@ + reason@,
{
    let mut r = concat_str("Shell: Failed to execute command '", program);
    r.append("': ");
    r.append(reason);
    r
}

/// The message for a program whose end could not be waited for.
pub fn wait_failure_message(program: &str, reason: &str) -> (r: String)
    ensures
        r@ == "Shell: Failed to wait for command '"@ + program@ + "': "@ + reason@,
{
    let mut r = concat_str("Shell: Failed to wait for command '", program);
    r.append("': ");
    r.append(reason);
    r
}

/// `type` reports each of the five builtin names as a shell builtin,
/// whatever the search list holds.
pub proof fn lemma_type_reports_builtins(name: Seq<char>, resolved: Option<Seq<char>>)
    requires
        name == "exit"@ || name == "echo"@ || name == "type"@ || name == "pwd"@ || name == "cd"@,
    ensures
        type_report(seq![name], resolved) == name + " is a shell builtin"@,
{
    assert(seq![name][0] == name);
}

/// The search finds the first executable candidate when none before it is.
proof fn lemma_first_executable_at(paths: Seq<Seq<char>>, metas: Seq<Option<FileMeta>>, i: int)
    requires
        paths.len() == metas.len(),
        0 <= i < metas.len(),
        executable(metas[i]),
        forall|j: int| 0 <= j < i ==> !executable(#[trigger] metas[j]),
    ensures
        first_executable(paths, metas) == Some(paths[i]),
    decreases i,
{
    if i > 0 {
        assert(!executable(metas[0]));
        let (p, m) = (paths.drop_first(), metas.drop_first());
        assert forall|j: int| 0 <= j < i - 1 implies !executable(#[trigger] m[j]) by {
            assert(m[j] == metas[j + 1]);
        }
        lemma_first_executable_at(p, m, i - 1);
    }
}

/// When exactly one directory of the search list holds an executable file
/// of a name that is no builtin, the search finds it there, and `type`
/// reports the name as that directory joined with the name; for a
/// directory that does not end in a separator and a relative name, that is
/// `<dir>/<name>`.
pub proof fn lemma_type_reports_sole_directory(
    name: Seq<char>,
    search: Seq<char>,
    metas: Seq<Option<FileMeta>>,
    i: int,
)
    requires
        builtin_of(name) is None,
        metas.len() == split_colons(search).len(),
        0 <= i < metas.len(),
        executable(metas[i]),
        forall|j: int| 0 <= j < metas.len() && j != i ==> !executable(#[trigger] metas[j]),
    ensures
        first_executable(candidates(name, Some(search)), metas) == Some(
            join_path(split_colons(search)[i], name),
        ),
        type_report(seq![name], first_executable(candidates(name, Some(search)), metas)) == name
            + " is "@ + join_path(split_colons(search)[i], name),
        ({
            let dir = split_colons(search)[i];
            dir.len() > 0 && dir.last() != '/' && !(name.len() > 0 && name[0] == '/')
                ==> type_report(seq![name], first_executable(candidates(name, Some(search)), metas))
                == name + " is "@ + dir + "/"@ + name
        }),
{
    let paths = candidates(name, Some(search));
    lemma_first_executable_at(paths, metas, i);
    assert(seq![name][0] == name);
    reveal_strlit("/");
    assert("/"@ =~= seq!['/']);
}

} // verus!
