//! Deciding what a command line does: a builtin, an external program, or
//! a "command not found" report.

use vstd::prelude::*;
use crate::builtin::{builtin_of, BuiltinCommand};
use crate::handlers::{
    cd_decision, command_not_found, exit_error, exit_status, handle_cd, handle_echo, handle_exit,
    handle_type, result_view, type_report,
};
use crate::text::{join_words, opt_view, views};

verus! {

/// An external program to run: the file to execute, the name it is given
/// as its zeroth argument, and the arguments after that.
pub struct LaunchRequest {
    pub program: String,
    pub argv0: String,
    pub args: Vec<String>,
}

/// What a command line asks of the session.
pub enum Effect {
    /// End the session with `status`, after writing `error` to the error
    /// stream if there is one.
    Exit { status: u8, error: Option<String> },
    /// Write a line to the output stream.
    Print(String),
    /// Write a line to the error stream.
    PrintError(String),
    /// Make the given directory the working directory.
    ChangeDir(String),
    /// Write the working directory to the output stream.
    PrintCwd,
    /// Run an external program and wait for it.
    Launch(LaunchRequest),
}

/// The mathematical value of an `Effect`.
pub enum EffectView {
    Exit { status: u8, error: Option<Seq<char>> },
    Print(Seq<char>),
    PrintError(Seq<char>),
    ChangeDir(Seq<char>),
    PrintCwd,
    Launch { program: Seq<char>, argv0: Seq<char>, args: Seq<Seq<char>> },
}

impl View for Effect {
    type V = EffectView;

    open spec fn view(&self) -> EffectView {
        match self {
            Effect::Exit { status, error } => EffectView::Exit {
                status: *status,
                error: opt_view(*error),
            },
            Effect::Print(s) => EffectView::Print(s@),
            Effect::PrintError(s) => EffectView::PrintError(s@),
            Effect::ChangeDir(s) => EffectView::ChangeDir(s@),
            Effect::PrintCwd => EffectView::PrintCwd,
            Effect::Launch(l) => EffectView::Launch {
                program: l.program@,
                argv0: l.argv0@,
                args: views(l.args@),
            },
        }
    }
}

/// The name that the search list must be consulted for before a command
/// line can be dispatched: the command itself when it is no builtin, or
/// the first argument of `type` when that is no builtin.
pub open spec fn lookup_name(tokens: Seq<Seq<char>>) -> Option<Seq<char>> {
    match builtin_of(tokens[0]) {
        None => Some(tokens[0]),
        Some(BuiltinCommand::Type) => if tokens.len() > 1 && builtin_of(tokens[1]) is None {
            Some(tokens[1])
        } else {
            None
        },
        Some(_) => None,
    }
}

/// Whether dispatching `tokens` needs the home directory.
pub open spec fn needs_home(tokens: Seq<Seq<char>>) -> bool {
    builtin_of(tokens[0]) == Some(BuiltinCommand::Cd) && tokens.len() > 1 && tokens[1] == "~"@
}

/// What the command line `tokens` does, where `resolved` is the search
/// result for `lookup_name(tokens)` and `home` the home directory.
pub open spec fn effect_of(
    tokens: Seq<Seq<char>>,
    resolved: Option<Seq<char>>,
    home: Option<Seq<char>>,
) -> EffectView {
    let name = tokens[0];
    let args = tokens.drop_first();
    match builtin_of(name) {
        Some(BuiltinCommand::Exit) => EffectView::Exit {
            status: exit_status(args),
            error: exit_error(args),
        },
        Some(BuiltinCommand::Echo) => EffectView::Print(join_words(args)),
        Some(BuiltinCommand::Type) => EffectView::Print(type_report(args, resolved)),
        Some(BuiltinCommand::Pwd) => EffectView::PrintCwd,
        Some(BuiltinCommand::Cd) => match cd_decision(args, home) {
            Ok(t) => EffectView::ChangeDir(t),
            Err(m) => EffectView::PrintError(m),
        },
        None => match resolved {
            Some(p) => EffectView::Launch { program: p, argv0: name, args },
            None => EffectView::Print(name + ": command not found"@),
        },
    }
}

/// The name to look up on the search list before dispatching `tokens`.
pub fn lookup_target(tokens: &Vec<String>) -> (r: Option<String>)
    requires
        tokens@.len() > 0,
    ensures
        opt_view(r) == lookup_name(views(tokens@)),
{
    assert(views(tokens@)[0] == tokens@[0]@);
    match BuiltinCommand::from_str(tokens[0].as_str()) {
        None => Some(tokens[0].clone()),
        Some(BuiltinCommand::Type) => {
            if tokens.len() > 1 {
                assert(views(tokens@)[1] == tokens@[1]@);
                if BuiltinCommand::from_str(tokens[1].as_str()).is_none() {
                    return Some(tokens[1].clone());
                }
            }
            None
        },
        Some(_) => None,
    }
}

/// The tokens after the command name.
fn arguments(tokens: &Vec<String>) -> (r: Vec<String>)
    requires
        tokens@.len() > 0,
    ensures
        views(r@) == views(tokens@).drop_first(),
{
    let mut r: Vec<String> = Vec::new();
    let n = tokens.len();
    let mut i: usize = 1;
    while i < n
        invariant
            n == tokens@.len(),
            1 <= i <= n,
            r@.len() == i - 1,
            forall|k: int| 0 <= k < r@.len() ==> r@[k]@ == tokens@[k + 1]@,
        decreases n - i,
    {
        r.push(tokens[i].clone());
        i = i + 1;
    }
    assert(views(r@) =~= views(tokens@).drop_first());
    r
}

/// Decides what the non-empty command line `tokens` does: a builtin runs
/// its handler; another name runs the program `resolved` (the search
/// result for `lookup_target(tokens)`) under the typed name, or is
/// reported as not found. The home directory is looked up only for `cd ~`.
pub fn dispatch(tokens: &Vec<String>, resolved: &Option<String>) -> (r: Effect)
    requires
        tokens@.len() > 0,
    ensures
        exists|home: Option<Seq<char>>|
            r@ == effect_of(views(tokens@), opt_view(*resolved), home),
        !needs_home(views(tokens@)) ==> r@ == effect_of(views(tokens@), opt_view(*resolved), None),
{
    let ghost ts = views(tokens@);
    assert(ts[0] == tokens@[0]@);
    let name = tokens[0].as_str();
    let args = arguments(tokens);
    if tokens.len() > 1 {
        assert(ts[1] == tokens@[1]@);
        assert(views(args@)[0] == ts[1]);
    }
    match BuiltinCommand::from_str(name) {
        Some(BuiltinCommand::Exit) => {
            let (status, error) = handle_exit(&args);
            Effect::Exit { status, error }
        },
        Some(BuiltinCommand::Echo) => Effect::Print(handle_echo(&args)),
        Some(BuiltinCommand::Type) => Effect::Print(handle_type(&args, resolved)),
        Some(BuiltinCommand::Pwd) => Effect::PrintCwd,
        Some(BuiltinCommand::Cd) => {
            let r = handle_cd(&args);
            let ghost home = choose|home: Option<Seq<char>>|
                result_view(r) == cd_decision(views(args@), home);
            let e = match r {
                Ok(t) => Effect::ChangeDir(t),
                Err(m) => Effect::PrintError(m),
            };
            assert(e@ == effect_of(ts, opt_view(*resolved), home));
            e
        },
        None => match resolved {
            Some(p) => Effect::Launch(
                LaunchRequest { program: p.clone(), argv0: tokens[0].clone(), args },
            ),
            None => Effect::Print(command_not_found(name)),
        },
    }
}

/// A name that is no builtin and that the search list does not find is
/// reported as not found on the output stream, and the session goes on.
pub proof fn lemma_unknown_command_continues(tokens: Seq<Seq<char>>, home: Option<Seq<char>>)
    requires
        tokens.len() > 0,
        builtin_of(tokens[0]) is None,
    ensures
        effect_of(tokens, None, home) == EffectView::Print(tokens[0] + ": command not found"@),
        !(effect_of(tokens, None, home) is Exit),
{
}

/// A name that is no builtin and that the search list finds runs the
/// program found, with the typed name, not the path, as its zeroth
/// argument, and the remaining tokens as its arguments.
pub proof fn lemma_external_keeps_typed_name(
    tokens: Seq<Seq<char>>,
    path: Seq<char>,
    home: Option<Seq<char>>,
)
    requires
        tokens.len() > 0,
        builtin_of(tokens[0]) is None,
    ensures
        effect_of(tokens, Some(path), home) == (EffectView::Launch {
            program: path,
            argv0: tokens[0],
            args: tokens.drop_first(),
        }),
{
}

/// `cd ~` goes to the home directory when it is known, and reports that it
/// is not set otherwise; any other single argument is gone to as it is.
pub proof fn lemma_cd_targets(tokens: Seq<Seq<char>>, resolved: Option<Seq<char>>, home: Option<
    Seq<char>,
>)
    requires
        tokens.len() > 1,
        builtin_of(tokens[0]) == Some(BuiltinCommand::Cd),
    ensures
        tokens[1] == "~"@ ==> effect_of(tokens, resolved, home) == match home {
            Some(h) => EffectView::ChangeDir(h),
            None => EffectView::PrintError("cd: HOME not set"@),
        },
        tokens[1] != "~"@ ==> effect_of(tokens, resolved, home) == EffectView::ChangeDir(tokens[1]),
{
    assert(tokens.drop_first()[0] == tokens[1]);
}

} // verus!
