//! The fixed set of commands that the interpreter carries out itself.

use vstd::prelude::*;
use crate::text::same_text;

verus! {

/// A command carried out by the interpreter rather than by a program.
#[derive(PartialEq, Eq, Structural, Debug, Clone, Copy)]
pub enum BuiltinCommand {
    Exit,
    Echo,
    Type,
    Pwd,
    Cd,
}

/// The builtin that a command name denotes: an exact, case-sensitive match.
pub open spec fn builtin_of(name: Seq<char>) -> Option<BuiltinCommand> {
    if name == "exit"@ {
        Some(BuiltinCommand::Exit)
    } else if name == "echo"@ {
        Some(BuiltinCommand::Echo)
    } else if name == "type"@ {
        Some(BuiltinCommand::Type)
    } else if name == "pwd"@ {
        Some(BuiltinCommand::Pwd)
    } else if name == "cd"@ {
        Some(BuiltinCommand::Cd)
    } else {
        None
    }
}

impl BuiltinCommand {
    /// The builtin named `command`, if any.
    pub fn from_str(command: &str) -> (r: Option<Self>)
        ensures
            r == builtin_of(command@),
    {
        if same_text(command, "exit") {
            Some(BuiltinCommand::Exit)
        } else if same_text(command, "echo") {
            Some(BuiltinCommand::Echo)
        } else if same_text(command, "type") {
            Some(BuiltinCommand::Type)
        } else if same_text(command, "pwd") {
            Some(BuiltinCommand::Pwd)
        } else if same_text(command, "cd") {
            Some(BuiltinCommand::Cd)
        } else {
            None
        }
    }
}

} // verus!
