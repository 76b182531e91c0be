//! The core of a small interactive command interpreter: splitting a line
//! into words, telling builtins from external programs, searching `PATH`,
//! and deciding what each command line does.

pub mod builtin;
pub mod handlers;
pub mod path;
pub mod router;
pub mod text;
pub mod tokenizer;
