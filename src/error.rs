use vstd::prelude::*;

verus! {

/// The ways launching a command can fail.
#[derive(Debug, Clone, Copy, PartialEq, Eq, Structural)]
pub enum Error {
    /// The operating system could not start the command, or waiting on it failed.
    Io,
    /// A variable had an empty name.
    EmptyKey,
    /// Only variables were given, with no command after them.
    NoCommand,
}

} // verus!
