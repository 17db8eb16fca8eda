//! The proxy's connection handling: what it decides between reading from
//! and writing to its sockets.

pub mod socks5;
pub mod transfer_data;
pub mod udp;

use vstd::prelude::*;
use crate::text::{split_whitespace, string_views, words};

verus! {

/// Why a route's command cannot be run.
#[derive(Debug, Clone, Copy, PartialEq, Eq, Structural)]
pub enum CommandError {
    /// The command holds no word to run.
    InvalidCommand,
}

/// The program and arguments of a command line: its whitespace-separated
/// words, the first of them the program.
pub fn command_program_and_args(command: &str) -> (r: Result<(String, Vec<String>), CommandError>)
    ensures
        match r {
            Ok((program, args)) => words(command@).len() > 0 && program@ == words(command@)[0]
                && string_views(args@) == words(command@).drop_first(),
            Err(e) => e == CommandError::InvalidCommand && words(command@).len() == 0,
        },
{
    let mut parts = split_whitespace(command);
    assert(string_views(parts@).len() == parts@.len());
    if parts.len() == 0 {
        return Err(CommandError::InvalidCommand);
    }
    let ghost all = string_views(parts@);
    let program = parts.remove(0);
    assert(string_views(parts@) =~= all.drop_first());
    Ok((program, parts))
}

} // verus!
