//! Selection of the one store operation a command-line invocation performs.

use vstd::prelude::*;

verus! {

/// The operation one invocation performs: at most one store call. With no
/// flag given, the invocation is a no-op.
pub enum Command {
    Add(String),
    List,
    Complete(i32),
    Reopen(i32),
    Delete(i32),
    NoOp,
}

/// The command a set of flags selects. The flags are examined in the fixed
/// order add, list, complete, reopen, delete, and the first one present
/// wins, so the choice is deterministic even when several flags are given.
pub open spec fn selected_command(
    add: Option<String>,
    list: bool,
    complete: Option<i32>,
    reopen: Option<i32>,
    delete: Option<i32>,
) -> Command {
    match add {
        Some(description) => Command::Add(description),
        None => if list {
            Command::List
        } else {
            match complete {
                Some(id) => Command::Complete(id),
                None => match reopen {
                    Some(id) => Command::Reopen(id),
                    None => match delete {
                        Some(id) => Command::Delete(id),
                        None => Command::NoOp,
                    },
                },
            }
        },
    }
}

/// Maps the parsed flags to the single operation to perform, by the fixed
/// precedence add, list, complete, reopen, delete.
pub fn select_command(
    add: Option<String>,
    list: bool,
    complete: Option<i32>,
    reopen: Option<i32>,
    delete: Option<i32>,
) -> (c: Command)
    ensures
        c == selected_command(add, list, complete, reopen, delete),
{
    match add {
        Some(description) => Command::Add(description),
        None => if list {
            Command::List
        } else {
            match complete {
                Some(id) => Command::Complete(id),
                None => match reopen {
                    Some(id) => Command::Reopen(id),
                    None => match delete {
                        Some(id) => Command::Delete(id),
                        None => Command::NoOp,
                    },
                },
            }
        },
    }
}

} // verus!
