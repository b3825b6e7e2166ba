use vstd::prelude::*;
use vstd::string::*;

use crate::text::{has_prefix, starts_with};

verus! {

/// The short label of a benchmarked command line: `rytest` for the release build of this
/// runner, `pytest` for pytest, none for anything else.
pub open spec fn command_label(command: Seq<char>) -> Option<Seq<char>> {
    if has_prefix(command, "target/release/rytest"@) {
        Some("rytest"@)
    } else if has_prefix(command, "pytest"@) {
        Some("pytest"@)
    } else {
        None
    }
}

/// The short label of a benchmarked command line, or `None` for an unknown command.
pub fn shorten_command(command: &str) -> (r: Option<String>)
    ensures
        match r {
            Some(s) => command_label(command@) == Some(s@),
            None => command_label(command@) is None,
        },
{
    if starts_with(command, "target/release/rytest") {
        Some(String::from_str("rytest"))
    } else if starts_with(command, "pytest") {
        Some(String::from_str("pytest"))
    } else {
        None
    }
}

} // verus!
