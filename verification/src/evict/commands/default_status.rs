//! `default-status`: shows or sets the status new issues get.
use vstd::prelude::*;
use crate::evict::status_storage::{StatusOption, StatusWriteError};

verus! {

/// What `default-status` does with its arguments.
pub enum DefaultStatusPlan {
    /// Shows the line and exits with the code.
    Report(String, isize),
    /// Makes this option the default (see `write_default_status`).
    Write(StatusOption),
}

/// With no argument shows the default status `current` (exit code 2); with
/// one argument makes it the default; more arguments show the usage (exit
/// code 1).
pub fn default_status(args: Vec<String>, current: &StatusOption) -> (r: DefaultStatusPlan)
    ensures
        args@.len() > 1 ==> (r matches DefaultStatusPlan::Report(m, c) && c == 1
            && m@ == "default-status usage: evict default-status [new-status]"@),
        args@.len() == 0 ==> (r matches DefaultStatusPlan::Report(m, c) && c == 2
            && m@ == "Current default status is: "@ + current.name@),
        args@.len() == 1 ==> (r matches DefaultStatusPlan::Write(o) && o.name@ == args@[0]@),
{
    let mut args = args;
    if args.len() > 1 {
        DefaultStatusPlan::Report("default-status usage: evict default-status [new-status]".to_owned(), 1)
    } else if args.len() == 0 {
        let mut m = "Current default status is: ".to_owned();
        m.append(current.name.as_str());
        DefaultStatusPlan::Report(m, 2)
    } else {
        DefaultStatusPlan::Write(StatusOption { name: args.swap_remove(0) })
    }
}

/// The exit code and line of `default-status` after storing the default:
/// 0 when it was stored, 3 with "Could not write to file" when the file
/// could not be written, 4 with the reason when the status is not an option.
pub fn default_status_report(written: Result<(), StatusWriteError>) -> (r: (Option<String>, isize))
    ensures
        written is Ok ==> r.0 is None && r.1 == 0,
        written matches Err(StatusWriteError::IoWriteFailure(_)) ==> (r.0 matches Some(m)
            && m@ == "Could not write to file"@ && r.1 == 3),
        written matches Err(StatusWriteError::InvalidStatus(s)) ==> (r.0 matches Some(m) && m@ == s@ && r.1 == 4),
{
    match written {
        Ok(()) => (None, 0),
        Err(StatusWriteError::IoWriteFailure(_)) => (Some("Could not write to file".to_owned()), 3),
        Err(StatusWriteError::InvalidStatus(s)) => (Some(s), 4),
    }
}

} // verus!
