//! `default-status`: shows or sets the status new issues get.
use vstd::prelude::*;
use crate::status_storage::StatusOption;
use crate::evict::commands::default_status::DefaultStatusPlan;

verus! {

/// With no argument shows the default status `current` (exit code 2); with
/// one argument makes it the default (see `writeDefaultStatus`); more
/// arguments show the usage (exit code 1).
pub fn defaultStatus(args: Vec<String>, current: &StatusOption) -> (r: DefaultStatusPlan)
    ensures
        args@.len() > 1 ==> (r matches DefaultStatusPlan::Report(m, c) && c == 1
            && m@ == "default-status usage: evict default-status [new-status]"@),
        args@.len() == 0 ==> (r matches DefaultStatusPlan::Report(m, c) && c == 2
            && m@ == "Current default status is: "@ + current.name@),
        args@.len() == 1 ==> (r matches DefaultStatusPlan::Write(o) && o.name@ == args@[0]@),
{
    if args.len() > 1 {
        DefaultStatusPlan::Report("default-status usage: evict default-status [new-status]".to_owned(), 1)
    } else if args.len() == 0 {
        let mut m = "Current default status is: ".to_owned();
        m.append(current.name.as_str());
        DefaultStatusPlan::Report(m, 2)
    } else {
        DefaultStatusPlan::Write(crate::evict::status_storage::StatusOption { name: args[0].clone() })
    }
}

/// The exit code and line of `default-status` after storing the default:
/// 0 when it was written, 3 with "Could not write to file" when it was
/// not, 4 with the reason when the status is not an option.
pub fn defaultStatusReport(written: Result<bool, String>) -> (r: (Option<String>, isize))
    ensures
        written == Ok::<bool, String>(true) ==> r.0 is None && r.1 == 0,
        written == Ok::<bool, String>(false) ==> (r.0 matches Some(m) && m@ == "Could not write to file"@ && r.1 == 3),
        written matches Err(s) ==> (r.0 matches Some(m) && m@ == s@ && r.1 == 4),
{
    match written {
        Ok(true) => (None, 0),
        Ok(false) => (Some("Could not write to file".to_owned()), 3),
        Err(s) => (Some(s), 4),
    }
}

} // verus!
