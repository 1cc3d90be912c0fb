//! `new-status`: adds a status option.
use vstd::prelude::*;
use crate::evict::status_storage::{StatusOption, option_names};
use crate::evict::commands::failed_with;

verus! {

/// The status options with the one named by the only argument added at the
/// end; another number of arguments shows the usage (exit code 1).
pub fn new_status(args: Vec<String>, options: Vec<StatusOption>) -> (r: Result<Vec<StatusOption>, (String, isize)>)
    ensures
        args@.len() != 1 ==> failed_with(r, "new-status usage: evict new-status <status-name>"@, 1),
        args@.len() == 1 ==> (r matches Ok(v) && option_names(v@) == option_names(options@).push(args@[0]@)),
{
    let mut args = args;
    if args.len() != 1 {
        Err(("new-status usage: evict new-status <status-name>".to_owned(), 1))
    } else {
        let mut newStatuses = options;
        let ghost before = option_names(newStatuses@);
        let ghost a0 = args@[0]@;
        newStatuses.push(StatusOption { name: args.swap_remove(0) });
        assert(option_names(newStatuses@) =~= before.push(a0)) by {
            assert(option_names(newStatuses@).last() == newStatuses@.last().name@);
        }
        Ok(newStatuses)
    }
}

} // verus!
