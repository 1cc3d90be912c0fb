//! `merge`: merges the issues of one branch into another.
use vstd::prelude::*;
use crate::file_manager::committableIssueFilename;
use crate::commands::merge::{MergePlan, merge_usage};
use crate::evict::commands::failed_with;

verus! {

/// What `merge <from-branch> [<to-branch>]` merges: the issue file of the
/// first branch into that of the second, or of the current branch
/// (`current_branch`; without it exit code 2). Another number of arguments
/// shows the usage (exit code 1).
pub fn merge_branches(args: Vec<String>, current_branch: Option<String>) -> (r: Result<MergePlan, (String, isize)>)
    ensures
        (args@.len() == 0 || args@.len() > 2) ==> failed_with(r, merge_usage(), 1),
        args@.len() == 1 && current_branch is None ==> failed_with(r, "Could not determine current branch"@, 2),
        (args@.len() == 2 || (args@.len() == 1 && current_branch is Some)) ==> (r matches Ok(p)
            && p.from_branch@ == args@[0]@
            && p.from_file@ == ".evict/"@ + args@[0]@ + ".ebtdlocal"@
            && p.to_file@ == ".evict/"@ + (if args@.len() == 2 { args@[1]@ } else { current_branch.unwrap()@ }) + ".ebtdlocal"@),
{
    if args.len() == 0 || args.len() > 2 {
        return Err(("Usage: evict merge <from-branch> [<to-branch>]".to_owned(), 1));
    }
    let fromFile = committableIssueFilename(args[0].as_str());
    let toFile = if args.len() == 2 {
        committableIssueFilename(args[1].as_str())
    } else {
        match current_branch {
            None => {
                return Err(("Could not determine current branch".to_owned(), 2));
            },
            Some(branchName) => committableIssueFilename(branchName.as_str()),
        }
    };
    Ok(MergePlan { from_branch: args[0].clone(), from_file: fromFile, to_file: toFile })
}

} // verus!
