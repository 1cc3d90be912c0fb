//! `merge`: merges the issues of one branch into another.
use vstd::prelude::*;
use crate::file_manager::committableIssueFilename;
use crate::issue::Issue;
use crate::merge::{mergeIssues, merged_lists, comment_stamps_in_range};

verus! {

/// The files that a merge reads and writes.
pub struct MergePlan {
    /// The branch whose issues come in.
    pub from_branch: String,
    /// Its issue file.
    pub from_file: String,
    /// The issue file merged into, and written.
    pub to_file: String,
}

/// The usage line of `merge`.
pub open spec fn merge_usage() -> Seq<char> {
    "Usage: evict merge <from-branch> [<to-branch>]"@
}

/// What `merge <from-branch> [<to-branch>]` merges: the issue file of the
/// first branch into that of the second, or of the current branch
/// (`current_branch`; without it exit code 2). Another number of arguments
/// shows the usage (exit code 1).
pub fn mergeBranches(args: Vec<String>, current_branch: Option<String>) -> (r: Result<MergePlan, (String, isize)>)
    ensures
        (args@.len() == 0 || args@.len() > 2) ==> crate::evict::commands::failed_with(r, merge_usage(), 1),
        args@.len() == 1 && current_branch is None ==> crate::evict::commands::failed_with(r, "Could not determine current branch"@, 2),
        (args@.len() == 2 || (args@.len() == 1 && current_branch is Some)) ==> (r matches Ok(p)
            && p.from_branch@ == args@[0]@
            && p.from_file@ == ".evict/"@ + args@[0]@ + ".ebtdlocal"@
            && p.to_file@ == ".evict/"@ + (if args@.len() == 2 { args@[1]@ } else { current_branch.unwrap()@ }) + ".ebtdlocal"@),
{
    if args.len() == 0 || args.len() > 2 {
        return Err(("Usage: evict merge <from-branch> [<to-branch>]".to_owned(), 1));
    }
    let fromFile = committableIssueFilename(args[0].as_str());
    let toFile = if args.len() == 2 {
        committableIssueFilename(args[1].as_str())
    } else {
        match current_branch {
            None => {
                return Err(("Could not determine current branch".to_owned(), 2));
            },
            Some(branchName) => committableIssueFilename(branchName.as_str()),
        }
    };
    Ok(MergePlan { from_branch: args[0].clone(), from_file: fromFile, to_file: toFile })
}

/// The line and exit code when the incoming branch has no issue file.
pub fn mergeFromMissing(plan: &MergePlan) -> (r: (String, isize))
    ensures
        r.0@ == "There are no issues for "@ + plan.from_branch@,
        r.1 == 3,
{
    let mut m = "There are no issues for ".to_owned();
    m.append(plan.from_branch.as_str());
    (m, 3)
}

/// The issues to write to the merged-into file, given whether the
/// incoming branch has an issue file (`from_present`) and the issues read
/// from both files: without an incoming file, the line and exit code 3 and
/// nothing to write; else the merge of the incoming issues into the others
/// (see `mergeIssues`).
pub fn mergeFiles(plan: &MergePlan, from_present: bool, from_issues: Vec<Issue>, to_issues: Vec<Issue>) -> (r: Result<Vec<Issue>, (String, isize)>)
    requires
        from_present ==> forall|i: int| 0 <= i < from_issues@.len() ==> comment_stamps_in_range(#[trigger] from_issues@[i]),
        from_present ==> forall|i: int| 0 <= i < to_issues@.len() ==> comment_stamps_in_range(#[trigger] to_issues@[i]),
    ensures
        !from_present ==> (r matches Err(e) && e.0@ == "There are no issues for "@ + plan.from_branch@ && e.1 == 3),
        from_present ==> (r matches Ok(m) && merged_lists(m@, from_issues@, to_issues@)),
{
    if !from_present {
        Err(mergeFromMissing(plan))
    } else {
        Ok(mergeIssues(from_issues, to_issues))
    }
}

/// The line and exit code after writing the merged issues: 0 when they
/// were written, 4 otherwise.
pub fn mergeWritten(success: bool) -> (r: (Option<String>, isize))
    ensures
        success ==> r.0 is None && r.1 == 0,
        !success ==> (r.0 matches Some(m) && m@ == "Could not write issues to file"@ && r.1 == 4),
{
    if success {
        (None, 0)
    } else {
        (Some("Could not write issues to file".to_owned()), 4)
    }
}

} // verus!
