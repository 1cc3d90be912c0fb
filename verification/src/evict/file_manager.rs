//! Where issues are kept: one directory per issue under
//! `.evict/issue-dirs`, holding the issue's body and one file per event.
use vstd::prelude::*;
use crate::evict::issue::{Issue, IssueTimelineEvent};

verus! {

/// The tracker's directory.
pub const EVICT_DIRECTORY: &'static str = ".evict";

/// The name of the directory of issue directories.
pub const ISSUE_DIRECTORY: &'static str = "issue-dirs";

/// The name of the file that holds an issue without its events.
pub const BODY_FILENAME: &'static str = "body";

/// `.evict/issue-dirs`.
pub open spec fn issue_directory_spec() -> Seq<char> {
    seq!['.', 'e', 'v', 'i', 'c', 't', '/', 'i', 's', 's', 'u', 'e', '-', 'd', 'i', 'r', 's']
}

/// The directory of issue directories.
pub fn issue_directory() -> (r: String)
    ensures
        r@ == issue_directory_spec(),
{
    proof {
        reveal_strlit(".evict");
        reveal_strlit("issue-dirs");
        reveal_strlit("/");
    }
    let mut r = EVICT_DIRECTORY.to_owned();
    r.append("/");
    r.append(ISSUE_DIRECTORY);
    assert(r@ =~= issue_directory_spec());
    r
}

/// The directory of one issue: `.evict/issue-dirs/<id>`.
pub fn single_issue_filename(issue: &Issue) -> (r: String)
    ensures
        r@ == issue_directory_spec() + seq!['/'] + issue.base.id@,
{
    proof {
        reveal_strlit("/");
    }
    let mut r = issue_directory();
    r.append("/");
    r.append(issue.id());
    r
}

/// The file of an issue without its events: `.evict/issue-dirs/<id>/body`.
pub fn issue_body_filename(issue: &Issue) -> (r: String)
    ensures
        r@ == issue_directory_spec() + seq!['/'] + issue.base.id@ + seq!['/', 'b', 'o', 'd', 'y'],
{
    proof {
        reveal_strlit("/");
        reveal_strlit("body");
    }
    let mut r = single_issue_filename(issue);
    r.append("/");
    r.append(BODY_FILENAME);
    assert(r@ =~= issue_directory_spec() + seq!['/'] + issue.base.id@ + seq!['/', 'b', 'o', 'd', 'y']);
    r
}

/// The file of one event of an issue: `.evict/issue-dirs/<issue id>/<event id>`.
pub fn issue_event_filename(issueId: &str, event: &IssueTimelineEvent) -> (r: String)
    ensures
        r@ == issue_directory_spec() + seq!['/'] + issueId@ + seq!['/'] + event.id_spec(),
{
    proof {
        reveal_strlit("/");
    }
    let mut r = issue_directory();
    r.append("/");
    r.append(issueId);
    r.append("/");
    r.append(event.id());
    r
}

} // verus!
