//! `comment`: adds a comment to an issue.
use vstd::prelude::*;
use crate::text::{views, opt_view, str_eq};
use crate::evict::issue::{Issue, IssueView, IssueComment, IssueTimelineEvent, unknown_branch};
use crate::evict::selection::{issue_views, without_id, id_title, id_title_line};
use crate::evict::commands::{last_arg, failed_with};

verus! {

/// The id (or the end of the id) of the issue to comment on: the last
/// argument. Without one, the message and exit code 1.
pub fn new_comment(args: Vec<String>) -> (r: Result<String, (String, isize)>)
    ensures
        args@.len() == 0 ==> failed_with(r, "The id for the issue, or an end section of it must be provided."@, 1),
        args@.len() > 0 ==> (r matches Ok(id) && id@ == args@.last()@),
{
    match last_arg(args) {
        None => Err(("The id for the issue, or an end section of it must be provided.".to_owned(), 1)),
        Some(issueIdPart) => Ok(issueIdPart),
    }
}

/// The branch the comment is made on: the current branch. When it is not
/// known, the message and exit code 2 (nothing is read or written).
pub fn comment_branch(branch: Option<String>) -> (r: Result<String, (String, isize)>)
    ensures
        branch is None ==> failed_with(r, "Could not resolve current branch."@, 2),
        branch matches Some(b) ==> (r matches Ok(x) && x@ == b@),
{
    match branch {
        None => Err(("Could not resolve current branch.".to_owned(), 2)),
        Some(b) => Ok(b),
    }
}

/// The issue to comment on among the matching issues: the only one. No
/// match gives exit code 3, several give exit code 6 and a list of them.
pub fn comment_target(matching: Vec<Issue>) -> (r: Result<Issue, (Vec<String>, isize)>)
    ensures
        matching@.len() == 1 ==> (r matches Ok(i) && i@ == matching@[0]@),
        matching@.len() == 0 ==> (r matches Err(e) && e.1 == 3 && views(e.0@) == seq!["No issue matching the given id found."@]),
        matching@.len() > 1 ==> (r matches Err(e) && e.1 == 6 && views(e.0@) == seq!["Multiple matching issues"@]
            + issue_views(matching@).map_values(|i: IssueView| id_title_line(i))),
{
    let mut matching = matching;
    if matching.len() == 0 {
        let lines = vec!["No issue matching the given id found.".to_owned()];
        assert(views(lines@) =~= seq!["No issue matching the given id found."@]);
        Err((lines, 3))
    } else if matching.len() == 1 {
        Ok(matching.pop().unwrap())
    } else {
        let ghost m = issue_views(matching@);
        let mut lines: Vec<String> = Vec::new();
        lines.push("Multiple matching issues".to_owned());
        let mut k: usize = 0;
        while k < matching.len()
            invariant
                m == issue_views(matching@),
                k <= m.len(),
                views(lines@) == seq!["Multiple matching issues"@] + m.take(k as int).map_values(|i: IssueView| id_title_line(i)),
            decreases m.len() - k,
        {
            let ghost prev = views(lines@);
            let line = id_title(&matching[k]);
            lines.push(line);
            k = k + 1;
            assert(m.take(k as int) =~= m.take(k - 1).push(m[k - 1]));
            assert(views(lines@) =~= prev.push(id_title_line(m[k - 1])));
            assert(m.take(k as int).map_values(|i: IssueView| id_title_line(i)) =~= m.take(k - 1).map_values(|i: IssueView| id_title_line(i)).push(id_title_line(m[k - 1])));
        }
        assert(m.take(m.len() as int) =~= m);
        Err((lines, 6))
    }
}

/// The file the editor opens for a comment on `issue`: `COMMENT_ON_<id>`.
pub fn comment_filename(issue: &Issue) -> (r: String)
    ensures
        r@ == "COMMENT_ON_"@ + issue.base.id@,
{
    let mut r = "COMMENT_ON_".to_owned();
    r.append(issue.id());
    r
}

/// `i` is `issue` with a comment by `author` with the body `body` on the
/// branch `branch` added at the end of its timeline.
pub open spec fn comment_added(i: IssueView, issue: IssueView, author: Seq<char>, body: Seq<char>, branch: Seq<char>) -> bool {
    &&& i.base == issue.base
    &&& i.status == issue.status
    &&& i.events.len() == issue.events.len() + 1
    &&& i.events.drop_last() == issue.events
    &&& match i.events.last() {
        IssueTimelineEvent::TimelineComment(c) => c.author@ == author && c.body_text@ == body && c.branch@ == branch,
        IssueTimelineEvent::TimelineTag(_) => false,
    }
}

/// The issue with the comment written in the editor: `edited` says whether
/// the editor ran, `text` is the comment file's text (`None`: it could not
/// be read). Without an edit, exit code 4; without a text, exit code 5. The
/// comment is by `author`, made now on `branch` (`None`: not known).
pub fn comment_on_matching(issue: Issue, author: String, edited: bool, text: Option<String>, branch: Option<String>) -> (r: Result<Issue, (String, isize)>)
    ensures
        !edited ==> failed_with(r, "No comment body provided"@, 4),
        edited && text is None ==> failed_with(r, "Could not read comment body from file"@, 5),
        edited && text is Some ==> (r matches Ok(i) && comment_added(i@, issue@, author@, text.unwrap()@, match branch {
            Some(b) => b@,
            None => unknown_branch(),
        })),
{
    if !edited {
        Err(("No comment body provided".to_owned(), 4))
    } else {
        match text {
            None => Err(("Could not read comment body from file".to_owned(), 5)),
            Some(t) => {
                let newComment = IssueComment::new(author, t, branch);
                let mut newIssue = issue;
                let ghost before = newIssue.events@;
                newIssue.add_comment(newComment);
                assert(newIssue.events@.drop_last() =~= before);
                Ok(newIssue)
            },
        }
    }
}

/// The stored issues with `newIssue` in place of the issue with its id,
/// moved to the end. Exactly one stored issue has that id.
pub fn process_new_issue(allIssues: Vec<Issue>, newIssue: Issue) -> (r: Vec<Issue>)
    requires
        without_id(issue_views(allIssues@), newIssue.base.id@).len() + 1 == allIssues@.len(),
    ensures
        issue_views(r@) == without_id(issue_views(allIssues@), newIssue.base.id@).push(newIssue@),
{
    let ghost v = issue_views(allIssues@);
    let mut newIssues: Vec<Issue> = Vec::new();
    let mut i: usize = 0;
    assert(v.take(0) =~= Seq::<IssueView>::empty());
    while i < allIssues.len()
        invariant
            v == issue_views(allIssues@),
            i <= v.len(),
            issue_views(newIssues@) == without_id(v.take(i as int), newIssue.base.id@),
        decreases v.len() - i,
    {
        proof {
            reveal_with_fuel(Seq::filter, 1);
            assert(v.take(i + 1).drop_last() =~= v.take(i as int));
            assert(v.take(i + 1).last() == allIssues@[i as int]@);
        }
        if !str_eq(allIssues[i].id(), newIssue.id()) {
            let ghost before = issue_views(newIssues@);
            newIssues.push(allIssues[i].clone());
            assert(issue_views(newIssues@) =~= before.push(allIssues@[i as int]@));
        }
        i = i + 1;
    }
    assert(v.take(v.len() as int) =~= v);
    let ghost before = issue_views(newIssues@);
    newIssues.push(newIssue);
    assert(issue_views(newIssues@) =~= before.push(newIssue@));
    newIssues
}

} // verus!
