//! `delete`: removes an issue of the current branch that is not committed.
use vstd::prelude::*;
use crate::text::{views, str_eq, ends_with};
use crate::issue::{Issue, IssueView};
use crate::selection::{issue_views, matching_end, other_ids, id_title_line, findMatchingIssues};
use crate::evict::commands::last_arg;

verus! {

/// What `delete` acts on, given its arguments, the current branch
/// (`None`: not known) and the committed issues: the branch and the end of
/// the id of the issue to delete (the last argument). Without an argument,
/// the message and exit code 1; without a branch, exit code 2; when a
/// committed issue's id ends with the argument, a line for each such issue
/// and exit code 3 (a committed issue is never deleted). In these cases
/// nothing is deleted.
pub fn deleteIssue(args: Vec<String>, branch: Option<String>, committed: &Vec<Issue>) -> (r: Result<(String, String), (Vec<String>, isize)>)
    ensures
        args@.len() == 0 ==> (r matches Err(e) && e.1 == 1
            && views(e.0@) == seq!["The id of the issue to delete or an end segment of the id must be provided."@]),
        args@.len() > 0 && branch is None ==> (r matches Err(e) && e.1 == 2 && e.0@.len() == 0),
        args@.len() > 0 && branch is Some ==> ({
            let m = matching_end(issue_views(committed@), args@.last()@);
            &&& m.len() > 0 ==> (r matches Err(e) && e.1 == 3
                && views(e.0@) == m.map_values(|i: IssueView| committed_line(i)))
            &&& m.len() == 0 ==> (r matches Ok(p) && p.0@ == branch.unwrap()@ && p.1@ == args@.last()@)
        }),
{
    let issueIdPart = match last_arg(args) {
        None => {
            let lines = vec!["The id of the issue to delete or an end segment of the id must be provided.".to_owned()];
            assert(views(lines@) =~= seq!["The id of the issue to delete or an end segment of the id must be provided."@]);
            return Err((lines, 1));
        },
        Some(p) => p,
    };
    let b = match branch {
        None => {
            return Err((Vec::new(), 2));
        },
        Some(b) => b,
    };
    let (found, lines) = checkCommitted(issueIdPart.as_str(), committed);
    if found {
        Err((lines, 3))
    } else {
        Ok((b, issueIdPart))
    }
}

/// The line for a committed issue that cannot be deleted.
pub open spec fn committed_line(i: IssueView) -> Seq<char> {
    "Issue "@ + i.id + " ("@ + i.title + ") has already been committed, cannot delete."@
}

/// Whether a committed issue's id ends with `idPart`, with a line for each
/// such issue.
pub fn checkCommitted(idPart: &str, committed: &Vec<Issue>) -> (r: (bool, Vec<String>))
    ensures
        r.0 == (matching_end(issue_views(committed@), idPart@).len() > 0),
        views(r.1@) == matching_end(issue_views(committed@), idPart@).map_values(|i: IssueView| committed_line(i)),
{
    let ghost v = issue_views(committed@);
    let mut result = false;
    let mut lines: Vec<String> = Vec::new();
    let mut i: usize = 0;
    assert(v.take(0) =~= Seq::<IssueView>::empty());
    while i < committed.len()
        invariant
            v == issue_views(committed@),
            i <= v.len(),
            views(lines@) == matching_end(v.take(i as int), idPart@).map_values(|i: IssueView| committed_line(i)),
            result == (matching_end(v.take(i as int), idPart@).len() > 0),
        decreases v.len() - i,
    {
        proof {
            reveal_with_fuel(Seq::filter, 1);
            assert(v.take(i + 1).drop_last() =~= v.take(i as int));
            assert(v.take(i + 1).last() == committed@[i as int]@);
        }
        let issue = &committed[i];
        if ends_with(issue.id.as_str(), idPart) {
            let ghost prev = matching_end(v.take(i as int), idPart@);
            let mut l = "Issue ".to_owned();
            l.append(issue.id.as_str());
            l.append(" (");
            l.append(issue.title.as_str());
            l.append(") has already been committed, cannot delete.");
            let ghost pl = views(lines@);
            lines.push(l);
            assert(views(lines@) =~= pl.push(committed_line(issue@)));
            assert(prev.push(issue@).map_values(|i: IssueView| committed_line(i)) =~= prev.map_values(|i: IssueView| committed_line(i)).push(committed_line(issue@)));
            result = true;
        }
        i = i + 1;
    }
    assert(v.take(v.len() as int) =~= v);
    (result, lines)
}

/// What deleting the issue that `idPart` names does.
pub struct DeleteOutcome {
    /// The issues to store, when one issue was deleted.
    pub remaining: Option<Vec<Issue>>,
    /// The lines to show.
    pub lines: Vec<String>,
    /// The exit code.
    pub exit: isize,
}

/// Deletes the one issue whose id ends with `idPart`: the other issues
/// stay, in order (exit code 0). No match gives exit code 4, several give
/// exit code 5 and a list of them; then nothing is deleted.
pub fn execDelete(idPart: &str, issues: Vec<Issue>) -> (r: DeleteOutcome)
    ensures
        ({
            let m = matching_end(issue_views(issues@), idPart@);
            &&& m.len() == 0 ==> r.remaining is None && r.exit == 4
                && views(r.lines@) == seq!["No issue matching "@ + idPart@ + " found."@]
            &&& m.len() == 1 ==> (r.remaining matches Some(v)
                && issue_views(v@) == other_ids(issue_views(issues@), m[0].id) && r.exit == 0
                && views(r.lines@) == seq!["Issue "@ + m[0].id + " ("@ + m[0].title + ") deleted."@])
            &&& m.len() > 1 ==> r.remaining is None && r.exit == 5
                && views(r.lines@) == seq!["Multiple matching issues found:"@] + m.map_values(|i: IssueView| id_title_line(i))
        }),
{
    let matching = findMatchingIssues(idPart, issues.as_slice());
    let ghost m = issue_views(matching@);
    let ghost v = issue_views(issues@);
    if matching.len() == 0 {
        let mut l = "No issue matching ".to_owned();
        l.append(idPart);
        l.append(" found.");
        let lines = vec![l];
        assert(views(lines@) =~= seq![l@]);
        DeleteOutcome { remaining: None, lines, exit: 4 }
    } else if matching.len() == 1 {
        let target = &matching[0];
        let mut remaining: Vec<Issue> = Vec::new();
        let mut i: usize = 0;
        assert(v.take(0) =~= Seq::<IssueView>::empty());
        while i < issues.len()
            invariant
                v == issue_views(issues@),
                i <= v.len(),
                issue_views(remaining@) == other_ids(v.take(i as int), target@.id),
            decreases v.len() - i,
        {
            proof {
                reveal_with_fuel(Seq::filter, 1);
                assert(v.take(i + 1).drop_last() =~= v.take(i as int));
                assert(v.take(i + 1).last() == issues@[i as int]@);
            }
            if !str_eq(issues[i].id.as_str(), target.id.as_str()) {
                let ghost before = issue_views(remaining@);
                remaining.push(issues[i].clone());
                assert(issue_views(remaining@) =~= before.push(issues@[i as int]@));
            }
            i = i + 1;
        }
        assert(v.take(v.len() as int) =~= v);
        assert(m[0] == matching@[0]@);
        let mut l = "Issue ".to_owned();
        l.append(target.id.as_str());
        l.append(" (");
        l.append(target.title.as_str());
        l.append(") deleted.");
        let lines = vec![l];
        assert(views(lines@) =~= seq![l@]);
        DeleteOutcome { remaining: Some(remaining), lines, exit: 0 }
    } else {
        let mut lines: Vec<String> = Vec::new();
        lines.push("Multiple matching issues found:".to_owned());
        let mut k: usize = 0;
        while k < matching.len()
            invariant
                m == issue_views(matching@),
                k <= m.len(),
                views(lines@) == seq!["Multiple matching issues found:"@] + m.take(k as int).map_values(|i: IssueView| id_title_line(i)),
            decreases m.len() - k,
        {
            let ghost prev = views(lines@);
            let mut line = matching[k].id.clone();
            line.append(" (");
            line.append(matching[k].title.as_str());
            line.append(")");
            lines.push(line);
            k = k + 1;
            assert(m.take(k as int) =~= m.take(k - 1).push(m[k - 1]));
            assert(views(lines@) =~= prev.push(id_title_line(m[k - 1])));
            assert(m.take(k as int).map_values(|i: IssueView| id_title_line(i)) =~= m.take(k - 1).map_values(|i: IssueView| id_title_line(i)).push(id_title_line(m[k - 1])));
        }
        assert(m.take(m.len() as int) =~= m);
        DeleteOutcome { remaining: None, lines, exit: 5 }
    }
}

} // verus!
