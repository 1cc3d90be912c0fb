//! `delete`: removes an issue.
use vstd::prelude::*;
use crate::text::{views, opt_view, str_eq};
use crate::evict::issue::{Issue, IssueView};
use crate::evict::selection::{issue_views, matching_spec, find_matching_issues, without_id, id_title, id_title_line};
use crate::evict::commands::{last_arg, failed_with};

verus! {

/// The id (or the end of the id) of the issue to delete: the last argument.
/// Without one, the message and exit code 1.
pub fn delete_issue(args: Vec<String>) -> (r: Result<String, (String, isize)>)
    ensures
        args@.len() == 0 ==> failed_with(r, "The id of the issue to delete or an end segment of the id must be provided."@, 1),
        args@.len() > 0 ==> (r matches Ok(id) && id@ == args@.last()@),
{
    match last_arg(args) {
        None => Err(("The id of the issue to delete or an end segment of the id must be provided.".to_owned(), 1)),
        Some(issueIdPart) => Ok(issueIdPart),
    }
}

/// What deleting the issue that `idPart` names does.
pub struct DeleteOutcome {
    /// The issues to store, when one issue was deleted.
    pub remaining: Option<Vec<Issue>>,
    /// The lines to show.
    pub lines: Vec<String>,
    /// The exit code.
    pub exit: isize,
}

/// Deletes the one issue whose id ends with `idPart`: the other
/// issues stay, in order (exit code 0). No match gives exit code 4, several
/// give exit code 5 and a list of them; then nothing is deleted.
pub fn exec_delete(idPart: &str, issues: Vec<Issue>) -> (r: DeleteOutcome)
    ensures
        ({
            let m = matching_spec(issue_views(issues@), idPart@);
            &&& m.len() == 0 ==> r.remaining is None && r.exit == 4
                && views(r.lines@) == seq!["No issue matching "@ + idPart@ + " found."@]
            &&& m.len() == 1 ==> (r.remaining matches Some(v)
                && issue_views(v@) == without_id(issue_views(issues@), m[0].base.id@) && r.exit == 0
                && views(r.lines@) == seq!["Issue "@ + m[0].base.id@ + " ("@ + m[0].base.title@ + ") deleted."@])
            &&& m.len() > 1 ==> r.remaining is None && r.exit == 5
                && views(r.lines@) == seq!["Multiple matching issues found:"@] + m.map_values(|i: IssueView| id_title_line(i))
        }),
{
    let matching = find_matching_issues(idPart, issues.as_slice());
    let ghost m = issue_views(matching@);
    let ghost v = issue_views(issues@);
    if matching.len() == 0 {
        let mut l = "No issue matching ".to_owned();
        l.append(idPart);
        l.append(" found.");
        let lines = vec![l];
        assert(views(lines@) =~= seq![l@]);
        DeleteOutcome { remaining: None, lines, exit: 4 }
    } else if matching.len() == 1 {
        let target = &matching[0];
        let mut remaining: Vec<Issue> = Vec::new();
        let mut i: usize = 0;
        assert(v.take(0) =~= Seq::<IssueView>::empty());
        while i < issues.len()
            invariant
                v == issue_views(issues@),
                i <= v.len(),
                issue_views(remaining@) == without_id(v.take(i as int), target@.base.id@),
            decreases v.len() - i,
        {
            proof {
                reveal_with_fuel(Seq::filter, 1);
                assert(v.take(i + 1).drop_last() =~= v.take(i as int));
                assert(v.take(i + 1).last() == issues@[i as int]@);
            }
            if !str_eq(issues[i].id(), target.id()) {
                let ghost before = issue_views(remaining@);
                remaining.push(issues[i].clone());
                assert(issue_views(remaining@) =~= before.push(issues@[i as int]@));
            }
            i = i + 1;
        }
        assert(v.take(v.len() as int) =~= v);
        assert(m[0] == matching@[0]@);
        let mut l = "Issue ".to_owned();
        l.append(target.id());
        l.append(" (");
        l.append(target.title());
        l.append(") deleted.");
        let lines = vec![l];
        assert(views(lines@) =~= seq![l@]);
        DeleteOutcome { remaining: Some(remaining), lines, exit: 0 }
    } else {
        let mut lines: Vec<String> = Vec::new();
        lines.push("Multiple matching issues found:".to_owned());
        let mut k: usize = 0;
        while k < matching.len()
            invariant
                m == issue_views(matching@),
                k <= m.len(),
                views(lines@) == seq!["Multiple matching issues found:"@] + m.take(k as int).map_values(|i: IssueView| id_title_line(i)),
            decreases m.len() - k,
        {
            let ghost prev = views(lines@);
            let line = id_title(&matching[k]);
            lines.push(line);
            k = k + 1;
            assert(m.take(k as int) =~= m.take(k - 1).push(m[k - 1]));
            assert(views(lines@) =~= prev.push(id_title_line(m[k - 1])));
            assert(m.take(k as int).map_values(|i: IssueView| id_title_line(i)) =~= m.take(k - 1).map_values(|i: IssueView| id_title_line(i)).push(id_title_line(m[k - 1])));
        }
        assert(m.take(m.len() as int) =~= m);
        DeleteOutcome { remaining: None, lines, exit: 5 }
    }
}

} // verus!
