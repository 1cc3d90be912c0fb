//! Finding issues by the end of their id, and replacing one of them.
use vstd::prelude::*;
use crate::issue::{Issue, IssueView};
use crate::text::{ends_with, str_eq, views};
use crate::evict::selection::lemma_filter_all;

verus! {

/// The values of a list of issues.
pub open spec fn issue_views(v: Seq<Issue>) -> Seq<IssueView> {
    v.map_values(|i: Issue| i@)
}

/// The issues among `v` whose id ends with `part`, in order.
pub open spec fn matching_end(v: Seq<IssueView>, part: Seq<char>) -> Seq<IssueView> {
    v.filter(|i: IssueView| part.is_suffix_of(i.id))
}

/// The issues of `v` other than those with the id `id`, in order.
pub open spec fn other_ids(v: Seq<IssueView>, id: Seq<char>) -> Seq<IssueView> {
    v.filter(|i: IssueView| i.id != id)
}

/// The line that names an issue: `"<id> (<title>)"`.
pub open spec fn id_title_line(i: IssueView) -> Seq<char> {
    i.id + " ("@ + i.title + ")"@
}

/// Copies of the issues whose id ends with `idEndPart`, in order.
pub fn findMatchingIssues(idEndPart: &str, searchIn: &[Issue]) -> (r: Vec<Issue>)
    ensures
        issue_views(r@) == matching_end(issue_views(searchIn@), idEndPart@),
{
    let ghost v = issue_views(searchIn@);
    let mut matching: Vec<Issue> = Vec::new();
    let mut i: usize = 0;
    assert(v.take(0) =~= Seq::<IssueView>::empty());
    while i < searchIn.len()
        invariant
            v == issue_views(searchIn@),
            i <= v.len(),
            issue_views(matching@) == matching_end(v.take(i as int), idEndPart@),
        decreases v.len() - i,
    {
        proof {
            reveal_with_fuel(Seq::filter, 1);
            assert(v.take(i + 1).drop_last() =~= v.take(i as int));
            assert(v.take(i + 1).last() == searchIn@[i as int]@);
        }
        if ends_with(searchIn[i].id.as_str(), idEndPart) {
            let ghost prev = issue_views(matching@);
            matching.push(searchIn[i].clone());
            assert(issue_views(matching@) =~= prev.push(searchIn@[i as int]@));
        }
        i = i + 1;
    }
    assert(v.take(v.len() as int) =~= v);
    matching
}

/// What `updateIssue` gives: the issues after the update, and the lines to
/// show when several issues matched (then nothing changed).
pub struct IssuesUpdate {
    pub issues: Vec<Issue>,
    pub report: Vec<String>,
}

/// Replaces the issue whose id ends with `idEndPart` by what `update`
/// makes of it, at the end of the list. When several issues match, the
/// list stays as it is and the report names them. Some issue must match.
pub fn updateIssue<UF: Fn(Issue) -> Issue>(idEndPart: &str, searchIn: Vec<Issue>, update: UF) -> (r: IssuesUpdate)
    requires
        matching_end(issue_views(searchIn@), idEndPart@).len() > 0,
        forall|i: Issue| issue_views(searchIn@).contains(i@) ==> update.requires((i,)),
    ensures
        ({
            let m = matching_end(issue_views(searchIn@), idEndPart@);
            &&& m.len() > 1 ==> issue_views(r.issues@) == issue_views(searchIn@)
                && views(r.report@) == seq!["Multiple matching issues found:"@] + m.map_values(|i: IssueView| id_title_line(i))
            &&& m.len() == 1 ==> r.report@.len() == 0 && exists|c: Issue, u: Issue|
                c@ == m[0] && #[trigger] update.ensures((c,), u)
                && issue_views(r.issues@) == other_ids(issue_views(searchIn@), m[0].id).push(u@)
        }),
{
    let ghost v = issue_views(searchIn@);
    let mut matching = findMatchingIssues(idEndPart, searchIn.as_slice());
    let ghost m = issue_views(matching@);
    if matching.len() > 1 {
        let mut report: Vec<String> = Vec::new();
        report.push("Multiple matching issues found:".to_owned());
        let mut k: usize = 0;
        while k < matching.len()
            invariant
                m == issue_views(matching@),
                k <= m.len(),
                views(report@) == seq!["Multiple matching issues found:"@] + m.take(k as int).map_values(|i: IssueView| id_title_line(i)),
            decreases m.len() - k,
        {
            let ghost prev = views(report@);
            let mut line = matching[k].id.clone();
            line.append(" (");
            line.append(matching[k].title.as_str());
            line.append(")");
            report.push(line);
            k = k + 1;
            assert(m.take(k as int) =~= m.take(k - 1).push(m[k - 1]));
            assert(views(report@) =~= prev.push(id_title_line(m[k - 1])));
            assert(m.take(k as int).map_values(|i: IssueView| id_title_line(i)) =~= m.take(k - 1).map_values(|i: IssueView| id_title_line(i)).push(id_title_line(m[k - 1])));
        }
        assert(m.take(m.len() as int) =~= m);
        IssuesUpdate { issues: searchIn, report }
    } else {
        let target = matching.swap_remove(0);
        let ghost tv = target@;
        assert(tv == m[0]);
        proof {
            assert forall|i: int| 0 <= i < v.len() implies v.contains(#[trigger] v[i]) by {}
            lemma_filter_all(v, |i: IssueView| idEndPart@.is_suffix_of(i.id), |x: IssueView| v.contains(x));
            assert(v.contains(tv));
        }
        let mut filtered: Vec<Issue> = Vec::new();
        let mut i: usize = 0;
        assert(v.take(0) =~= Seq::<IssueView>::empty());
        while i < searchIn.len()
            invariant
                v == issue_views(searchIn@),
                i <= v.len(),
                target@ == tv,
                issue_views(filtered@) == other_ids(v.take(i as int), tv.id),
            decreases v.len() - i,
        {
            proof {
                reveal_with_fuel(Seq::filter, 1);
                assert(v.take(i + 1).drop_last() =~= v.take(i as int));
                assert(v.take(i + 1).last() == searchIn@[i as int]@);
            }
            if !str_eq(searchIn[i].id.as_str(), target.id.as_str()) {
                let ghost prev = issue_views(filtered@);
                filtered.push(searchIn[i].clone());
                assert(issue_views(filtered@) =~= prev.push(searchIn@[i as int]@));
            }
            i = i + 1;
        }
        assert(v.take(v.len() as int) =~= v);
        let updated = update(target);
        let ghost prev = issue_views(filtered@);
        filtered.push(updated);
        assert(issue_views(filtered@) =~= prev.push(updated@));
        IssuesUpdate { issues: filtered, report: Vec::new() }
    }
}

} // verus!
