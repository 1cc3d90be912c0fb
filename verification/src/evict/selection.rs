//! Finding issues by the last digits of their id, and replacing one of them.
use vstd::prelude::*;
use crate::evict::issue::{Issue, IssueView};
use crate::text::{ends_with, str_eq, views};

verus! {

/// The views of a list of issues.
pub open spec fn issue_views(v: Seq<Issue>) -> Seq<IssueView> {
    v.map_values(|i: Issue| i@)
}

/// Whether `part` ends the id of issue `i`.
pub open spec fn id_matches(i: IssueView, part: Seq<char>) -> bool {
    part.is_suffix_of(i.base.id@)
}

/// The issues among `v` whose id `part` ends, in order.
pub open spec fn matching_spec(v: Seq<IssueView>, part: Seq<char>) -> Seq<IssueView> {
    v.filter(|i: IssueView| id_matches(i, part))
}

/// Copies of the issues whose id ends with `idPart`, in order.
pub fn find_matching_issues(idPart: &str, searchIn: &[Issue]) -> (r: Vec<Issue>)
    ensures
        issue_views(r@) == matching_spec(issue_views(searchIn@), idPart@),
{
    let mut matching: Vec<Issue> = Vec::new();
    let mut i: usize = 0;
    while i < searchIn.len()
        invariant
            i <= searchIn@.len(),
            issue_views(matching@) == matching_spec(issue_views(searchIn@).take(i as int), idPart@),
        decreases searchIn@.len() - i,
    {
        let ghost prev = issue_views(matching@);
        let ghost pre = issue_views(searchIn@).take(i as int);
        assert(issue_views(searchIn@).take(i + 1) =~= pre.push(searchIn@[i as int]@));
        assert(pre.push(searchIn@[i as int]@).drop_last() =~= pre);
        proof {
            reveal_with_fuel(Seq::filter, 1);
        }
        let issue = &searchIn[i];
        if ends_with(issue.id(), idPart) {
            let c = issue.clone();
            matching.push(c);
            assert(issue_views(matching@) =~= prev.push(searchIn@[i as int]@));
        } else {
            assert(issue_views(matching@) =~= prev);
        }
        i = i + 1;
    }
    assert(issue_views(searchIn@).take(searchIn@.len() as int) =~= issue_views(searchIn@));
    matching
}


/// Every issue that the filter keeps has the property `p`, if every issue
/// of `s` has it.
pub proof fn lemma_filter_all<A>(s: Seq<A>, pred: spec_fn(A) -> bool, p: spec_fn(A) -> bool)
    requires
        forall|i: int| 0 <= i < s.len() ==> p(#[trigger] s[i]),
    ensures
        forall|i: int| 0 <= i < s.filter(pred).len() ==> p(#[trigger] s.filter(pred)[i]),
    decreases s.len(),
{
    reveal_with_fuel(Seq::filter, 1);
    if s.len() > 0 {
        assert forall|i: int| 0 <= i < s.drop_last().len() implies p(#[trigger] s.drop_last()[i]) by {
            assert(s.drop_last()[i] == s[i]);
        }
        lemma_filter_all(s.drop_last(), pred, p);
        assert(p(s[s.len() - 1]));
        let f0 = s.drop_last().filter(pred);
        assert(s.filter(pred) == if pred(s.last()) { f0.push(s.last()) } else { f0 });
        assert forall|i: int| 0 <= i < s.filter(pred).len() implies p(#[trigger] s.filter(pred)[i]) by {
            if i < f0.len() {
                assert(s.filter(pred)[i] == f0[i]);
            }
        }
    }
}

/// The line that names an issue: `"<id> (<title>)"`.
pub open spec fn id_title_line(i: IssueView) -> Seq<char> {
    i.base.id@ + seq![' ', '('] + i.base.title@ + seq![')']
}

/// The text `"Found 0 or >1 matching issues:"`.
pub open spec fn ambiguous_header() -> Seq<char> {
    seq!['F', 'o', 'u', 'n', 'd', ' ', '0', ' ', 'o', 'r', ' ', '>', '1', ' ', 'm', 'a', 't', 'c', 'h', 'i', 'n', 'g', ' ', 'i', 's', 's', 'u', 'e', 's', ':']
}

/// The issues of `v` other than those with the id `id`, in order.
pub open spec fn without_id(v: Seq<IssueView>, id: Seq<char>) -> Seq<IssueView> {
    v.filter(|i: IssueView| i.base.id@ != id)
}

/// What `update_issue` gives: the list of issues after the update, and
/// the lines to show when no single issue matched (then nothing changed).
pub struct IssueUpdate {
    pub issues: Vec<Issue>,
    pub report: Vec<String>,
}

/// The line `"<id> (<title>)"` for an issue.
pub fn id_title(issue: &Issue) -> (r: String)
    ensures
        r@ == id_title_line(issue@),
{
    proof {
        reveal_strlit(" (");
        reveal_strlit(")");
    }
    let mut r = issue.base.id.clone();
    r.append(" (");
    r.append(issue.base.title.as_str());
    r.append(")");
    assert(r@ =~= id_title_line(issue@));
    r
}

/// Replaces the one issue whose id ends with `idEndPart` by what
/// `update` makes of it; the updated issue goes to the end of the list.
/// When no issue or several issues match, the list stays as it is and the
/// report names the matching issues.
pub fn update_issue<UF: Fn(Issue) -> Issue>(idEndPart: &str, searchIn: Vec<Issue>, update: UF) -> (r: IssueUpdate)
    requires
        forall|i: Issue| issue_views(searchIn@).contains(i@) ==> update.requires((i,)),
    ensures
        ({
            let m = matching_spec(issue_views(searchIn@), idEndPart@);
            &&& m.len() != 1 ==> issue_views(r.issues@) == issue_views(searchIn@)
                && views(r.report@) == seq![ambiguous_header()] + m.map_values(|i: IssueView| id_title_line(i))
            &&& m.len() == 1 ==> r.report@.len() == 0 && exists|c: Issue, u: Issue|
                c@ == m[0] && #[trigger] update.ensures((c,), u)
                && issue_views(r.issues@) == without_id(issue_views(searchIn@), m[0].base.id@).push(u@)
        }),
{
    let mut matching = find_matching_issues(idEndPart, searchIn.as_slice());
    let ghost m = matching_spec(issue_views(searchIn@), idEndPart@);
    if matching.len() != 1 {
        let mut report: Vec<String> = Vec::new();
        proof {
            reveal_strlit("Found 0 or >1 matching issues:");
        }
        let header = "Found 0 or >1 matching issues:".to_owned();
        assert(header@ =~= ambiguous_header());
        report.push(header);
        let mut k: usize = 0;
        while k < matching.len()
            invariant
                k <= matching@.len(),
                issue_views(matching@) == m,
                views(report@) == seq![ambiguous_header()] + m.take(k as int).map_values(|i: IssueView| id_title_line(i)),
            decreases matching@.len() - k,
        {
            let ghost prev = views(report@);
            let line = id_title(&matching[k]);
            report.push(line);
            k = k + 1;
            assert(m.take(k as int) =~= m.take(k - 1).push(m[k - 1]));
            assert(views(report@) =~= prev.push(id_title_line(m[k - 1])));
            assert(m.take(k as int).map_values(|i: IssueView| id_title_line(i)) =~= m.take(k - 1).map_values(|i: IssueView| id_title_line(i)).push(id_title_line(m[k - 1])));
        }
        assert(m.take(m.len() as int) =~= m);
        IssueUpdate { issues: searchIn, report }
    } else {
        let target = matching.pop().unwrap();
        let ghost tv = target@;
        assert(tv == m[0]);
        proof {
            let v = issue_views(searchIn@);
            assert forall|i: int| 0 <= i < v.len() implies v.contains(#[trigger] v[i]) by {}
            lemma_filter_all(v, |i: IssueView| id_matches(i, idEndPart@), |x: IssueView| v.contains(x));
            assert(v.contains(tv));
        }
        let mut filtered: Vec<Issue> = Vec::new();
        let mut i: usize = 0;
        let n = searchIn.len();
        let ghost sv = issue_views(searchIn@);
        let mut rest = searchIn;
        assert(issue_views(rest@) =~= sv.skip(0));
        while i < n
            invariant
                i <= n,
                n == sv.len(),
                issue_views(rest@) == sv.skip(i as int),
                rest@.len() == n - i,
                target@ == tv,
                issue_views(filtered@) == without_id(sv.take(i as int), tv.base.id@),
            decreases n - i,
        {
            assert(issue_views(rest@)[0] == rest@[0]@);
            let ghost before = rest@;
            let issue = rest.remove(0);
            assert(rest@ =~= before.drop_first());
            assert(sv.skip(i as int).drop_first() =~= sv.skip(i + 1));
            let ghost iv = issue@;
            assert(iv == sv[i as int]);
            assert(issue_views(rest@) =~= sv.skip(i + 1));
            let ghost prev = issue_views(filtered@);
            assert(sv.take(i + 1) =~= sv.take(i as int).push(iv));
            proof {
                reveal_with_fuel(Seq::filter, 1);
                assert(sv.take(i as int).push(iv).drop_last() =~= sv.take(i as int));
            }
            if !str_eq(issue.id(), target.id()) {
                filtered.push(issue);
                assert(issue_views(filtered@) =~= prev.push(iv));
            } else {
                assert(issue_views(filtered@) =~= prev);
            }
            i = i + 1;
        }
        assert(sv.take(n as int) =~= sv);
        let updated = update(target);
        let ghost uv = updated@;
        let ghost prev = issue_views(filtered@);
        filtered.push(updated);
        assert(issue_views(filtered@) =~= prev.push(uv));
        IssueUpdate { issues: filtered, report: Vec::new() }
    }
}

} // verus!
