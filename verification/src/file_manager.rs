//! Where issues are kept: all issues of a branch in one JSON file.
use vstd::prelude::*;
use crate::json::{Json, JsonView, json_view, list_view, lemma_list_view};
use crate::issue::{Issue, IssueView, issue_json, issue_from_json, json_readable, issue_printable, opt_issue_view};
use crate::date_sort::{sortByTime, shared_ids_share_time, time_ordered};

verus! {

/// The tracker's directory, with its separator.
pub const EVICT_DIRECTORY: &'static str = ".evict/";

/// The extension of the committed issue file.
pub const EXTENSION: &'static str = ".ebtd";

/// The extension of a branch's issue file.
pub const LOCAL_EXT: &'static str = ".ebtdlocal";

/// The name of the committed issue file, without extension.
pub const ACTIVE_ISSUE_FILENAME_PART: &'static str = "issues";

/// The file of committed issues: `.evict/issues.ebtd`.
pub fn activeIssueFilename() -> (r: String)
    ensures
        r@ == ".evict/issues.ebtd"@,
{
    let mut r = EVICT_DIRECTORY.to_owned();
    r.append(ACTIVE_ISSUE_FILENAME_PART);
    r.append(EXTENSION);
    proof {
        reveal_strlit(".evict/");
        reveal_strlit("issues");
        reveal_strlit(".ebtd");
        reveal_strlit(".evict/issues.ebtd");
    }
    assert(r@ =~= ".evict/issues.ebtd"@);
    r
}

/// The file of a branch's issues: `.evict/<branch>.ebtdlocal`.
pub fn committableIssueFilename(branchname: &str) -> (r: String)
    ensures
        r@ == ".evict/"@ + branchname@ + ".ebtdlocal"@,
{
    let mut r = EVICT_DIRECTORY.to_owned();
    r.append(branchname);
    r.append(LOCAL_EXT);
    r
}

/// The issues stored in the list `l`: those that read as issues, in order.
pub open spec fn issues_from(l: Seq<JsonView>) -> Seq<IssueView>
    decreases l.len(),
{
    if l.len() == 0 {
        Seq::empty()
    } else {
        let rest = issues_from(l.drop_last());
        match issue_from_json(l.last()) {
            Some(i) => rest.push(i),
            None => rest,
        }
    }
}

/// The issues stored in `json`: none unless it is a list.
pub open spec fn issues_from_json(j: JsonView) -> Seq<IssueView> {
    match j {
        JsonView::List(l) => issues_from(l),
        _ => Seq::empty(),
    }
}

/// Whether every issue of a stored list can be read (see `json_readable`).
pub open spec fn list_readable(j: JsonView) -> bool {
    match j {
        JsonView::List(l) => forall|k: int| 0 <= k < l.len() ==> json_readable(#[trigger] l[k]),
        _ => true,
    }
}

/// The issues stored in `json` (see `issues_from_json`).
pub fn readIssuesFromJson(json: Json) -> (r: Vec<Issue>)
    requires
        list_readable(json@),
    ensures
        crate::selection::issue_views(r@) == issues_from_json(json@),
{
    let ghost jv = json@;
    match json {
        Json::List(jsonVals) => {
            let ghost l = list_view(jsonVals@);
            proof {
                lemma_list_view(jsonVals@);
                assert(jv == JsonView::List(l));
                assert(list_readable(jv));
                assert forall|k: int| 0 <= k < l.len() implies json_readable(#[trigger] l[k]) by {
                    let jl = jv->List_0;
                    assert(jl == l);
                    assert(json_readable(jl[k]));
                }
            }
            let mut r: Vec<Issue> = Vec::new();
            let mut i: usize = 0;
            assert(l.take(0) =~= Seq::<JsonView>::empty());
            while i < jsonVals.len()
                invariant
                    l == list_view(jsonVals@),
                    l.len() == jsonVals@.len(),
                    forall|k: int| 0 <= k < jsonVals@.len() ==> #[trigger] l[k] == json_view(jsonVals@[k]),
                    forall|k: int| 0 <= k < l.len() ==> json_readable(#[trigger] l[k]),
                    i <= jsonVals@.len(),
                    crate::selection::issue_views(r@) == issues_from(l.take(i as int)),
                decreases jsonVals@.len() - i,
            {
                assert(l.take(i + 1).drop_last() =~= l.take(i as int));
                assert(l.take(i + 1).last() == jsonVals@[i as int]@);
                assert(json_readable(l[i as int]));
                match Issue::fromJson(&jsonVals[i]) {
                    Some(issue) => {
                        let ghost prev = crate::selection::issue_views(r@);
                        r.push(issue);
                        assert(crate::selection::issue_views(r@) =~= prev.push(issue@));
                    },
                    None => {},
                }
                i = i + 1;
            }
            assert(l.take(jsonVals@.len() as int) =~= l);
            r
        },
        _ => {
            let r: Vec<Issue> = Vec::new();
            assert(crate::selection::issue_views(r@) =~= Seq::<IssueView>::empty());
            r
        },
    }
}

/// The issues as stored, in order.
pub open spec fn issues_json(s: Seq<Issue>) -> Seq<JsonView> {
    s.map_values(|i: Issue| issue_json(i@))
}

/// Whether an issue can be sorted and written.
pub open spec fn writable(i: Issue) -> bool {
    &&& 0 <= i.creationTime.tm_nsec < 1_000_000_000
    &&& issue_printable(i@)
}

/// The JSON written for a list of issues: the issues ordered by creation
/// time (see `sortByTime`; in time order unless two share an id but not a
/// creation time), each as
/// stored.
pub fn issueListJson(issues: Vec<Issue>) -> (r: Json)
    requires
        forall|i: int| 0 <= i < issues@.len() ==> writable(#[trigger] issues@[i]),
    ensures
        exists|s: Seq<Issue>| #[trigger] s.to_multiset() == issues@.to_multiset()
            && r@ == JsonView::List(issues_json(s))
            && (shared_ids_share_time(issues@) ==> time_ordered(s, issues@)),
{
    let ghost orig = issues@;
    let sortedIssues = sortByTime(issues);
    let ghost s = sortedIssues@;
    proof {
        broadcast use vstd::seq_lib::group_to_multiset_ensures;
        assert forall|k: int| 0 <= k < s.len() implies writable(#[trigger] s[k]) by {
            assert(s.contains(s[k]));
            assert(s.to_multiset().count(s[k]) > 0);
            assert(orig.to_multiset().count(s[k]) > 0);
            assert(orig.contains(s[k]));
        }
    }
    let mut jsonList: Vec<Json> = Vec::new();
    let mut k: usize = 0;
    while k < sortedIssues.len()
        invariant
            s == sortedIssues@,
            k <= s.len(),
            forall|j: int| 0 <= j < s.len() ==> writable(#[trigger] s[j]),
            list_view(jsonList@) == s.take(k as int).map_values(|i: Issue| issue_json(i@)),
        decreases s.len() - k,
    {
        assert(writable(s[k as int]));
        let j = sortedIssues[k].getJson();
        let ghost prev = jsonList@;
        jsonList.push(j);
        k = k + 1;
        proof {
            lemma_list_view(jsonList@);
            lemma_list_view(prev);
            assert(list_view(jsonList@) =~= list_view(prev).push(j@));
            assert(s.take(k as int).map_values(|i: Issue| issue_json(i@)) =~= s.take(k - 1).map_values(|i: Issue| issue_json(i@)).push(issue_json(s[k - 1]@)));
        }
    }
    assert(s.take(s.len() as int) =~= s);
    assert(list_view(jsonList@) == issues_json(s));
    Json::List(jsonList)
}

} // verus!
