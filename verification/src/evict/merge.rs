//! Merging the issues of two branches: issues with the same id become one
//! issue whose timeline holds the events of both.
use vstd::prelude::*;
use crate::clock::{self, Timespec, ts_lt, timespec_lt, stamp_of};
use crate::evict::issue::{Issue, IssueView, IssueTimelineEvent, IssueStatus, EventView};
use crate::evict::selection::issue_views;
use crate::text::str_eq;
use crate::evict::event_order::{event_views, no_adjacent_repeats, merge_events_by_keys, consistent_keys, in_key_order};

verus! {

/// Whether every time stamp among `events` has its nanoseconds below one second.
pub open spec fn event_stamps_in_range(events: Seq<IssueTimelineEvent>) -> bool {
    forall|k: int| 0 <= k < events.len() ==> 0 <= (#[trigger] events[k]).time_spec().tm_nsec < 1_000_000_000
}

/// The events of both timelines in time order, each distinct event once
/// per run: the time crate's stamps of their times order them (`ks`, one
/// stamp per event of both timelines, see `stamp_of`). Where equal events
/// got equal stamps, which is so when every time is in UTC, the result is
/// in the order of those stamps.
pub fn merge_events(incoming: Vec<IssueTimelineEvent>, merge_into: Vec<IssueTimelineEvent>) -> (r: Vec<IssueTimelineEvent>)
    requires
        event_stamps_in_range(incoming@),
        event_stamps_in_range(merge_into@),
    ensures
        forall|v: EventView| event_views(r@).contains(v) <==> (event_views(incoming@).contains(v)
            || event_views(merge_into@).contains(v)),
        no_adjacent_repeats(event_views(r@)),
        exists|ks: Seq<Timespec>| #[trigger] ks.len() == (incoming@ + merge_into@).len()
            && (forall|i: int| 0 <= i < ks.len() ==> stamp_of((incoming@ + merge_into@)[i].time_spec(), #[trigger] ks[i]))
            && ((forall|i: int| 0 <= i < ks.len() ==> (#[trigger] (incoming@ + merge_into@)[i]).time_spec().tm_utcoff == 0)
                ==> consistent_keys(incoming@ + merge_into@, ks))
            && (consistent_keys(incoming@ + merge_into@, ks) ==> in_key_order(event_views(r@), incoming@ + merge_into@, ks)),
{
    let ghost a = incoming@;
    let ghost b = merge_into@;
    let mut joined = incoming;
    let mut tail = merge_into;
    joined.append(&mut tail);
    assert(joined@ =~= a + b);
    let mut keys: Vec<Timespec> = Vec::new();
    let mut i: usize = 0;
    while i < joined.len()
        invariant
            joined@ == a + b,
            event_stamps_in_range(a),
            event_stamps_in_range(b),
            i <= joined@.len(),
            keys@.len() == i,
            forall|k: int| 0 <= k < i ==> stamp_of(joined@[k].time_spec(), #[trigger] keys@[k]),
        decreases joined@.len() - i,
    {
        proof {
            if i < a.len() {
                assert(joined@[i as int] == a[i as int]);
            } else {
                assert(joined@[i as int] == b[i - a.len()]);
            }
        }
        keys.push(clock::to_timespec(joined[i].time()));
        i = i + 1;
    }
    let ghost ks = keys@;
    let r = merge_events_by_keys(joined, keys);
    assert(ks.len() == (a + b).len());
    assert(forall|i: int| 0 <= i < ks.len() ==> stamp_of((a + b)[i].time_spec(), #[trigger] ks[i]));
    proof {
        if forall|i: int| 0 <= i < ks.len() ==> (#[trigger] (a + b)[i]).time_spec().tm_utcoff == 0 {
            let j = a + b;
            assert forall|x: int, y: int| 0 <= x < j.len() && 0 <= y < j.len() && #[trigger] j[x]@ == #[trigger] j[y]@
                implies ks[x] == ks[y] by {
                assert(j[x].time_spec() == j[y].time_spec());
                assert(stamp_of(j[x].time_spec(), ks[x]));
                assert(stamp_of(j[y].time_spec(), ks[y]));
            }
            assert(consistent_keys(j, ks));
        }
        assert forall|v: EventView| event_views(a + b).contains(v) <==> (event_views(a).contains(v)
            || event_views(b).contains(v)) by {
            if event_views(a + b).contains(v) {
                let w = choose|w: int| 0 <= w < (a + b).len() && event_views(a + b)[w] == v;
                if w < a.len() {
                    assert(event_views(a)[w] == v);
                } else {
                    assert(event_views(b)[w - a.len()] == v);
                }
            }
            if event_views(a).contains(v) {
                let w = choose|w: int| 0 <= w < a.len() && event_views(a)[w] == v;
                assert(event_views(a + b)[w] == v);
            }
            if event_views(b).contains(v) {
                let w = choose|w: int| 0 <= w < b.len() && event_views(b)[w] == v;
                assert(event_views(a + b)[w + a.len()] == v);
            }
        }
    }
    r
}

/// Whether every time stamp on the issue has its nanoseconds below one second.
pub open spec fn issue_stamps_in_range(i: IssueView) -> bool {
    &&& 0 <= i.status.last_change_time.0.tm_nsec < 1_000_000_000
    &&& event_stamps_in_range(i.events)
}

/// The issue that two versions of one issue merge into: the incoming
/// version's title, author, body and other base data; the events of both
/// versions; and the merged-into version's status (the choice compares
/// the incoming status's time with itself, so it never takes the incoming
/// status).
pub open spec fn merged_pair(r: IssueView, incoming: Option<IssueView>, merge_into: Option<IssueView>) -> bool {
    match (incoming, merge_into) {
        (Some(a), Some(b)) => {
            &&& r.base == a.base
            &&& r.status == b.status
            &&& forall|v: EventView| event_views(r.events).contains(v) <==> (event_views(a.events).contains(v)
                || event_views(b.events).contains(v))
            &&& no_adjacent_repeats(event_views(r.events))
        },
        (Some(a), None) => r == a,
        (None, Some(b)) => r == b,
        (None, None) => false,
    }
}

/// Merges two versions of one issue (either may be missing, not both).
pub fn merge_pair(issues: (Option<Issue>, Option<Issue>)) -> (r: Issue)
    requires
        issues.0 is Some || issues.1 is Some,
        issues.0 matches Some(a) ==> issue_stamps_in_range(a@),
        issues.1 matches Some(b) ==> issue_stamps_in_range(b@),
    ensures
        merged_pair(r@, match issues.0 { Some(a) => Some(a@), None => None }, match issues.1 { Some(b) => Some(b@), None => None }),
{
    let (incoming_opt, merge_into_opt) = issues;
    match (incoming_opt, merge_into_opt) {
        (Some(incoming), Some(merge_into)) => {
            let new_events = merge_events(incoming.events.clone(), merge_into.events.clone());
            let incoming_time = clock::to_timespec(&incoming.status.last_change_time.0);
            let status = if timespec_lt(incoming_time, incoming_time) {
                incoming.status.clone()
            } else {
                merge_into.status.clone()
            };
            Issue { events: new_events, status, base: incoming.base }
        },
        (Some(incoming), None) => incoming,
        (None, Some(merge_into)) => merge_into,
        (None, None) => vstd::pervasive::unreached(),
    }
}

/// The last issue of `v` with the id `id`.
pub open spec fn last_with_id(v: Seq<IssueView>, id: Seq<char>) -> Option<IssueView>
    decreases v.len(),
{
    if v.len() == 0 {
        None
    } else if v.last().base.id@ == id {
        Some(v.last())
    } else {
        last_with_id(v.drop_last(), id)
    }
}

/// The id of a pair of versions.
pub open spec fn pair_id(p: (Option<Issue>, Option<Issue>)) -> Seq<char> {
    match p.0 {
        Some(a) => a.base.id@,
        None => match p.1 {
            Some(b) => b.base.id@,
            None => Seq::empty(),
        },
    }
}

/// The views of a pair of versions.
pub open spec fn pair_view(p: (Option<Issue>, Option<Issue>)) -> (Option<IssueView>, Option<IssueView>) {
    (match p.0 { Some(a) => Some(a@), None => None }, match p.1 { Some(b) => Some(b@), None => None })
}

/// `pairs` holds, once per id that occurs in `a` or `b`, the last version
/// of that id in each.
pub open spec fn pairs_by_id(pairs: Seq<(Option<Issue>, Option<Issue>)>, a: Seq<IssueView>, b: Seq<IssueView>) -> bool {
    &&& forall|i: int, j: int| 0 <= i < j < pairs.len() ==> pair_id(#[trigger] pairs[i]) != pair_id(#[trigger] pairs[j])
    &&& forall|i: int| 0 <= i < pairs.len() ==> pair_view(#[trigger] pairs[i]) == (last_with_id(a, pair_id(pairs[i])), last_with_id(b, pair_id(pairs[i])))
    &&& forall|i: int| 0 <= i < pairs.len() ==> (#[trigger] pairs[i]).0 is Some || pairs[i].1 is Some
    &&& forall|id: Seq<char>| (last_with_id(a, id) is Some || last_with_id(b, id) is Some) ==> exists|i: int| 0 <= i < pairs.len() && #[trigger] pair_id(pairs[i]) == id
}

proof fn lemma_last_with_id_push(v: Seq<IssueView>, x: IssueView, id: Seq<char>)
    ensures
        last_with_id(v.push(x), id) == (if x.base.id@ == id { Some(x) } else { last_with_id(v, id) }),
{
    assert(v.push(x).drop_last() =~= v);
}

proof fn lemma_last_with_id_has_id(v: Seq<IssueView>, id: Seq<char>)
    ensures
        last_with_id(v, id) matches Some(x) ==> x.base.id@ == id,
    decreases v.len(),
{
    if v.len() > 0 {
        lemma_last_with_id_has_id(v.drop_last(), id);
    }
}

/// The index of the pair for the id `id`, if there is one.
fn find_pair(pairs: &Vec<(Option<Issue>, Option<Issue>)>, id: &str) -> (r: Option<usize>)
    ensures
        r matches Some(i) ==> i < pairs@.len() && pair_id(pairs@[i as int]) == id@,
        r is None ==> forall|i: int| 0 <= i < pairs@.len() ==> pair_id(#[trigger] pairs@[i]) != id@,
{
    let mut i: usize = 0;
    while i < pairs.len()
        invariant
            i <= pairs@.len(),
            forall|k: int| 0 <= k < i ==> pair_id(#[trigger] pairs@[k]) != id@,
        decreases pairs@.len() - i,
    {
        let same = match &pairs[i] {
            (Some(a), _) => str_eq(a.id(), id),
            (None, Some(b)) => str_eq(b.id(), id),
            (None, None) => id.unicode_len() == 0,
        };
        if same {
            return Some(i);
        }
        i = i + 1;
    }
    None
}


/// The pairs of versions by id: the incoming version and the merged-into
/// version of each id, the last one of each side where an id repeats.
pub fn pair_by_id(incoming: Vec<Issue>, merge_into: Vec<Issue>) -> (r: Vec<(Option<Issue>, Option<Issue>)>)
    ensures
        pairs_by_id(r@, issue_views(incoming@), issue_views(merge_into@)),
{
    let ghost a = issue_views(incoming@);
    let ghost b = issue_views(merge_into@);
    let mut pairs: Vec<(Option<Issue>, Option<Issue>)> = Vec::new();
    let mut rest = incoming;
    let mut i: usize = 0;
    let n = rest.len();
    assert(issue_views(rest@) =~= a.skip(0));
    while i < n
        invariant
            i <= n,
            n == a.len(),
            rest@.len() == n - i,
            issue_views(rest@) == a.skip(i as int),
            pairs_by_id(pairs@, a.take(i as int), Seq::empty()),
            forall|k: int| 0 <= k < pairs@.len() ==> (#[trigger] pairs@[k]).1 is None,
        decreases n - i,
    {
        assert(issue_views(rest@)[0] == rest@[0]@);
        let ghost before = rest@;
        let issue = rest.remove(0);
        assert(rest@ =~= before.drop_first());
        assert(a.skip(i as int).drop_first() =~= a.skip(i + 1));
        let ghost x = issue@;
        assert(x == a[i as int]);
        let ghost pa = pairs@;
        let ghost pre = a.take(i as int);
        assert(a.take(i + 1) =~= pre.push(x));
        proof {
            lemma_last_with_id_has_id(pre, x.base.id@);
        }
        let ghost mut at: int = 0;
        match find_pair(&pairs, issue.id()) {
            Some(k) => {
                pairs.set(k, (Some(issue), None));
                proof { at = k as int; }
            },
            None => {
                pairs.push((Some(issue), None));
                proof { at = pa.len() as int; }
            },
        }
        proof {
            let ps = pairs@;
            assert forall|id: Seq<char>| #[trigger] last_with_id(pre.push(x), id) == (if x.base.id@ == id { Some(x) } else { last_with_id(pre, id) }) by {
                lemma_last_with_id_push(pre, x, id);
            }
            assert forall|k: int| 0 <= k < ps.len() implies pair_view(#[trigger] ps[k]) == (last_with_id(pre.push(x), pair_id(ps[k])), last_with_id(Seq::<IssueView>::empty(), pair_id(ps[k]))) by {
                if k < pa.len() && pair_id(pa[k]) != x.base.id@ {
                    assert(ps[k] == pa[k]);
                }
            }
            assert forall|p: int, q: int| 0 <= p < q < ps.len() implies pair_id(#[trigger] ps[p]) != pair_id(#[trigger] ps[q]) by {
                if q < pa.len() {
                    if ps[p] != pa[p] {
                        assert(pair_id(pa[q]) != x.base.id@);
                    }
                    if ps[q] != pa[q] {
                        assert(pair_id(pa[p]) != x.base.id@);
                    }
                }
            }
            assert forall|id: Seq<char>| (last_with_id(pre.push(x), id) is Some || last_with_id(Seq::<IssueView>::empty(), id) is Some) implies exists|k: int| 0 <= k < ps.len() && #[trigger] pair_id(ps[k]) == id by {
                if id == x.base.id@ {
                    assert(pair_id(ps[at]) == id);
                } else {
                    assert(last_with_id(pre, id) is Some);
                    let k = choose|k: int| 0 <= k < pa.len() && #[trigger] pair_id(pa[k]) == id;
                    assert(ps[k] == pa[k]);
                }
            }
        }
        i = i + 1;
    }
    assert(a.take(n as int) =~= a);
    let mut rest = merge_into;
    let mut j: usize = 0;
    let m = rest.len();
    assert(issue_views(rest@) =~= b.skip(0));
    while j < m
        invariant
            j <= m,
            m == b.len(),
            rest@.len() == m - j,
            issue_views(rest@) == b.skip(j as int),
            pairs_by_id(pairs@, a, b.take(j as int)),
        decreases m - j,
    {
        assert(issue_views(rest@)[0] == rest@[0]@);
        let ghost before = rest@;
        let issue = rest.remove(0);
        assert(rest@ =~= before.drop_first());
        assert(b.skip(j as int).drop_first() =~= b.skip(j + 1));
        let ghost x = issue@;
        assert(x == b[j as int]);
        let ghost pa = pairs@;
        let ghost pre = b.take(j as int);
        assert(b.take(j + 1) =~= pre.push(x));
        proof {
            lemma_last_with_id_has_id(pre, x.base.id@);
            lemma_last_with_id_has_id(a, x.base.id@);
        }
        let ghost mut at: int = 0;
        match find_pair(&pairs, issue.id()) {
            Some(k) => {
                let (inc, _old) = pairs.remove(k);
                pairs.insert(k, (inc, Some(issue)));
                proof { at = k as int; }
            },
            None => {
                pairs.push((None, Some(issue)));
                proof { at = pa.len() as int; }
            },
        }
        proof {
            let ps = pairs@;
            assert forall|id: Seq<char>| #[trigger] last_with_id(pre.push(x), id) == (if x.base.id@ == id { Some(x) } else { last_with_id(pre, id) }) by {
                lemma_last_with_id_push(pre, x, id);
            }
            assert forall|k: int| 0 <= k < ps.len() implies pair_view(#[trigger] ps[k]) == (last_with_id(a, pair_id(ps[k])), last_with_id(pre.push(x), pair_id(ps[k]))) by {
                if k < pa.len() && pair_id(pa[k]) != x.base.id@ {
                    assert(ps[k] == pa[k]);
                } else if k < pa.len() {
                    assert(pair_id(ps[k]) == x.base.id@);
                    lemma_last_with_id_has_id(a, pair_id(pa[k]));
                } else {
                    assert(last_with_id(a, x.base.id@) is None) by {
                        if last_with_id(a, x.base.id@) is Some {
                            let q = choose|q: int| 0 <= q < pa.len() && #[trigger] pair_id(pa[q]) == x.base.id@;
                        }
                    }
                }
            }
            assert forall|p: int, q: int| 0 <= p < q < ps.len() implies pair_id(#[trigger] ps[p]) != pair_id(#[trigger] ps[q]) by {
                if q < pa.len() {
                    assert(pair_id(ps[p]) == pair_id(pa[p]));
                    assert(pair_id(ps[q]) == pair_id(pa[q]));
                }
            }
            assert forall|k: int| 0 <= k < ps.len() implies (#[trigger] ps[k]).0 is Some || ps[k].1 is Some by {
                if k < pa.len() && pair_id(pa[k]) != x.base.id@ {
                    assert(ps[k] == pa[k]);
                }
            }
            assert forall|id: Seq<char>| (last_with_id(a, id) is Some || last_with_id(pre.push(x), id) is Some) implies exists|k: int| 0 <= k < ps.len() && #[trigger] pair_id(ps[k]) == id by {
                if id == x.base.id@ {
                    assert(pair_id(ps[at]) == id);
                } else {
                    let k = choose|k: int| 0 <= k < pa.len() && #[trigger] pair_id(pa[k]) == id;
                    assert(pair_id(ps[k]) == pair_id(pa[k]));
                }
            }
        }
        j = j + 1;
    }
    assert(b.take(m as int) =~= b);
    pairs
}


/// `r` is the merge of issue lists `a` and `b`: one issue per id that
/// occurs in either list, made from the last version of that id on each side.
pub open spec fn merged_lists(r: Seq<IssueView>, a: Seq<IssueView>, b: Seq<IssueView>) -> bool {
    exists|ids: Seq<Seq<char>>| {
        &&& #[trigger] ids.len() == r.len()
        &&& forall|i: int, j: int| 0 <= i < j < ids.len() ==> ids[i] != ids[j]
        &&& forall|id: Seq<char>| (last_with_id(a, id) is Some || last_with_id(b, id) is Some) <==> ids.contains(id)
        &&& forall|k: int| 0 <= k < r.len() ==> r[k].base.id@ == ids[k] && merged_pair(
            #[trigger] r[k],
            last_with_id(a, ids[k]),
            last_with_id(b, ids[k]),
        )
    }
}

/// Merges the issues of two branches: one issue per id, made from the
/// incoming and the merged-into versions (see `merge_pair`).
pub fn merge_issues(incoming: Vec<Issue>, merge_into: Vec<Issue>) -> (r: Vec<Issue>)
    requires
        forall|i: int| 0 <= i < incoming@.len() ==> issue_stamps_in_range(#[trigger] incoming@[i]@),
        forall|i: int| 0 <= i < merge_into@.len() ==> issue_stamps_in_range(#[trigger] merge_into@[i]@),
    ensures
        merged_lists(issue_views(r@), issue_views(incoming@), issue_views(merge_into@)),
{
    let ghost a = issue_views(incoming@);
    let ghost b = issue_views(merge_into@);
    proof {
        assert forall|id: Seq<char>| #[trigger] last_in_range(a, id) by {
            lemma_last_in(a, id);
        }
        assert forall|id: Seq<char>| #[trigger] last_in_range(b, id) by {
            lemma_last_in(b, id);
        }
    }
    let mut pairs = pair_by_id(incoming, merge_into);
    let ghost ps = pairs@;
    let ghost ids = ps.map_values(|p: (Option<Issue>, Option<Issue>)| pair_id(p));
    let mut merged: Vec<Issue> = Vec::new();
    let mut k: usize = 0;
    let n = pairs.len();
    while k < n
        invariant
            k <= n,
            n == ps.len(),
            pairs@.len() == n - k,
            forall|t: int| 0 <= t < pairs@.len() ==> #[trigger] pairs@[t] == ps[t + k],
            pairs_by_id(ps, a, b),
            ids == ps.map_values(|p: (Option<Issue>, Option<Issue>)| pair_id(p)),
            forall|id: Seq<char>| #[trigger] last_in_range(a, id),
            forall|id: Seq<char>| #[trigger] last_in_range(b, id),
            merged@.len() == k,
            forall|t: int| 0 <= t < k ==> (#[trigger] merged@[t])@.base.id@ == ids[t] && merged_pair(merged@[t]@, last_with_id(a, ids[t]), last_with_id(b, ids[t])),
        decreases n - k,
    {
        let ghost before = pairs@;
        let p = pairs.remove(0);
        assert(p == ps[k as int]);
        assert(forall|t: int| 0 <= t < pairs@.len() ==> pairs@[t] == before[t + 1]);
        let ghost pv = pair_view(p);
        assert(pv == (last_with_id(a, ids[k as int]), last_with_id(b, ids[k as int])));
        proof {
            lemma_last_with_id_has_id(a, ids[k as int]);
            lemma_last_with_id_has_id(b, ids[k as int]);
            assert(last_in_range(a, ids[k as int]));
            assert(last_in_range(b, ids[k as int]));
        }
        let issue = merge_pair(p);
        merged.push(issue);
        k = k + 1;
    }
    proof {
        let r = issue_views(merged@);
        assert forall|id: Seq<char>| (last_with_id(a, id) is Some || last_with_id(b, id) is Some) <==> ids.contains(id) by {
            if ids.contains(id) {
                let t = choose|t: int| 0 <= t < ids.len() && ids[t] == id;
                assert(ps[t].0 is Some || ps[t].1 is Some);
                assert(pair_view(ps[t]) == (last_with_id(a, pair_id(ps[t])), last_with_id(b, pair_id(ps[t]))));
            }
            if last_with_id(a, id) is Some || last_with_id(b, id) is Some {
                let t = choose|t: int| 0 <= t < ps.len() && #[trigger] pair_id(ps[t]) == id;
                assert(ids[t] == id);
            }
        }
        assert forall|i: int, j: int| 0 <= i < j < ids.len() implies ids[i] != ids[j] by {
            assert(pair_id(ps[i]) != pair_id(ps[j]));
        }
        assert forall|t: int| 0 <= t < r.len() implies r[t].base.id@ == ids[t] && merged_pair(#[trigger] r[t], last_with_id(a, ids[t]), last_with_id(b, ids[t])) by {
            assert(r[t] == merged@[t]@);
        }
        assert(ids.len() == r.len());
    }
    merged
}

/// Whether the last issue of `v` with the id `id`, if any, has its time
/// stamps in range.
pub open spec fn last_in_range(v: Seq<IssueView>, id: Seq<char>) -> bool {
    last_with_id(v, id) matches Some(x) ==> issue_stamps_in_range(x)
}

proof fn lemma_last_in(v: Seq<IssueView>, id: Seq<char>)
    requires
        forall|i: int| 0 <= i < v.len() ==> issue_stamps_in_range(#[trigger] v[i]),
    ensures
        last_in_range(v, id),
    decreases v.len(),
{
    if v.len() > 0 {
        assert forall|i: int| 0 <= i < v.drop_last().len() implies issue_stamps_in_range(#[trigger] v.drop_last()[i]) by {
            assert(v.drop_last()[i] == v[i]);
        }
        lemma_last_in(v.drop_last(), id);
    }
}

} // verus!
