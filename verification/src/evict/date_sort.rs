//! Ordering issues, and the events of each issue, by time.
use vstd::prelude::*;
use crate::clock::{self, Timespec, stamp_of};
use crate::order::{sort_indices, stable_sort_order, is_permutation, as_ints};
use crate::evict::issue::{Issue, IssueView, IssueTimelineEvent};
use crate::evict::selection::issue_views;

verus! {

/// The elements of `s` in the order of the indices `p`.
pub open spec fn permuted<T>(s: Seq<T>, p: Seq<int>) -> Seq<T> {
    p.map_values(|j: int| s[j])
}

/// Issue `u` is issue `i` with its timeline reordered by `q`.
pub open spec fn reordered(u: IssueView, i: IssueView, q: Seq<int>) -> bool {
    &&& u.base == i.base
    &&& u.status == i.status
    &&& u.events == permuted(i.events, q)
}

/// The stable sort of `issues` by `issue_keys`, with each issue's timeline
/// stably sorted by its stamps in `event_keys`.
pub open spec fn sorted_by_keys(
    r: Seq<IssueView>,
    issues: Seq<IssueView>,
    issue_keys: Seq<Timespec>,
    event_keys: Seq<Seq<Timespec>>,
) -> bool {
    exists|p: Seq<int>| {
        &&& #[trigger] stable_sort_order(issue_keys, p)
        &&& r.len() == p.len()
        &&& forall|i: int| 0 <= i < r.len() ==> #[trigger] sorted_item(r[i], issues[p[i]], event_keys[p[i]])
    }
}

/// Issue `u` is issue `i` with its timeline stably sorted by `keys`.
pub open spec fn sorted_item(u: IssueView, i: IssueView, keys: Seq<Timespec>) -> bool {
    exists|q: Seq<int>| #[trigger] stable_sort_order(keys, q) && reordered(u, i, q)
}

/// Copies of `events` in the order of the indices `q`.
pub fn permute_events(events: &Vec<IssueTimelineEvent>, q: &Vec<usize>) -> (r: Vec<IssueTimelineEvent>)
    requires
        forall|i: int| 0 <= i < q@.len() ==> q@[i] < events@.len(),
    ensures
        r@ == permuted(events@, as_ints(q@)),
{
    let mut r: Vec<IssueTimelineEvent> = Vec::new();
    let mut i: usize = 0;
    while i < q.len()
        invariant
            i <= q@.len(),
            forall|k: int| 0 <= k < q@.len() ==> q@[k] < events@.len(),
            r@ == permuted(events@, as_ints(q@).take(i as int)),
        decreases q@.len() - i,
    {
        let e = events[q[i]].clone();
        r.push(e);
        i = i + 1;
        assert(r@ =~= permuted(events@, as_ints(q@).take(i as int)));
    }
    assert(as_ints(q@).take(q@.len() as int) =~= as_ints(q@));
    r
}

/// The issues stably sorted by `issue_keys` (one stamp per issue), each
/// issue's timeline stably sorted by its stamps in `event_keys`.
pub fn sort_by_keys(issues: &Vec<Issue>, issue_keys: &Vec<Timespec>, event_keys: &Vec<Vec<Timespec>>) -> (r: Vec<Issue>)
    requires
        issue_keys@.len() == issues@.len(),
        event_keys@.len() == issues@.len(),
        forall|i: int| 0 <= i < issues@.len() ==> (#[trigger] event_keys@[i])@.len() == issues@[i].events@.len(),
    ensures
        sorted_by_keys(issue_views(r@), issue_views(issues@), issue_keys@, event_keys@.map_values(|v: Vec<Timespec>| v@)),
{
    let p = sort_indices(issue_keys);
    let ghost pi = as_ints(p@);
    let ghost ek = event_keys@.map_values(|v: Vec<Timespec>| v@);
    let mut r: Vec<Issue> = Vec::new();
    let mut i: usize = 0;
    while i < p.len()
        invariant
            i <= p@.len(),
            pi == as_ints(p@),
            ek == event_keys@.map_values(|v: Vec<Timespec>| v@),
            stable_sort_order(issue_keys@, pi),
            issue_keys@.len() == issues@.len(),
            event_keys@.len() == issues@.len(),
            forall|k: int| 0 <= k < issues@.len() ==> (#[trigger] event_keys@[k])@.len() == issues@[k].events@.len(),
            r@.len() == i,
            forall|k: int| 0 <= k < i ==> #[trigger] sorted_item(issue_views(r@)[k], issue_views(issues@)[pi[k]], ek[pi[k]]),
        decreases p@.len() - i,
    {
        let j = p[i];
        assert(pi[i as int] == j as int);
        let source = &issues[j];
        let q = sort_indices(&event_keys[j]);
        assert(ek[j as int] == event_keys@[j as int]@);
        assert forall|k: int| 0 <= k < q@.len() implies q@[k] < source.events@.len() by {
            assert(as_ints(q@)[k] == q@[k] as int);
        }
        let events = permute_events(&source.events, &q);
        let issue = Issue { events, status: source.status.clone(), base: source.base.clone() };
        let ghost prev = r@;
        r.push(issue);
        proof {
            assert(issue_views(r@)[i as int] == r@[i as int]@);
            assert(reordered(issue_views(r@)[i as int], issue_views(issues@)[pi[i as int]], as_ints(q@)));
            assert(stable_sort_order(ek[pi[i as int]], as_ints(q@)));
            assert forall|k: int| 0 <= k < i + 1 implies #[trigger] sorted_item(issue_views(r@)[k], issue_views(issues@)[pi[k]], ek[pi[k]]) by {
                if k < i {
                    assert(r@[k] == prev[k]);
                    assert(issue_views(r@)[k] == issue_views(prev)[k]);
                    assert(sorted_item(issue_views(prev)[k], issue_views(issues@)[pi[k]], ek[pi[k]]));
                }
            }
        }
        i = i + 1;
    }
    assert(stable_sort_order(issue_keys@, pi));
    assert(sorted_by_keys(issue_views(r@), issue_views(issues@), issue_keys@, ek));
    r
}

/// Whether every time stamp on issue `i` has its nanoseconds below one second.
pub open spec fn stamps_in_range(i: Issue) -> bool {
    &&& 0 <= i.base.creation_time.0.tm_nsec < 1_000_000_000
    &&& forall|k: int| 0 <= k < i.events@.len() ==> 0 <= (#[trigger] i.events@[k]).time_spec().tm_nsec < 1_000_000_000
}

/// `ik` and `ek` are the time crate's stamps of the issues' creation times
/// and of their events' times (see `stamp_of`), one per issue and event.
pub open spec fn issue_stamps(issues: Seq<IssueView>, ik: Seq<Timespec>, ek: Seq<Seq<Timespec>>) -> bool {
    &&& ik.len() == issues.len()
    &&& ek.len() == issues.len()
    &&& forall|i: int| 0 <= i < issues.len() ==> stamp_of(issues[i].base.creation_time.0, #[trigger] ik[i])
    &&& forall|i: int| 0 <= i < issues.len() ==> (#[trigger] ek[i]).len() == issues[i].events.len()
    &&& forall|i: int, k: int| 0 <= i < issues.len() && 0 <= k < issues[i].events.len()
        ==> stamp_of(issues[i].events[k].time_spec(), #[trigger] ek[i][k])
}

/// The issues in order of creation, each issue's timeline in time order;
/// items with equal times keep their order. The order is that of the time
/// crate's stamps of the times (`issue_stamps`): for a time in UTC the
/// seconds of `timegm` on its fields, for another offset seconds that
/// depend on the machine's time zone.
pub fn sort_by_time(issues: Vec<Issue>) -> (r: Vec<Issue>)
    requires
        forall|i: int| 0 <= i < issues@.len() ==> stamps_in_range(#[trigger] issues@[i]),
    ensures
        exists|ik: Seq<Timespec>, ek: Seq<Seq<Timespec>>| #[trigger] sorted_by_keys(issue_views(r@), issue_views(issues@), ik, ek)
            && issue_stamps(issue_views(issues@), ik, ek),
{
    let mut issue_keys: Vec<Timespec> = Vec::new();
    let mut event_keys: Vec<Vec<Timespec>> = Vec::new();
    let mut i: usize = 0;
    while i < issues.len()
        invariant
            i <= issues@.len(),
            issue_keys@.len() == i,
            event_keys@.len() == i,
            forall|k: int| 0 <= k < issues@.len() ==> stamps_in_range(#[trigger] issues@[k]),
            forall|k: int| 0 <= k < i ==> (#[trigger] event_keys@[k])@.len() == issues@[k].events@.len(),
            forall|k: int| 0 <= k < i ==> stamp_of(issues@[k].base.creation_time.0, #[trigger] issue_keys@[k]),
            forall|k: int, e: int| 0 <= k < i && 0 <= e < issues@[k].events@.len()
                ==> stamp_of(issues@[k].events@[e].time_spec(), #[trigger] event_keys@[k]@[e]),
        decreases issues@.len() - i,
    {
        let issue = &issues[i];
        assert(stamps_in_range(issues@[i as int]));
        issue_keys.push(clock::to_timespec(&issue.base.creation_time.0));
        let mut ks: Vec<Timespec> = Vec::new();
        let mut e: usize = 0;
        while e < issue.events.len()
            invariant
                e <= issue.events@.len(),
                ks@.len() == e,
                stamps_in_range(*issue),
                forall|x: int| 0 <= x < e ==> stamp_of(issue.events@[x].time_spec(), #[trigger] ks@[x]),
            decreases issue.events@.len() - e,
        {
            assert(0 <= issue.events@[e as int].time_spec().tm_nsec < 1_000_000_000);
            ks.push(clock::to_timespec(issue.events[e].time()));
            e = e + 1;
        }
        event_keys.push(ks);
        i = i + 1;
    }
    let r = sort_by_keys(&issues, &issue_keys, &event_keys);
    let ghost ek = event_keys@.map_values(|v: Vec<Timespec>| v@);
    let ghost iv = issue_views(issues@);
    assert(forall|i: int| 0 <= i < issues@.len() ==> (#[trigger] ek[i]).len() == issues@[i].events@.len());
    assert forall|i: int| 0 <= i < iv.len() implies (#[trigger] ek[i]).len() == iv[i].events.len() by {
        assert(iv[i] == issues@[i]@);
    }
    assert forall|i: int| 0 <= i < iv.len() implies stamp_of(iv[i].base.creation_time.0, #[trigger] issue_keys@[i]) by {
        assert(iv[i] == issues@[i]@);
    }
    assert forall|i: int, k: int| 0 <= i < iv.len() && 0 <= k < iv[i].events.len()
        implies stamp_of(iv[i].events[k].time_spec(), #[trigger] ek[i][k]) by {
        assert(iv[i] == issues@[i]@);
        assert(ek[i] == event_keys@[i]@);
    }
    assert(issue_stamps(iv, issue_keys@, ek));
    r
}

} // verus!
