//! Ordering the events of a timeline by their time stamps, and removing
//! repeated neighbours.
use vstd::prelude::*;
use crate::clock::{Timespec, ts_lt, timespec_lt};
use crate::evict::issue::{IssueTimelineEvent, EventView};

verus! {

/// The views of a list of events.
pub open spec fn event_views(s: Seq<IssueTimelineEvent>) -> Seq<EventView> {
    s.map_values(|e: IssueTimelineEvent| e@)
}

/// Equal events carry equal stamps.
pub open spec fn consistent_keys(events: Seq<IssueTimelineEvent>, keys: Seq<Timespec>) -> bool {
    forall|i: int, j: int|
        0 <= i < events.len() && 0 <= j < events.len() && #[trigger] events[i]@ == #[trigger] events[j]@
            ==> keys[i] == keys[j]
}

/// The stamp of event `v`: that of an event of `events` equal to it.
pub open spec fn key_of(events: Seq<IssueTimelineEvent>, keys: Seq<Timespec>, v: EventView) -> Timespec {
    keys[choose|j: int| 0 <= j < events.len() && events[j]@ == v]
}

/// `r` lists events in the order of their stamps.
pub open spec fn in_key_order(r: Seq<EventView>, events: Seq<IssueTimelineEvent>, keys: Seq<Timespec>) -> bool {
    forall|i: int, k: int| 0 <= i < k < r.len() ==> !ts_lt(#[trigger] key_of(events, keys, r[k]), #[trigger] key_of(events, keys, r[i]))
}

/// No two neighbours of `r` are equal.
pub open spec fn no_adjacent_repeats(r: Seq<EventView>) -> bool {
    forall|i: int| 0 <= i < r.len() - 1 ==> #[trigger] r[i] != r[i + 1]
}

proof fn lemma_key_of(events: Seq<IssueTimelineEvent>, keys: Seq<Timespec>, j: int)
    requires
        consistent_keys(events, keys),
        0 <= j < events.len(),
        keys.len() == events.len(),
    ensures
        key_of(events, keys, events[j]@) == keys[j],
{
    let c = choose|c: int| 0 <= c < events.len() && events[c]@ == events[j]@;
    assert(events[c]@ == events[j]@);
}


proof fn lemma_move_contains(before: Seq<IssueTimelineEvent>, bm: Seq<IssueTimelineEvent>, pos: int)
    requires
        0 <= pos < before.len(),
    ensures
        forall|v: EventView| (event_views(bm).contains(v) || event_views(before).contains(v)) <==> (
            event_views(bm.push(before[pos])).contains(v) || event_views(before.update(pos, before.last()).drop_last()).contains(v)),
{
    let merged = bm.push(before[pos]);
    let rest = before.update(pos, before.last()).drop_last();
    assert forall|v: EventView| (event_views(bm).contains(v) || event_views(before).contains(v)) <==> (
        event_views(merged).contains(v) || event_views(rest).contains(v)) by {
        if event_views(before).contains(v) {
            let w = choose|w: int| 0 <= w < before.len() && event_views(before)[w] == v;
            if w == pos {
                assert(event_views(merged)[bm.len() as int] == v);
            } else if w == before.len() - 1 {
                assert(event_views(rest)[pos] == v);
            } else {
                assert(event_views(rest)[w] == v);
            }
        }
        if event_views(bm).contains(v) {
            let w = choose|w: int| 0 <= w < bm.len() && event_views(bm)[w] == v;
            assert(event_views(merged)[w] == v);
        }
        if event_views(merged).contains(v) {
            let w = choose|w: int| 0 <= w < merged.len() && event_views(merged)[w] == v;
            if w < bm.len() {
                assert(event_views(bm)[w] == v);
            } else {
                assert(event_views(before)[pos] == v);
            }
        }
        if event_views(rest).contains(v) {
            let w = choose|w: int| 0 <= w < rest.len() && event_views(rest)[w] == v;
            if w == pos {
                assert(event_views(before)[before.len() - 1] == v);
            } else {
                assert(event_views(before)[w] == v);
            }
        }
    }
}

proof fn lemma_move_sources(
    orig: Seq<IssueTimelineEvent>,
    okeys: Seq<Timespec>,
    before: Seq<IssueTimelineEvent>,
    before_keys: Seq<Timespec>,
    pos: int,
)
    requires
        0 <= pos < before.len(),
        before_keys.len() == before.len(),
        forall|t: int| 0 <= t < before.len() ==> exists|j: int| 0 <= j < orig.len() && orig[j]@ == (#[trigger] before[t])@
            && okeys[j] == before_keys[t],
    ensures
        ({
            let rest = before.update(pos, before.last()).drop_last();
            let rk = before_keys.update(pos, before_keys.last()).drop_last();
            forall|t: int| 0 <= t < rest.len() ==> exists|j: int| 0 <= j < orig.len() && orig[j]@ == (#[trigger] rest[t])@
                && okeys[j] == rk[t]
        }),
{
    let rest = before.update(pos, before.last()).drop_last();
    let rk = before_keys.update(pos, before_keys.last()).drop_last();
    assert forall|t: int| 0 <= t < rest.len() implies exists|j: int| 0 <= j < orig.len() && orig[j]@ == (#[trigger] rest[t])@
        && okeys[j] == rk[t] by {
        if t == pos {
            assert(rest[t] == before[before.len() - 1]);
            assert(rk[t] == before_keys[before.len() - 1]);
        } else {
            assert(rest[t] == before[t]);
            assert(rk[t] == before_keys[t]);
        }
    }
}

proof fn lemma_move_order(
    orig: Seq<IssueTimelineEvent>,
    okeys: Seq<Timespec>,
    before: Seq<IssueTimelineEvent>,
    before_keys: Seq<Timespec>,
    bm: Seq<IssueTimelineEvent>,
    pos: int,
    m: int,
)
    requires
        consistent_keys(orig, okeys),
        okeys.len() == orig.len(),
        0 <= pos <= m < before.len(),
        before_keys.len() == before.len(),
        before[pos]@ == before[m]@,
        forall|u: int| 0 <= u < before.len() ==> !ts_lt(#[trigger] before_keys[u], before_keys[m]),
        forall|t: int| 0 <= t < before.len() ==> exists|j: int| 0 <= j < orig.len() && orig[j]@ == (#[trigger] before[t])@
            && okeys[j] == before_keys[t],
        in_key_order(event_views(bm), orig, okeys),
        forall|i: int, t: int| 0 <= i < bm.len() && 0 <= t < before.len()
            ==> !ts_lt(#[trigger] key_of(orig, okeys, before[t]@), #[trigger] key_of(orig, okeys, bm[i]@)),
    ensures
        ({
            let merged = bm.push(before[pos]);
            let rest = before.update(pos, before.last()).drop_last();
            &&& in_key_order(event_views(merged), orig, okeys)
            &&& forall|i: int, t: int| 0 <= i < merged.len() && 0 <= t < rest.len()
                ==> !ts_lt(#[trigger] key_of(orig, okeys, rest[t]@), #[trigger] key_of(orig, okeys, merged[i]@))
        }),
{
    let merged = bm.push(before[pos]);
    let rest = before.update(pos, before.last()).drop_last();
    assert forall|u: int| 0 <= u < before.len() implies key_of(orig, okeys, #[trigger] before[u]@) == before_keys[u] by {
        let ju = choose|j: int| 0 <= j < orig.len() && orig[j]@ == before[u]@ && okeys[j] == before_keys[u];
        lemma_key_of(orig, okeys, ju);
    }
    assert(key_of(orig, okeys, before[pos]@) == before_keys[m]);
    assert forall|i: int, k: int| 0 <= i < k < merged.len() implies !ts_lt(#[trigger] key_of(orig, okeys, event_views(merged)[k]), #[trigger] key_of(orig, okeys, event_views(merged)[i])) by {
        if k == merged.len() - 1 {
            assert(event_views(merged)[k] == before[pos]@);
            assert(event_views(merged)[i] == bm[i]@);
        } else {
            assert(event_views(merged)[k] == event_views(bm)[k]);
            assert(event_views(merged)[i] == event_views(bm)[i]);
        }
    }
    assert forall|i: int, t: int| 0 <= i < merged.len() && 0 <= t < rest.len() implies !ts_lt(#[trigger] key_of(orig, okeys, rest[t]@), #[trigger] key_of(orig, okeys, merged[i]@)) by {
        let u = if t == pos { before.len() - 1 } else { t };
        assert(rest[t] == before[u]);
        if i == merged.len() - 1 {
            assert(merged[i] == before[pos]);
            assert(!ts_lt(before_keys[u], before_keys[m]));
        } else {
            assert(merged[i] == bm[i]);
        }
    }
}

/// The events of `joined` from the earliest stamp to the latest (`keys[i]`
/// is the stamp of `joined[i]`), taking each time the first earliest one
/// and removing the first event equal to it by moving the last event into
/// its place.
#[verifier::rlimit(40)]
fn order_by_keys(joined: Vec<IssueTimelineEvent>, keys: Vec<Timespec>) -> (r: Vec<IssueTimelineEvent>)
    requires
        keys@.len() == joined@.len(),
    ensures
        forall|v: EventView| event_views(r@).contains(v) <==> event_views(joined@).contains(v),
        consistent_keys(joined@, keys@) ==> in_key_order(event_views(r@), joined@, keys@),
{
    let ghost orig = joined@;
    let ghost okeys = keys@;
    let ghost consistent = consistent_keys(orig, okeys);
    let mut rest = joined;
    let mut rkeys = keys;
    let mut merged: Vec<IssueTimelineEvent> = Vec::new();
    assert forall|t: int| 0 <= t < rest@.len() implies exists|j: int| 0 <= j < orig.len() && orig[j]@ == (#[trigger] rest@[t])@
        && okeys[j] == rkeys@[t] by {
        assert(orig[t]@ == rest@[t]@ && okeys[t] == rkeys@[t]);
    }
    assert forall|v: EventView| event_views(orig).contains(v) <==> (event_views(merged@).contains(v)
        || event_views(rest@).contains(v)) by {
        assert(event_views(orig) == event_views(rest@));
    }
    while rest.len() > 0
        invariant
            rkeys@.len() == rest@.len(),
            okeys.len() == orig.len(),
            consistent == consistent_keys(orig, okeys),
            forall|v: EventView| event_views(orig).contains(v) <==> (event_views(merged@).contains(v)
                || event_views(rest@).contains(v)),
            forall|t: int| 0 <= t < rest@.len() ==> exists|j: int| 0 <= j < orig.len() && orig[j]@ == (#[trigger] rest@[t])@
                && okeys[j] == rkeys@[t],
            consistent ==> in_key_order(event_views(merged@), orig, okeys),
            consistent ==> forall|i: int, t: int| 0 <= i < merged@.len() && 0 <= t < rest@.len()
                ==> !ts_lt(#[trigger] key_of(orig, okeys, rest@[t]@), #[trigger] key_of(orig, okeys, merged@[i]@)),
        decreases rest@.len(),
    {
        let mut m: usize = 0;
        let mut t: usize = 1;
        while t < rest.len()
            invariant
                rkeys@.len() == rest@.len(),
                m < t <= rest@.len(),
                forall|u: int| 0 <= u < t ==> !ts_lt(#[trigger] rkeys@[u], rkeys@[m as int]),
            decreases rest@.len() - t,
        {
            if timespec_lt(rkeys[t], rkeys[m]) {
                m = t;
            }
            t = t + 1;
        }
        let mut pos: usize = 0;
        while pos < m && !(rest[pos] == rest[m])
            invariant
                pos <= m < rest@.len(),
            decreases m - pos,
        {
            pos = pos + 1;
        }
        assert(rest@[pos as int]@ == rest@[m as int]@);
        let ghost before = rest@;
        let ghost before_keys = rkeys@;
        let ghost before_merged = merged@;
        let e = rest.swap_remove(pos);
        let _k = rkeys.swap_remove(pos);
        assert(rest@ =~= before.update(pos as int, before.last()).drop_last());
        merged.push(e);
        proof {
            assert(merged@ =~= before_merged.push(before[pos as int]));
            lemma_move_contains(before, before_merged, pos as int);
            lemma_move_sources(orig, okeys, before, before_keys, pos as int);
            assert(rkeys@ =~= before_keys.update(pos as int, before_keys.last()).drop_last());
            if consistent {
                lemma_move_order(orig, okeys, before, before_keys, before_merged, pos as int, m as int);
            }
        }
    }
    merged

}


/// The events of `joined` from the earliest stamp to the latest (`keys[i]`
/// is the stamp of `joined[i]`), taking each time the first earliest one
/// and removing the first event equal to it by moving the last event into
/// its place; then runs of equal neighbours shrink to one event.
pub fn merge_events_by_keys(joined: Vec<IssueTimelineEvent>, keys: Vec<Timespec>) -> (r: Vec<IssueTimelineEvent>)
    requires
        keys@.len() == joined@.len(),
    ensures
        forall|v: EventView| event_views(r@).contains(v) <==> event_views(joined@).contains(v),
        no_adjacent_repeats(event_views(r@)),
        consistent_keys(joined@, keys@) ==> in_key_order(event_views(r@), joined@, keys@),
{
    let ghost orig = joined@;
    let ghost okeys = keys@;
    let ghost consistent = consistent_keys(orig, okeys);
    let merged = order_by_keys(joined, keys);
    let ghost mv = event_views(merged@);
    let r = dedup_events(merged);
    proof {
        let f = choose|f: Seq<int>| #[trigger] embeds(event_views(r@), mv, f);
        if consistent {
            assert forall|i: int, k: int| 0 <= i < k < event_views(r@).len() implies !ts_lt(#[trigger] key_of(orig, okeys, event_views(r@)[k]), #[trigger] key_of(orig, okeys, event_views(r@)[i])) by {
                assert(f[i] < f[k]);
                assert(mv[f[k]] == event_views(r@)[k]);
                assert(mv[f[i]] == event_views(r@)[i]);
            }
        }
    }
    r
}


/// `r` is `s` with some elements left out: `f` maps each position of `r`
/// to the position of `s` it came from, in increasing order.
pub open spec fn embeds(r: Seq<EventView>, s: Seq<EventView>, f: Seq<int>) -> bool {
    &&& f.len() == r.len()
    &&& forall|p: int| 0 <= p < r.len() ==> 0 <= #[trigger] f[p] < s.len() && s[f[p]] == r[p]
    &&& forall|p: int, q: int| 0 <= p < q < r.len() ==> #[trigger] f[p] < #[trigger] f[q]
}

/// `s` with each run of equal neighbours shrunk to one element.
pub open spec fn dedup_spec(s: Seq<EventView>) -> Seq<EventView>
    decreases s.len(),
{
    if s.len() == 0 {
        Seq::empty()
    } else {
        let d = dedup_spec(s.drop_last());
        if d.len() > 0 && d.last() == s.last() {
            d
        } else {
            d.push(s.last())
        }
    }
}

/// `s` with each run of equal neighbours shrunk to its first event
/// (`Vec::dedup`).
pub fn dedup_events(s: Vec<IssueTimelineEvent>) -> (r: Vec<IssueTimelineEvent>)
    ensures
        event_views(r@) == dedup_spec(event_views(s@)),
        forall|v: EventView| event_views(r@).contains(v) <==> event_views(s@).contains(v),
        no_adjacent_repeats(event_views(r@)),
        exists|f: Seq<int>| #[trigger] embeds(event_views(r@), event_views(s@), f),
{
    let mut r: Vec<IssueTimelineEvent> = Vec::new();
    let mut i: usize = 0;
    let ghost mut f: Seq<int> = Seq::empty();
    while i < s.len()
        invariant
            i <= s@.len(),
            forall|v: EventView| event_views(r@).contains(v) <==> event_views(s@.take(i as int)).contains(v),
            no_adjacent_repeats(event_views(r@)),
            r@.len() > 0 ==> r@.last()@ == s@[i - 1]@,
            embeds(event_views(r@), event_views(s@), f),
            forall|p: int| 0 <= p < f.len() ==> #[trigger] f[p] < i,
            event_views(r@) == dedup_spec(event_views(s@).take(i as int)),
        decreases s@.len() - i,
    {
        let ghost before = r@;
        proof {
            let ev = event_views(s@);
            assert(ev.take(i + 1).drop_last() =~= ev.take(i as int));
            assert(ev.take(i + 1).last() == s@[i as int]@);
        }
        let keep = r.len() == 0 || !(r[r.len() - 1] == s[i]);
        if keep {
            r.push(s[i].clone());
            proof {
                f = f.push(i as int);
            }
        }
        proof {
            let ti = s@.take(i + 1);
            let t0 = s@.take(i as int);
            assert(ti =~= t0.push(s@[i as int]));
            assert forall|v: EventView| event_views(r@).contains(v) <==> event_views(ti).contains(v) by {
                if event_views(ti).contains(v) {
                    let w = choose|w: int| 0 <= w < ti.len() && event_views(ti)[w] == v;
                    if w < i {
                        assert(event_views(t0)[w] == v);
                        assert(event_views(t0).contains(v));
                        assert(event_views(before).contains(v));
                        let x = choose|x: int| 0 <= x < before.len() && event_views(before)[x] == v;
                        assert(event_views(r@)[x] == v);
                    } else {
                        assert(event_views(r@)[r@.len() - 1] == v);
                    }
                }
                if event_views(r@).contains(v) {
                    let x = choose|x: int| 0 <= x < r@.len() && event_views(r@)[x] == v;
                    if x < before.len() {
                        assert(event_views(before)[x] == v);
                        assert(event_views(before).contains(v));
                        assert(event_views(t0).contains(v));
                        let w = choose|w: int| 0 <= w < t0.len() && event_views(t0)[w] == v;
                        assert(event_views(ti)[w] == v);
                    } else {
                        assert(event_views(ti)[i as int] == v);
                    }
                }
            }
            assert forall|q: int| 0 <= q < r@.len() - 1 implies #[trigger] event_views(r@)[q] != event_views(r@)[q + 1] by {
                if q + 1 < before.len() {
                    assert(event_views(r@)[q] == event_views(before)[q]);
                    assert(event_views(r@)[q + 1] == event_views(before)[q + 1]);
                }
            }
            assert forall|p: int| 0 <= p < r@.len() implies 0 <= #[trigger] f[p] < event_views(s@).len() && event_views(s@)[f[p]] == event_views(r@)[p] by {
                if p < before.len() {
                    assert(event_views(r@)[p] == event_views(before)[p]);
                }
            }
        }
        proof {
            if keep {
                assert(event_views(r@) =~= event_views(before).push(s@[i as int]@));
            } else {
                assert(event_views(r@) =~= event_views(before));
            }
        }
        i = i + 1;
    }
    assert(s@.take(s@.len() as int) =~= s@);
    assert(event_views(s@).take(s@.len() as int) =~= event_views(s@));
    r
}

} // verus!
