//! Ordering issues by the time they were created.
use vstd::prelude::*;
use crate::clock::{self, Timespec, stamp_of};
use crate::issue::Issue;
use crate::order::{select_sort, zip_keys, keys_ordered, tag_views, tags_consistent};

verus! {

/// Issues that share an id share their creation time too, and it is in
/// UTC: so they get one stamp.
pub open spec fn shared_ids_share_time(issues: Seq<Issue>) -> bool {
    forall|a: int, b: int| 0 <= a < b < issues.len() && (#[trigger] issues[a]).id@ == (#[trigger] issues[b]).id@
        ==> issues[a].creationTime == issues[b].creationTime && issues[a].creationTime.tm_utcoff == 0
}

/// `r` holds `issues` ordered by the time crate's stamps `ks` of their
/// creation times (one per issue, see `stamp_of`): paired with the stamps
/// `sk`, which are in order, `r` holds the same issue-stamp pairs.
pub open spec fn time_ordered(r: Seq<Issue>, issues: Seq<Issue>) -> bool {
    exists|ks: Seq<Timespec>, sk: Seq<Timespec>|
        ks.len() == issues.len() && (forall|i: int| 0 <= i < ks.len() ==> stamp_of(issues[i].creationTime, #[trigger] ks[i]))
        && #[trigger] keys_ordered(sk) && sk.len() == r.len()
        && zip_keys(r, sk).to_multiset() == #[trigger] zip_keys(issues, ks).to_multiset()
}

/// The issues ordered by creation time: repeatedly the earliest remaining
/// issue is found, the first issue with its id is taken out, and the last
/// remaining issue moves into its place. The result holds the same issues;
/// it is ordered by the time crate's stamps of the creation times (see
/// `time_ordered`) unless two issues share an id but not a creation time
/// (then the issue taken out need not be the earliest).
pub fn sortByTime(issues: Vec<Issue>) -> (r: Vec<Issue>)
    requires
        forall|i: int| 0 <= i < issues@.len() ==> 0 <= (#[trigger] issues@[i]).creationTime.tm_nsec < 1_000_000_000,
    ensures
        r@.to_multiset() == issues@.to_multiset(),
        shared_ids_share_time(issues@) ==> time_ordered(r@, issues@),
{
    let mut keys: Vec<Timespec> = Vec::new();
    let mut tags: Vec<Vec<String>> = Vec::new();
    let mut i: usize = 0;
    while i < issues.len()
        invariant
            i <= issues@.len(),
            keys@.len() == i,
            tags@.len() == i,
            forall|k: int| 0 <= k < issues@.len() ==> 0 <= (#[trigger] issues@[k]).creationTime.tm_nsec < 1_000_000_000,
            forall|k: int| 0 <= k < i ==> stamp_of(issues@[k].creationTime, #[trigger] keys@[k]),
            forall|k: int| 0 <= k < i ==> #[trigger] tag_views(tags@)[k] == seq![issues@[k].id@],
        decreases issues@.len() - i,
    {
        keys.push(clock::to_timespec(&issues[i].creationTime));
        let t = vec![issues[i].id.clone()];
        assert(crate::text::views(t@) =~= seq![issues@[i as int].id@]);
        let ghost old_tags = tags@;
        tags.push(t);
        assert(tag_views(tags@) =~= tag_views(old_tags).push(seq![issues@[i as int].id@]));
        i = i + 1;
    }
    let ghost ks = keys@;
    let ghost orig = issues@;
    proof {
        if shared_ids_share_time(orig) {
            let tv = tag_views(tags@);
            assert forall|a: int, b: int| 0 <= a < ks.len() && 0 <= b < ks.len() && #[trigger] tv[a] == #[trigger] tv[b]
                implies ks[a] == ks[b] by {
                assert(tv[a] == seq![orig[a].id@]);
                assert(tv[b] == seq![orig[b].id@]);
                assert(tv[a][0] == orig[a].id@);
                assert(tv[b][0] == orig[b].id@);
                assert(stamp_of(orig[a].creationTime, ks[a]));
                assert(stamp_of(orig[b].creationTime, ks[b]));
                if a < b {
                    assert(orig[a].creationTime == orig[b].creationTime);
                } else if b < a {
                    assert(orig[b].creationTime == orig[a].creationTime);
                }
            }
            assert(tags_consistent(ks, tv));
        }
    }
    let r = select_sort(issues, keys, tags);
    proof {
        if shared_ids_share_time(orig) {
            let sk = choose|sk: Seq<Timespec>| #[trigger] keys_ordered(sk)
                && sk.len() == r@.len() && zip_keys(r@, sk).to_multiset() == zip_keys(orig, ks).to_multiset();
            assert(keys_ordered(sk));
            assert(forall|i: int| 0 <= i < ks.len() ==> stamp_of(orig[i].creationTime, #[trigger] ks[i]));
            assert(time_ordered(r@, orig));
        }
    }
    r
}

} // verus!
