//! Merging the issues of two branches: issues with the same id become one
//! issue whose comments are those of both.
use vstd::prelude::*;
use crate::clock::{self, Timespec, stamp_of};
use crate::issue::{Issue, IssueView, IssueComment};
use crate::order::{select_sort, zip_keys, keys_ordered, tag_views, tags_consistent};
use crate::text::str_eq;

verus! {

/// Whether every comment of the issue has its nanoseconds below one second.
pub open spec fn comment_stamps_in_range(i: Issue) -> bool {
    forall|k: int| 0 <= k < i.comments@.len() ==> 0 <= (#[trigger] i.comments@[k]).creationTime.tm_nsec < 1_000_000_000
}

/// What tells two comments apart when they are ordered: author and text.
pub open spec fn comment_key(c: IssueComment) -> (Seq<char>, Seq<char>) {
    (c.author@, c.bodyText@)
}

/// Comments with the same author and text share their time too, and it is
/// in UTC: so they get one stamp.
pub open spec fn shared_keys_share_time(cs: Seq<IssueComment>) -> bool {
    forall|x: int, y: int| 0 <= x < y < cs.len() && comment_key(#[trigger] cs[x]) == comment_key(#[trigger] cs[y])
        ==> cs[x].creationTime == cs[y].creationTime && cs[x].creationTime.tm_utcoff == 0
}

/// The comments of both lists ordered by time: repeatedly the earliest
/// remaining comment is found, the first comment with its author and text
/// is taken out, and the last remaining comment moves into its place. The
/// result holds the comments of both lists; it is ordered by the time
/// crate's stamps of their times (`ks`, see `stamp_of`) unless two comments
/// share author and text but not a time.
pub fn mergeComments(incoming: Vec<IssueComment>, mergeInto: Vec<IssueComment>) -> (r: Vec<IssueComment>)
    requires
        forall|k: int| 0 <= k < incoming@.len() ==> 0 <= (#[trigger] incoming@[k]).creationTime.tm_nsec < 1_000_000_000,
        forall|k: int| 0 <= k < mergeInto@.len() ==> 0 <= (#[trigger] mergeInto@[k]).creationTime.tm_nsec < 1_000_000_000,
    ensures
        r@.to_multiset() == (incoming@ + mergeInto@).to_multiset(),
        shared_keys_share_time(incoming@ + mergeInto@) ==> exists|ks: Seq<Timespec>, sk: Seq<Timespec>|
            ks.len() == (incoming@ + mergeInto@).len()
            && (forall|i: int| 0 <= i < ks.len() ==> stamp_of((incoming@ + mergeInto@)[i].creationTime, #[trigger] ks[i]))
            && #[trigger] keys_ordered(sk) && sk.len() == r@.len()
            && zip_keys(r@, sk).to_multiset() == #[trigger] zip_keys(incoming@ + mergeInto@, ks).to_multiset(),
{
    let ghost a = incoming@;
    let ghost b = mergeInto@;
    let mut joined = incoming;
    let mut tail = mergeInto;
    joined.append(&mut tail);
    assert(joined@ =~= a + b);
    let mut keys: Vec<Timespec> = Vec::new();
    let mut tags: Vec<Vec<String>> = Vec::new();
    let mut i: usize = 0;
    while i < joined.len()
        invariant
            joined@ == a + b,
            forall|k: int| 0 <= k < a.len() ==> 0 <= (#[trigger] a[k]).creationTime.tm_nsec < 1_000_000_000,
            forall|k: int| 0 <= k < b.len() ==> 0 <= (#[trigger] b[k]).creationTime.tm_nsec < 1_000_000_000,
            i <= joined@.len(),
            keys@.len() == i,
            tags@.len() == i,
            forall|k: int| 0 <= k < i ==> stamp_of(joined@[k].creationTime, #[trigger] keys@[k]),
            forall|k: int| 0 <= k < i ==> #[trigger] tag_views(tags@)[k] == seq![joined@[k].author@, joined@[k].bodyText@],
        decreases joined@.len() - i,
    {
        proof {
            if i < a.len() {
                assert(joined@[i as int] == a[i as int]);
            } else {
                assert(joined@[i as int] == b[i - a.len()]);
            }
        }
        keys.push(clock::to_timespec(&joined[i].creationTime));
        let t = vec![joined[i].author.clone(), joined[i].bodyText.clone()];
        assert(crate::text::views(t@) =~= seq![joined@[i as int].author@, joined@[i as int].bodyText@]);
        let ghost old_tags = tags@;
        tags.push(t);
        assert(tag_views(tags@) =~= tag_views(old_tags).push(seq![joined@[i as int].author@, joined@[i as int].bodyText@]));
        i = i + 1;
    }
    let ghost ks = keys@;
    let ghost j = joined@;
    proof {
        if shared_keys_share_time(j) {
            let tv = tag_views(tags@);
            assert forall|x: int, y: int| 0 <= x < ks.len() && 0 <= y < ks.len() && #[trigger] tv[x] == #[trigger] tv[y]
                implies ks[x] == ks[y] by {
                assert(tv[x] == seq![j[x].author@, j[x].bodyText@]);
                assert(tv[y] == seq![j[y].author@, j[y].bodyText@]);
                assert(tv[x][0] == j[x].author@ && tv[x][1] == j[x].bodyText@);
                assert(tv[y][0] == j[y].author@ && tv[y][1] == j[y].bodyText@);
                assert(stamp_of(j[x].creationTime, ks[x]));
                assert(stamp_of(j[y].creationTime, ks[y]));
                if x < y {
                    assert(comment_key(j[x]) == comment_key(j[y]));
                } else if y < x {
                    assert(comment_key(j[y]) == comment_key(j[x]));
                }
            }
            assert(tags_consistent(ks, tv));
        }
    }
    let r = select_sort(joined, keys, tags);
    proof {
        if shared_keys_share_time(j) {
            let sk = choose|sk: Seq<Timespec>| #[trigger] keys_ordered(sk)
                && sk.len() == r@.len() && zip_keys(r@, sk).to_multiset() == zip_keys(j, ks).to_multiset();
            assert(keys_ordered(sk));
        }
    }
    r
}

/// The issue that two versions of one issue merge into: the incoming
/// version with the comments of both versions.
pub open spec fn merged_pair(r: Issue, incoming: Option<Issue>, merge_into: Option<Issue>) -> bool {
    match (incoming, merge_into) {
        (Some(a), Some(b)) => {
            &&& (IssueView { comments: a@.comments, ..r@ }) == a@
            &&& r.comments@.to_multiset() == (a.comments@ + b.comments@).to_multiset()
        },
        (Some(a), None) => r == a,
        (None, Some(b)) => r == b,
        (None, None) => false,
    }
}

/// Merges two versions of one issue (either may be missing, not both).
pub fn mergePair(issues: (Option<Issue>, Option<Issue>)) -> (r: Issue)
    requires
        issues.0 is Some || issues.1 is Some,
        issues.0 matches Some(a) ==> comment_stamps_in_range(a),
        issues.1 matches Some(b) ==> comment_stamps_in_range(b),
    ensures
        merged_pair(r, issues.0, issues.1),
{
    let (incomingOpt, mergeIntoOpt) = issues;
    match (incomingOpt, mergeIntoOpt) {
        (Some(incoming), Some(mergeInto)) => {
            let newComments = mergeComments(incoming.comments, mergeInto.comments);
            let r = Issue { comments: newComments, ..incoming };
            assert(r@.comments == crate::issue::comment_views(newComments@));
            r
        },
        (Some(incoming), None) => incoming,
        (None, Some(mergeInto)) => mergeInto,
        (None, None) => vstd::pervasive::unreached(),
    }
}

/// The last issue of `v` with the id `id`.
pub open spec fn last_with_id(v: Seq<Issue>, id: Seq<char>) -> Option<Issue>
    decreases v.len(),
{
    if v.len() == 0 {
        None
    } else if v.last().id@ == id {
        Some(v.last())
    } else {
        last_with_id(v.drop_last(), id)
    }
}

/// The id of a pair of versions.
pub open spec fn pair_id(p: (Option<Issue>, Option<Issue>)) -> Seq<char> {
    match p.0 {
        Some(a) => a.id@,
        None => match p.1 {
            Some(b) => b.id@,
            None => Seq::empty(),
        },
    }
}

/// The two versions of a pair.
pub open spec fn pair_view(p: (Option<Issue>, Option<Issue>)) -> (Option<Issue>, Option<Issue>) {
    (p.0, p.1)
}

/// `pairs` holds, once per id that occurs in `a` or `b`, the last version
/// of that id in each.
pub open spec fn pairs_by_id(pairs: Seq<(Option<Issue>, Option<Issue>)>, a: Seq<Issue>, b: Seq<Issue>) -> bool {
    &&& forall|i: int, j: int| 0 <= i < j < pairs.len() ==> pair_id(#[trigger] pairs[i]) != pair_id(#[trigger] pairs[j])
    &&& forall|i: int| 0 <= i < pairs.len() ==> pair_view(#[trigger] pairs[i]) == (last_with_id(a, pair_id(pairs[i])), last_with_id(b, pair_id(pairs[i])))
    &&& forall|i: int| 0 <= i < pairs.len() ==> (#[trigger] pairs[i]).0 is Some || pairs[i].1 is Some
    &&& forall|id: Seq<char>| (last_with_id(a, id) is Some || last_with_id(b, id) is Some) ==> exists|i: int| 0 <= i < pairs.len() && #[trigger] pair_id(pairs[i]) == id
}

proof fn lemma_last_with_id_push(v: Seq<Issue>, x: Issue, id: Seq<char>)
    ensures
        last_with_id(v.push(x), id) == (if x.id@ == id { Some(x) } else { last_with_id(v, id) }),
{
    assert(v.push(x).drop_last() =~= v);
}

proof fn lemma_last_with_id_has_id(v: Seq<Issue>, id: Seq<char>)
    ensures
        last_with_id(v, id) matches Some(x) ==> x.id@ == id,
    decreases v.len(),
{
    if v.len() > 0 {
        lemma_last_with_id_has_id(v.drop_last(), id);
    }
}

/// The index of the pair for the id `id`, if there is one.
fn find_pair(pairs: &Vec<(Option<Issue>, Option<Issue>)>, id: &str) -> (r: Option<usize>)
    ensures
        r matches Some(i) ==> i < pairs@.len() && pair_id(pairs@[i as int]) == id@,
        r is None ==> forall|i: int| 0 <= i < pairs@.len() ==> pair_id(#[trigger] pairs@[i]) != id@,
{
    let mut i: usize = 0;
    while i < pairs.len()
        invariant
            i <= pairs@.len(),
            forall|k: int| 0 <= k < i ==> pair_id(#[trigger] pairs@[k]) != id@,
        decreases pairs@.len() - i,
    {
        let same = match &pairs[i] {
            (Some(a), _) => str_eq(a.id.as_str(), id),
            (None, Some(b)) => str_eq(b.id.as_str(), id),
            (None, None) => id.unicode_len() == 0,
        };
        if same {
            return Some(i);
        }
        i = i + 1;
    }
    None
}


/// The pairs of versions by id: the incoming version and the merged-into
/// version of each id, the last one of each side where an id repeats.
pub fn pair_by_id(incoming: Vec<Issue>, merge_into: Vec<Issue>) -> (r: Vec<(Option<Issue>, Option<Issue>)>)
    ensures
        pairs_by_id(r@, incoming@, merge_into@),
{
    let ghost a = incoming@;
    let ghost b = merge_into@;
    let mut pairs: Vec<(Option<Issue>, Option<Issue>)> = Vec::new();
    let mut rest = incoming;
    let mut i: usize = 0;
    let n = rest.len();
    assert(rest@ =~= a.skip(0));
    while i < n
        invariant
            i <= n,
            n == a.len(),
            rest@.len() == n - i,
            rest@ == a.skip(i as int),
            pairs_by_id(pairs@, a.take(i as int), Seq::empty()),
            forall|k: int| 0 <= k < pairs@.len() ==> (#[trigger] pairs@[k]).1 is None,
        decreases n - i,
    {
        let ghost before = rest@;
        let issue = rest.remove(0);
        assert(rest@ =~= before.drop_first());
        assert(a.skip(i as int).drop_first() =~= a.skip(i + 1));
        let ghost x = issue;
        assert(x == a[i as int]);
        let ghost pa = pairs@;
        let ghost pre = a.take(i as int);
        assert(a.take(i + 1) =~= pre.push(x));
        proof {
            lemma_last_with_id_has_id(pre, x.id@);
        }
        let ghost mut at: int = 0;
        match find_pair(&pairs, issue.id.as_str()) {
            Some(k) => {
                pairs.set(k, (Some(issue), None));
                proof { at = k as int; }
            },
            None => {
                pairs.push((Some(issue), None));
                proof { at = pa.len() as int; }
            },
        }
        proof {
            let ps = pairs@;
            assert forall|id: Seq<char>| #[trigger] last_with_id(pre.push(x), id) == (if x.id@ == id { Some(x) } else { last_with_id(pre, id) }) by {
                lemma_last_with_id_push(pre, x, id);
            }
            assert forall|k: int| 0 <= k < ps.len() implies pair_view(#[trigger] ps[k]) == (last_with_id(pre.push(x), pair_id(ps[k])), last_with_id(Seq::<Issue>::empty(), pair_id(ps[k]))) by {
                if k < pa.len() && pair_id(pa[k]) != x.id@ {
                    assert(ps[k] == pa[k]);
                }
            }
            assert forall|p: int, q: int| 0 <= p < q < ps.len() implies pair_id(#[trigger] ps[p]) != pair_id(#[trigger] ps[q]) by {
                if q < pa.len() {
                    if ps[p] != pa[p] {
                        assert(pair_id(pa[q]) != x.id@);
                    }
                    if ps[q] != pa[q] {
                        assert(pair_id(pa[p]) != x.id@);
                    }
                }
            }
            assert forall|id: Seq<char>| (last_with_id(pre.push(x), id) is Some || last_with_id(Seq::<Issue>::empty(), id) is Some) implies exists|k: int| 0 <= k < ps.len() && #[trigger] pair_id(ps[k]) == id by {
                if id == x.id@ {
                    assert(pair_id(ps[at]) == id);
                } else {
                    assert(last_with_id(pre, id) is Some);
                    let k = choose|k: int| 0 <= k < pa.len() && #[trigger] pair_id(pa[k]) == id;
                    assert(ps[k] == pa[k]);
                }
            }
        }
        i = i + 1;
    }
    assert(a.take(n as int) =~= a);
    let mut rest = merge_into;
    let mut j: usize = 0;
    let m = rest.len();
    assert(rest@ =~= b.skip(0));
    while j < m
        invariant
            j <= m,
            m == b.len(),
            rest@.len() == m - j,
            rest@ == b.skip(j as int),
            pairs_by_id(pairs@, a, b.take(j as int)),
        decreases m - j,
    {
        let ghost before = rest@;
        let issue = rest.remove(0);
        assert(rest@ =~= before.drop_first());
        assert(b.skip(j as int).drop_first() =~= b.skip(j + 1));
        let ghost x = issue;
        assert(x == b[j as int]);
        let ghost pa = pairs@;
        let ghost pre = b.take(j as int);
        assert(b.take(j + 1) =~= pre.push(x));
        proof {
            lemma_last_with_id_has_id(pre, x.id@);
            lemma_last_with_id_has_id(a, x.id@);
        }
        let ghost mut at: int = 0;
        match find_pair(&pairs, issue.id.as_str()) {
            Some(k) => {
                let (inc, _old) = pairs.remove(k);
                pairs.insert(k, (inc, Some(issue)));
                proof { at = k as int; }
            },
            None => {
                pairs.push((None, Some(issue)));
                proof { at = pa.len() as int; }
            },
        }
        proof {
            let ps = pairs@;
            assert forall|id: Seq<char>| #[trigger] last_with_id(pre.push(x), id) == (if x.id@ == id { Some(x) } else { last_with_id(pre, id) }) by {
                lemma_last_with_id_push(pre, x, id);
            }
            assert forall|k: int| 0 <= k < ps.len() implies pair_view(#[trigger] ps[k]) == (last_with_id(a, pair_id(ps[k])), last_with_id(pre.push(x), pair_id(ps[k]))) by {
                if k < pa.len() && pair_id(pa[k]) != x.id@ {
                    assert(ps[k] == pa[k]);
                } else if k < pa.len() {
                    assert(pair_id(ps[k]) == x.id@);
                    lemma_last_with_id_has_id(a, pair_id(pa[k]));
                } else {
                    assert(last_with_id(a, x.id@) is None) by {
                        if last_with_id(a, x.id@) is Some {
                            let q = choose|q: int| 0 <= q < pa.len() && #[trigger] pair_id(pa[q]) == x.id@;
                        }
                    }
                }
            }
            assert forall|p: int, q: int| 0 <= p < q < ps.len() implies pair_id(#[trigger] ps[p]) != pair_id(#[trigger] ps[q]) by {
                if q < pa.len() {
                    assert(pair_id(ps[p]) == pair_id(pa[p]));
                    assert(pair_id(ps[q]) == pair_id(pa[q]));
                }
            }
            assert forall|k: int| 0 <= k < ps.len() implies (#[trigger] ps[k]).0 is Some || ps[k].1 is Some by {
                if k < pa.len() && pair_id(pa[k]) != x.id@ {
                    assert(ps[k] == pa[k]);
                }
            }
            assert forall|id: Seq<char>| (last_with_id(a, id) is Some || last_with_id(pre.push(x), id) is Some) implies exists|k: int| 0 <= k < ps.len() && #[trigger] pair_id(ps[k]) == id by {
                if id == x.id@ {
                    assert(pair_id(ps[at]) == id);
                } else {
                    let k = choose|k: int| 0 <= k < pa.len() && #[trigger] pair_id(pa[k]) == id;
                    assert(pair_id(ps[k]) == pair_id(pa[k]));
                }
            }
        }
        j = j + 1;
    }
    assert(b.take(m as int) =~= b);
    pairs
}


/// `r` is the merge of issue lists `a` and `b`: one issue per id that
/// occurs in either list, made from the last version of that id on each side.
pub open spec fn merged_lists(r: Seq<Issue>, a: Seq<Issue>, b: Seq<Issue>) -> bool {
    exists|ids: Seq<Seq<char>>| {
        &&& #[trigger] ids.len() == r.len()
        &&& forall|i: int, j: int| 0 <= i < j < ids.len() ==> ids[i] != ids[j]
        &&& forall|id: Seq<char>| (last_with_id(a, id) is Some || last_with_id(b, id) is Some) <==> ids.contains(id)
        &&& forall|k: int| 0 <= k < r.len() ==> r[k].id@ == ids[k] && merged_pair(
            #[trigger] r[k],
            last_with_id(a, ids[k]),
            last_with_id(b, ids[k]),
        )
    }
}

/// Merges the issues of two branches: one issue per id, made from the
/// incoming and the merged-into versions (see `mergePair`).
pub fn mergeIssues(incoming: Vec<Issue>, merge_into: Vec<Issue>) -> (r: Vec<Issue>)
    requires
        forall|i: int| 0 <= i < incoming@.len() ==> comment_stamps_in_range(#[trigger] incoming@[i]),
        forall|i: int| 0 <= i < merge_into@.len() ==> comment_stamps_in_range(#[trigger] merge_into@[i]),
    ensures
        merged_lists(r@, incoming@, merge_into@),
{
    let ghost a = incoming@;
    let ghost b = merge_into@;
    proof {
        assert forall|id: Seq<char>| #[trigger] last_in_range(a, id) by {
            lemma_last_in(a, id);
        }
        assert forall|id: Seq<char>| #[trigger] last_in_range(b, id) by {
            lemma_last_in(b, id);
        }
    }
    let mut pairs = pair_by_id(incoming, merge_into);
    let ghost ps = pairs@;
    let ghost ids = ps.map_values(|p: (Option<Issue>, Option<Issue>)| pair_id(p));
    let mut merged: Vec<Issue> = Vec::new();
    let mut k: usize = 0;
    let n = pairs.len();
    while k < n
        invariant
            k <= n,
            n == ps.len(),
            pairs@.len() == n - k,
            forall|t: int| 0 <= t < pairs@.len() ==> #[trigger] pairs@[t] == ps[t + k],
            pairs_by_id(ps, a, b),
            ids == ps.map_values(|p: (Option<Issue>, Option<Issue>)| pair_id(p)),
            forall|id: Seq<char>| #[trigger] last_in_range(a, id),
            forall|id: Seq<char>| #[trigger] last_in_range(b, id),
            merged@.len() == k,
            forall|t: int| 0 <= t < k ==> (#[trigger] merged@[t]).id@ == ids[t] && merged_pair(merged@[t], last_with_id(a, ids[t]), last_with_id(b, ids[t])),
        decreases n - k,
    {
        let ghost before = pairs@;
        let p = pairs.remove(0);
        assert(p == ps[k as int]);
        assert(forall|t: int| 0 <= t < pairs@.len() ==> pairs@[t] == before[t + 1]);
        let ghost pv = pair_view(p);
        assert(pv == (last_with_id(a, ids[k as int]), last_with_id(b, ids[k as int])));
        proof {
            lemma_last_with_id_has_id(a, ids[k as int]);
            lemma_last_with_id_has_id(b, ids[k as int]);
            assert(last_in_range(a, ids[k as int]));
            assert(last_in_range(b, ids[k as int]));
        }
        let issue = mergePair(p);
        merged.push(issue);
        k = k + 1;
    }
    proof {
        let r = merged@;
        assert forall|id: Seq<char>| (last_with_id(a, id) is Some || last_with_id(b, id) is Some) <==> ids.contains(id) by {
            if ids.contains(id) {
                let t = choose|t: int| 0 <= t < ids.len() && ids[t] == id;
                assert(ps[t].0 is Some || ps[t].1 is Some);
                assert(pair_view(ps[t]) == (last_with_id(a, pair_id(ps[t])), last_with_id(b, pair_id(ps[t]))));
            }
            if last_with_id(a, id) is Some || last_with_id(b, id) is Some {
                let t = choose|t: int| 0 <= t < ps.len() && #[trigger] pair_id(ps[t]) == id;
                assert(ids[t] == id);
            }
        }
        assert forall|i: int, j: int| 0 <= i < j < ids.len() implies ids[i] != ids[j] by {
            assert(pair_id(ps[i]) != pair_id(ps[j]));
        }
        assert forall|t: int| 0 <= t < r.len() implies r[t].id@ == ids[t] && merged_pair(#[trigger] r[t], last_with_id(a, ids[t]), last_with_id(b, ids[t])) by {
        }
        assert(ids.len() == r.len());
    }
    merged
}

/// Whether the last issue of `v` with the id `id`, if any, has its time
/// stamps in range.
pub open spec fn last_in_range(v: Seq<Issue>, id: Seq<char>) -> bool {
    last_with_id(v, id) matches Some(x) ==> comment_stamps_in_range(x)
}

proof fn lemma_last_in(v: Seq<Issue>, id: Seq<char>)
    requires
        forall|i: int| 0 <= i < v.len() ==> comment_stamps_in_range(#[trigger] v[i]),
    ensures
        last_in_range(v, id),
    decreases v.len(),
{
    if v.len() > 0 {
        assert forall|i: int| 0 <= i < v.drop_last().len() implies comment_stamps_in_range(#[trigger] v.drop_last()[i]) by {
            assert(v.drop_last()[i] == v[i]);
        }
        lemma_last_in(v.drop_last(), id);
    }
}

} // verus!
