//! Stable orders of items by time stamps.
use vstd::prelude::*;
use vstd::multiset::Multiset;
use crate::clock::{Timespec, ts_lt, timespec_lt};

verus! {

/// `p` lists each index of `0..n` exactly once.
pub open spec fn is_permutation(p: Seq<int>, n: nat) -> bool {
    &&& p.len() == n
    &&& forall|i: int| 0 <= i < p.len() ==> 0 <= #[trigger] p[i] < n
    &&& forall|i: int, j: int| 0 <= i < j < p.len() ==> p[i] != p[j]
}

/// `p` orders indices by their stamps in `keys`, and keeps the given
/// order of indices with equal stamps.
pub open spec fn stably_sorted(keys: Seq<Timespec>, p: Seq<int>) -> bool {
    forall|i: int, j: int| 0 <= i < j < p.len() ==> {
        &&& !ts_lt(keys[p[j]], keys[p[i]])
        &&& (!ts_lt(keys[p[i]], keys[p[j]]) ==> p[i] < p[j])
    }
}

/// The stable sort of `0..n` by stamps, as indices.
pub open spec fn stable_sort_order(keys: Seq<Timespec>, p: Seq<int>) -> bool {
    is_permutation(p, keys.len()) && stably_sorted(keys, p)
}

/// `s` as integers.
pub open spec fn as_ints(s: Seq<usize>) -> Seq<int> {
    s.map_values(|x: usize| x as int)
}

/// The indices of `keys` in the order of a stable sort by stamp.
pub fn sort_indices(keys: &Vec<Timespec>) -> (r: Vec<usize>)
    ensures
        stable_sort_order(keys@, as_ints(r@)),
{
    let n = keys.len();
    let mut r: Vec<usize> = Vec::new();
    let mut k: usize = 0;
    while k < n
        invariant
            k <= n,
            n == keys@.len(),
            is_permutation(as_ints(r@), k as nat),
            stably_sorted(keys@, as_ints(r@)),
        decreases n - k,
    {
        // The new index goes after every index whose stamp is not later.
        let mut pos: usize = 0;
        assert forall|j: int| 0 <= j < r@.len() implies (#[trigger] r@[j]) < k by {
            assert(as_ints(r@)[j] == r@[j] as int);
        }
        while pos < r.len() && !timespec_lt(keys[k], keys[r[pos]])
            invariant
                pos <= r@.len(),
                r@.len() == k,
                k < n,
                n == keys@.len(),
                is_permutation(as_ints(r@), k as nat),
                forall|j: int| 0 <= j < r@.len() ==> (#[trigger] r@[j]) < k,
                forall|j: int| 0 <= j < pos ==> !ts_lt(keys@[k as int], keys@[r@[j] as int]),
            decreases r@.len() - pos,
        {
            pos = pos + 1;
        }
        let ghost old_r = as_ints(r@);
        r.insert(pos, k);
        assert(as_ints(r@) =~= old_r.insert(pos as int, k as int));
        proof {
            let nr = as_ints(r@);
            assert forall|i: int| 0 <= i < nr.len() implies 0 <= #[trigger] nr[i] < k + 1 by {
                if i < pos {
                    assert(nr[i] == old_r[i]);
                } else if i > pos {
                    assert(nr[i] == old_r[i - 1]);
                }
            }
            assert forall|i: int, j: int| 0 <= i < j < nr.len() implies nr[i] != nr[j] by {
                if i < pos && j < pos {
                } else if i < pos && j == pos {
                } else if i < pos && j > pos {
                    assert(nr[j] == old_r[j - 1]);
                } else if i == pos {
                    assert(nr[j] == old_r[j - 1]);
                } else {
                    assert(nr[i] == old_r[i - 1]);
                    assert(nr[j] == old_r[j - 1]);
                }
            }
            assert forall|i: int, j: int| 0 <= i < j < nr.len() implies {
                &&& !ts_lt(keys@[nr[j]], keys@[nr[i]])
                &&& (!ts_lt(keys@[nr[i]], keys@[nr[j]]) ==> nr[i] < nr[j])
            } by {
                if i < pos && j < pos {
                    assert(nr[i] == old_r[i] && nr[j] == old_r[j]);
                } else if i < pos && j == pos {
                    assert(nr[i] == old_r[i]);
                } else if i < pos && j > pos {
                    assert(nr[i] == old_r[i] && nr[j] == old_r[j - 1]);
                } else if i == pos {
                    assert(nr[j] == old_r[j - 1]);
                    assert(ts_lt(keys@[k as int], keys@[old_r[pos as int]]));
                    if j - 1 > pos {
                        assert(!ts_lt(keys@[old_r[j - 1]], keys@[old_r[pos as int]]));
                    }
                } else {
                    assert(nr[i] == old_r[i - 1]);
                    assert(nr[j] == old_r[j - 1]);
                }
            }
        }
        k = k + 1;
    }
    r
}

/// Taking the element at `p` out by moving the last element into its
/// place keeps the other elements.
pub proof fn lemma_swap_remove_multiset<T>(s: Seq<T>, p: int)
    requires
        0 <= p < s.len(),
    ensures
        s.update(p, s.last()).drop_last().to_multiset().insert(s[p]) =~= s.to_multiset(),
{
    broadcast use vstd::seq_lib::group_to_multiset_ensures;
    broadcast use vstd::multiset::group_multiset_axioms;
    let u = s.update(p, s.last());
    assert(u.drop_last().push(u.last()) =~= u);
    assert(u.last() == s.last());
    vstd::seq_lib::to_multiset_update(s, p, s.last());
    vstd::seq_lib::to_multiset_build(u.drop_last(), u.last());
    assert(s.to_multiset().count(s[p]) > 0) by {
        vstd::seq_lib::to_multiset_contains(s, s[p]);
        assert(s.contains(s[p]));
    }
    let a = u.drop_last().to_multiset();
    let b = s.to_multiset();
    let l = s.last();
    let x = s[p];
    assert(a.insert(l) == b.insert(l).remove(x));
    assert forall|v: T| #[trigger] a.count(v) == b.remove(x).count(v) by {
        assert(a.insert(l).count(v) == b.insert(l).remove(x).count(v));
    }
    assert(a =~= b.remove(x));
}

/// Whether two lists of strings are equal.
pub fn strings_eq(a: &Vec<String>, b: &Vec<String>) -> (r: bool)
    ensures
        r == (crate::text::views(a@) == crate::text::views(b@)),
{
    if a.len() != b.len() {
        proof {
            assert(crate::text::views(a@).len() != crate::text::views(b@).len());
        }
        return false;
    }
    let mut i: usize = 0;
    while i < a.len()
        invariant
            a@.len() == b@.len(),
            i <= a@.len(),
            forall|k: int| 0 <= k < i ==> a@[k]@ == b@[k]@,
        decreases a@.len() - i,
    {
        if !crate::text::str_eq(a[i].as_str(), b[i].as_str()) {
            proof {
                assert(crate::text::views(a@)[i as int] != crate::text::views(b@)[i as int]);
            }
            return false;
        }
        i = i + 1;
    }
    assert(crate::text::views(a@) =~= crate::text::views(b@));
    true
}

/// The items paired with their stamps.
pub open spec fn zip_keys<T>(items: Seq<T>, keys: Seq<Timespec>) -> Seq<(T, Timespec)> {
    Seq::new(items.len(), |i: int| (items[i], keys[i]))
}

/// The stamps are in order: none is earlier than one before it.
pub open spec fn keys_ordered(ks: Seq<Timespec>) -> bool {
    forall|i: int, j: int| 0 <= i < j < ks.len() ==> !ts_lt(ks[j], ks[i])
}

/// The tags as values.
pub open spec fn tag_views(tags: Seq<Vec<String>>) -> Seq<Seq<Seq<char>>> {
    tags.map_values(|t: Vec<String>| crate::text::views(t@))
}

/// Elements with equal tags have equal stamps.
pub open spec fn tags_consistent(keys: Seq<Timespec>, tags: Seq<Seq<Seq<char>>>) -> bool {
    forall|a: int, b: int| 0 <= a < keys.len() && 0 <= b < keys.len() && #[trigger] tags[a] == #[trigger] tags[b]
        ==> keys[a] == keys[b]
}

/// The elements in the order of repeatedly taking out the element whose
/// tag is the tag of the first element with the least stamp: the first
/// element with that tag, with the last element moved into its place.
/// The result holds the same elements; where elements with equal tags
/// have equal stamps, it is ordered by stamp.
pub fn select_sort<T>(items: Vec<T>, keys: Vec<Timespec>, tags: Vec<Vec<String>>) -> (r: Vec<T>)
    requires
        keys@.len() == items@.len(),
        tags@.len() == items@.len(),
    ensures
        r@.to_multiset() == items@.to_multiset(),
        tags_consistent(keys@, tag_views(tags@)) ==> exists|sk: Seq<Timespec>| #[trigger] keys_ordered(sk)
            && sk.len() == r@.len() && zip_keys(r@, sk).to_multiset() == zip_keys(items@, keys@).to_multiset(),
{
    let ghost orig = items@;
    let ghost okeys = keys@;
    let ghost cons = tags_consistent(keys@, tag_views(tags@));
    let mut items = items;
    let mut keys = keys;
    let mut tags = tags;
    let mut sorted: Vec<T> = Vec::new();
    let ghost mut sk: Seq<Timespec> = Seq::empty();
    proof {
        broadcast use vstd::seq_lib::group_to_multiset_ensures;
        assert(sorted@.to_multiset() =~= Multiset::<T>::empty());
        assert(zip_keys(sorted@, sk) =~= Seq::<(T, Timespec)>::empty());
        assert(zip_keys(sorted@, sk).to_multiset() =~= Multiset::<(T, Timespec)>::empty());
    }
    while items.len() > 0
        invariant
            keys@.len() == items@.len(),
            tags@.len() == items@.len(),
            sorted@.to_multiset().add(items@.to_multiset()) == orig.to_multiset(),
            sk.len() == sorted@.len(),
            zip_keys(sorted@, sk).to_multiset().add(zip_keys(items@, keys@).to_multiset())
                == zip_keys(orig, okeys).to_multiset(),
            cons ==> tags_consistent(keys@, tag_views(tags@)),
            cons ==> keys_ordered(sk),
            cons ==> forall|k: int, i: int| 0 <= k < keys@.len() && 0 <= i < sk.len()
                ==> !ts_lt(#[trigger] keys@[k], #[trigger] sk[i]),
        decreases items@.len(),
    {
        let mut m: usize = 0;
        let mut i: usize = 1;
        while i < keys.len()
            invariant
                keys@.len() == items@.len(),
                items@.len() > 0,
                m < keys@.len(),
                1 <= i <= keys@.len(),
                m < i,
                forall|j: int| 0 <= j < i ==> !ts_lt(#[trigger] keys@[j], keys@[m as int]),
            decreases keys@.len() - i,
        {
            if timespec_lt(keys[i], keys[m]) {
                m = i;
            }
            i = i + 1;
        }
        let mut p: usize = 0;
        while p < m && !strings_eq(&tags[p], &tags[m])
            invariant
                p <= m,
                m < tags@.len(),
            decreases m - p,
        {
            p = p + 1;
        }
        let ghost before = items@;
        let ghost bkeys = keys@;
        let ghost btags = tags@;
        let ghost bz = zip_keys(before, bkeys);
        proof {
            lemma_swap_remove_multiset(before, p as int);
            lemma_swap_remove_multiset(bz, p as int);
            assert(tag_views(btags)[p as int] == crate::text::views(btags[p as int]@));
            assert(tag_views(btags)[m as int] == crate::text::views(btags[m as int]@));
            if cons {
                assert(bkeys[p as int] == bkeys[m as int]);
            }
        }
        let x = items.swap_remove(p);
        let kx = keys.swap_remove(p);
        tags.swap_remove(p);
        let ghost sb = sorted@;
        let ghost skb = sk;
        sorted.push(x);
        proof {
            sk = sk.push(kx);
            broadcast use vstd::seq_lib::group_to_multiset_ensures;
            broadcast use vstd::multiset::group_multiset_axioms;
            assert(sorted@ =~= sb.push(x));
            assert(sorted@.to_multiset() =~= sb.to_multiset().insert(x));
            assert(sorted@.to_multiset().add(items@.to_multiset()) =~= sb.to_multiset().add(before.to_multiset()));
            let L = before.len() - 1;
            assert(zip_keys(items@, keys@) =~= bz.update(p as int, bz.last()).drop_last());
            assert(zip_keys(sorted@, sk) =~= zip_keys(sb, skb).push(bz[p as int]));
            assert(zip_keys(sorted@, sk).to_multiset() =~= zip_keys(sb, skb).to_multiset().insert(bz[p as int]));
            assert(zip_keys(sorted@, sk).to_multiset().add(zip_keys(items@, keys@).to_multiset())
                =~= zip_keys(sb, skb).to_multiset().add(bz.to_multiset()));
            if cons {
                let tv = tag_views(tags@);
                let btv = tag_views(btags);
                assert forall|a: int, b: int| 0 <= a < keys@.len() && 0 <= b < keys@.len() && #[trigger] tv[a] == #[trigger] tv[b]
                    implies keys@[a] == keys@[b] by {
                    let oa = if a == p { L } else { a };
                    let ob = if b == p { L } else { b };
                    assert(tv[a] == btv[oa]);
                    assert(tv[b] == btv[ob]);
                    assert(keys@[a] == bkeys[oa]);
                    assert(keys@[b] == bkeys[ob]);
                }
                assert(!ts_lt(bkeys[p as int], bkeys[m as int]) && !ts_lt(bkeys[m as int], bkeys[p as int]));
                assert forall|a: int, b: int| 0 <= a < b < sk.len() implies !ts_lt(sk[b], sk[a]) by {
                    if b == sk.len() - 1 {
                        assert(sk[b] == bkeys[p as int]);
                        assert(sk[a] == skb[a]);
                        assert(!ts_lt(bkeys[p as int], skb[a]));
                    } else {
                        assert(sk[a] == skb[a] && sk[b] == skb[b]);
                    }
                }
                assert forall|k: int, i: int| 0 <= k < keys@.len() && 0 <= i < sk.len()
                    implies !ts_lt(#[trigger] keys@[k], #[trigger] sk[i]) by {
                    let ok = if k == p { L } else { k };
                    assert(keys@[k] == bkeys[ok]);
                    assert(!ts_lt(bkeys[ok], bkeys[m as int]));
                    if i == sk.len() - 1 {
                        assert(sk[i] == bkeys[p as int]);
                    } else {
                        assert(sk[i] == skb[i]);
                        assert(!ts_lt(bkeys[ok], skb[i]));
                    }
                }
            }
        }
    }
    proof {
        broadcast use vstd::seq_lib::group_to_multiset_ensures;
        broadcast use vstd::multiset::group_multiset_axioms;
        assert(items@.to_multiset() =~= Multiset::<T>::empty());
        assert(sorted@.to_multiset() =~= sorted@.to_multiset().add(items@.to_multiset()));
        assert(zip_keys(items@, keys@) =~= Seq::<(T, Timespec)>::empty());
        assert(zip_keys(items@, keys@).to_multiset() =~= Multiset::<(T, Timespec)>::empty());
        assert(zip_keys(sorted@, sk).to_multiset() =~= zip_keys(sorted@, sk).to_multiset().add(zip_keys(items@, keys@).to_multiset()));
        if cons {
            assert(keys_ordered(sk));
        }
    }
    sorted
}

} // verus!
