//! Stable sorting by an integer key, as `slice::sort_by_key` orders: by key,
//! keeping the input order among equal keys.
use vstd::prelude::*;

verus! {

/// Values that sort by an integer key.
pub trait Keyed {
    spec fn key(&self) -> int;

    fn key_le(&self, other: &Self) -> (r: bool)
        ensures
            r == (self.key() <= other.key()),
    ;
}

/// Number of elements of `t` whose key is at most `k`.
pub open spec fn count_le<T: Keyed>(t: Seq<T>, k: int) -> nat
    decreases t.len(),
{
    if t.len() == 0 {
        0
    } else {
        (if t[0].key() <= k { 1nat } else { 0nat }) + count_le(t.drop_first(), k)
    }
}

/// `x` placed into `t` after every element whose key is at most its own.
pub open spec fn insert_sorted<T: Keyed>(t: Seq<T>, x: T) -> Seq<T> {
    t.insert(count_le(t, x.key()) as int, x)
}

/// The stable sort of `s` by key: each element, in input order, placed after
/// the earlier ones whose key is not greater.
pub open spec fn stable_sort<T: Keyed>(s: Seq<T>) -> Seq<T>
    decreases s.len(),
{
    if s.len() == 0 {
        s
    } else {
        insert_sorted(stable_sort(s.drop_last()), s.last())
    }
}

/// Keys never decrease along `t`.
pub open spec fn sorted_by_key<T: Keyed>(t: Seq<T>) -> bool {
    forall|i: int, j: int| 0 <= i <= j < t.len() ==> #[trigger] t[i].key() <= #[trigger] t[j].key()
}

proof fn lemma_count_le_prefix<T: Keyed>(t: Seq<T>, k: int, j: int)
    requires
        sorted_by_key(t),
        0 <= j <= t.len(),
        forall|i: int| 0 <= i < j ==> #[trigger] t[i].key() <= k,
        j < t.len() ==> t[j].key() > k,
    ensures
        count_le(t, k) == j,
    decreases t.len(),
{
    if t.len() > 0 {
        let u = t.drop_first();
        assert(sorted_by_key(u)) by {
            assert forall|a: int, b: int| 0 <= a <= b < u.len() implies #[trigger] u[a].key()
                <= #[trigger] u[b].key() by {
                assert(u[a] == t[a + 1]);
                assert(u[b] == t[b + 1]);
            }
        }
        if j == 0 {
            assert(t[0].key() > k);
            assert forall|i: int| 0 <= i < u.len() implies #[trigger] u[i].key() > k by {
                assert(u[i] == t[i + 1]);
                assert(t[0].key() <= t[i + 1].key());
            }
            lemma_count_le_none(u, k);
        } else {
            assert forall|i: int| 0 <= i < j - 1 implies #[trigger] u[i].key() <= k by {
                assert(u[i] == t[i + 1]);
            }
            if j - 1 < u.len() {
                assert(u[j - 1] == t[j]);
            }
            lemma_count_le_prefix(u, k, j - 1);
        }
    }
}

proof fn lemma_count_le_none<T: Keyed>(t: Seq<T>, k: int)
    requires
        forall|i: int| 0 <= i < t.len() ==> #[trigger] t[i].key() > k,
    ensures
        count_le(t, k) == 0,
    decreases t.len(),
{
    if t.len() > 0 {
        let u = t.drop_first();
        assert forall|i: int| 0 <= i < u.len() implies #[trigger] u[i].key() > k by {
            assert(u[i] == t[i + 1]);
        }
        lemma_count_le_none(u, k);
    }
}

proof fn lemma_count_le_bound<T: Keyed>(t: Seq<T>, k: int)
    ensures
        count_le(t, k) <= t.len(),
    decreases t.len(),
{
    if t.len() > 0 {
        lemma_count_le_bound(t.drop_first(), k);
    }
}

/// In a sorted sequence the elements with key at most `k` come first.
proof fn lemma_count_le_split<T: Keyed>(t: Seq<T>, k: int)
    requires
        sorted_by_key(t),
    ensures
        count_le(t, k) <= t.len(),
        forall|i: int| 0 <= i < count_le(t, k) ==> #[trigger] t[i].key() <= k,
        forall|i: int| count_le(t, k) <= i < t.len() ==> #[trigger] t[i].key() > k,
    decreases t.len(),
{
    lemma_count_le_bound(t, k);
    if t.len() > 0 {
        let u = t.drop_first();
        assert(sorted_by_key(u)) by {
            assert forall|a: int, b: int| 0 <= a <= b < u.len() implies #[trigger] u[a].key()
                <= #[trigger] u[b].key() by {
                assert(u[a] == t[a + 1]);
                assert(u[b] == t[b + 1]);
            }
        }
        lemma_count_le_split(u, k);
        if t[0].key() <= k {
            assert forall|i: int| 0 <= i < count_le(t, k) implies #[trigger] t[i].key() <= k by {
                if i > 0 {
                    assert(t[i] == u[i - 1]);
                }
            }
            assert forall|i: int| count_le(t, k) <= i < t.len() implies #[trigger] t[i].key()
                > k by {
                assert(t[i] == u[i - 1]);
            }
        } else {
            assert forall|i: int| 0 <= i < t.len() implies #[trigger] t[i].key() > k by {
                assert(t[0].key() <= t[i].key());
            }
        }
    }
}

/// Sorting keeps the length and yields keys in order.
pub proof fn lemma_stable_sort<T: Keyed>(s: Seq<T>)
    ensures
        stable_sort(s).len() == s.len(),
        sorted_by_key(stable_sort(s)),
    decreases s.len(),
{
    if s.len() > 0 {
        let t = stable_sort(s.drop_last());
        let x = s.last();
        lemma_stable_sort(s.drop_last());
        lemma_count_le_split(t, x.key());
        let k = count_le(t, x.key()) as int;
        let r = insert_sorted(t, x);
        assert(r =~= t.subrange(0, k).push(x) + t.subrange(k, t.len() as int));
        assert forall|i: int, j: int| 0 <= i <= j < r.len() implies #[trigger] r[i].key()
            <= #[trigger] r[j].key() by {
            if i < k && j < k {
                assert(r[i] == t[i] && r[j] == t[j]);
            } else if i < k && j == k {
                assert(r[i] == t[i]);
            } else if i < k {
                assert(r[i] == t[i] && r[j] == t[j - 1]);
            } else if i == k && j == k {
            } else if i == k {
                assert(r[j] == t[j - 1]);
            } else {
                assert(r[i] == t[i - 1] && r[j] == t[j - 1]);
            }
        }
    }
}

/// Sorts `v` stably by key.
pub fn sort_by_key<T: Keyed>(v: Vec<T>) -> (r: Vec<T>)
    ensures
        r@ == stable_sort(v@),
{
    let ghost orig = v@;
    let mut v = v;
    let mut out: Vec<T> = Vec::new();
    let mut i: usize = 0;
    assert(orig.len() == v.len());
    proof {
        assert(orig.take(0) =~= Seq::<T>::empty());
        assert(orig.skip(0) =~= orig);
    }
    while v.len() > 0
        invariant
            i <= orig.len(),
            orig.len() <= usize::MAX,
            v@ == orig.skip(i as int),
            out@ == stable_sort(orig.take(i as int)),
        decreases v.len(),
    {
        proof {
            lemma_stable_sort(orig.take(i as int));
            assert(v@.len() == orig.len() - i);
        }
        assert(i < orig.len());
        let x = v.remove(0);
        let mut j: usize = 0;
        while j < out.len() && out[j].key_le(&x)
            invariant
                j <= out.len(),
                i < orig.len(),
                forall|a: int| 0 <= a < j ==> #[trigger] out@[a].key() <= x.key(),
            decreases out.len() - j,
        {
            j += 1;
        }
        proof {
            lemma_count_le_prefix(out@, x.key(), j as int);
            assert(orig.take(i + 1).drop_last() =~= orig.take(i as int));
            assert(orig.take(i + 1).last() == x);
        }
        out.insert(j, x);
        i += 1;
        proof {
            assert(v@ =~= orig.skip(i as int));
        }
    }
    proof {
        assert(orig.take(i as int) =~= orig);
    }
    out
}

/// Sorting keeps the elements: each element of the sorted sequence is an
/// element of the input and the reverse, with the same counts.
pub proof fn lemma_stable_sort_permutes<T: Keyed>(s: Seq<T>)
    ensures
        stable_sort(s).to_multiset() == s.to_multiset(),
    decreases s.len(),
{
    broadcast use vstd::seq_lib::group_to_multiset_ensures;

    if s.len() > 0 {
        let t = stable_sort(s.drop_last());
        lemma_stable_sort_permutes(s.drop_last());
        lemma_count_le_bound(t, s.last().key());
        let k = count_le(t, s.last().key()) as int;
        assert(t.insert(k, s.last()) =~= t.subrange(0, k).push(s.last()) + t.subrange(k, t.len() as int));
        assert(t =~= t.subrange(0, k) + t.subrange(k, t.len() as int));
        vstd::seq_lib::lemma_multiset_commutative(t.subrange(0, k).push(s.last()), t.subrange(k, t.len() as int));
        vstd::seq_lib::lemma_multiset_commutative(t.subrange(0, k), t.subrange(k, t.len() as int));
        assert(s =~= s.drop_last().push(s.last()));
    }
}

/// A property of every element holds of every element of the sorted sequence.
pub proof fn lemma_stable_sort_all<T: Keyed>(s: Seq<T>, p: spec_fn(T) -> bool)
    requires
        forall|i: int| 0 <= i < s.len() ==> p(#[trigger] s[i]),
    ensures
        forall|i: int| 0 <= i < stable_sort(s).len() ==> p(#[trigger] stable_sort(s)[i]),
{
    broadcast use vstd::seq_lib::group_to_multiset_ensures;

    lemma_stable_sort_permutes(s);
    assert forall|i: int| 0 <= i < stable_sort(s).len() implies p(#[trigger] stable_sort(s)[i]) by {
        let x = stable_sort(s)[i];
        assert(stable_sort(s).contains(x));
        assert(stable_sort(s).to_multiset().count(x) > 0);
        assert(s.to_multiset().count(x) > 0);
        assert(s.contains(x));
    }
}


/// No two elements of `t` share a key.
pub open spec fn keys_distinct<T: Keyed>(t: Seq<T>) -> bool {
    forall|i: int, j: int| 0 <= i < j < t.len() ==> #[trigger] t[i].key() != #[trigger] t[j].key()
}

/// A sorted sequence whose keys are distinct is the only sorted sequence
/// holding its elements.
proof fn lemma_sorted_unique<T: Keyed>(t: Seq<T>, u: Seq<T>)
    requires
        sorted_by_key(t),
        sorted_by_key(u),
        keys_distinct(t),
        t.to_multiset() == u.to_multiset(),
    ensures
        t == u,
    decreases t.len(),
{
    broadcast use vstd::seq_lib::group_to_multiset_ensures;

    vstd::seq_lib::to_multiset_len(t);
    vstd::seq_lib::to_multiset_len(u);
    assert(t.len() == u.len());
    if t.len() > 0 {
        assert(u.contains(u[0]));
        assert(u.to_multiset().count(u[0]) > 0);
        assert(t.contains(u[0]));
        let i = choose|i: int| 0 <= i < t.len() && t[i] == u[0];
        assert(t.contains(t[0]));
        assert(t.to_multiset().count(t[0]) > 0);
        assert(u.contains(t[0]));
        let j = choose|j: int| 0 <= j < u.len() && u[j] == t[0];
        assert(t[0].key() <= t[i].key());
        assert(u[0].key() <= u[j].key());
        assert(i == 0);
        let t2 = t.remove(0);
        let u2 = u.remove(0);
        assert(t2.to_multiset() == t.to_multiset().remove(t[0]));
        assert(u2.to_multiset() == u.to_multiset().remove(u[0]));
        assert(sorted_by_key(t2)) by {
            assert forall|a: int, b: int| 0 <= a <= b < t2.len() implies #[trigger] t2[a].key()
                <= #[trigger] t2[b].key() by {
                assert(t2[a] == t[a + 1] && t2[b] == t[b + 1]);
            }
        }
        assert(sorted_by_key(u2)) by {
            assert forall|a: int, b: int| 0 <= a <= b < u2.len() implies #[trigger] u2[a].key()
                <= #[trigger] u2[b].key() by {
                assert(u2[a] == u[a + 1] && u2[b] == u[b + 1]);
            }
        }
        assert(keys_distinct(t2)) by {
            assert forall|a: int, b: int| 0 <= a < b < t2.len() implies #[trigger] t2[a].key()
                != #[trigger] t2[b].key() by {
                assert(t2[a] == t[a + 1] && t2[b] == t[b + 1]);
            }
        }
        lemma_sorted_unique(t2, u2);
        assert(t =~= u) by {
            assert forall|k: int| 0 <= k < t.len() implies t[k] == u[k] by {
                if k > 0 {
                    assert(t[k] == t2[k - 1] && u[k] == u2[k - 1]);
                }
            }
        }
    }
}

/// Inputs holding the same elements, no two with the same key, sort to the
/// same sequence: the input order does not matter.
pub proof fn lemma_stable_sort_unique<T: Keyed>(a: Seq<T>, b: Seq<T>)
    requires
        keys_distinct(a),
        a.to_multiset() == b.to_multiset(),
    ensures
        stable_sort(a) == stable_sort(b),
{
    broadcast use vstd::seq_lib::group_to_multiset_ensures;

    let sa = stable_sort(a);
    lemma_stable_sort(a);
    lemma_stable_sort(b);
    lemma_stable_sort_permutes(a);
    lemma_stable_sort_permutes(b);
    assert(a.no_duplicates()) by {
        assert forall|i: int, j: int| 0 <= i < a.len() && 0 <= j < a.len() && i != j implies a[i]
            != a[j] by {
            if i < j {
                assert(a[i].key() != a[j].key());
            } else {
                assert(a[j].key() != a[i].key());
            }
        }
    }
    a.lemma_multiset_has_no_duplicates();
    sa.lemma_multiset_has_no_duplicates_conv();
    assert(keys_distinct(sa)) by {
        assert forall|i: int, j: int| 0 <= i < j < sa.len() implies #[trigger] sa[i].key()
            != #[trigger] sa[j].key() by {
            assert(sa.contains(sa[i]));
            assert(sa.to_multiset().count(sa[i]) > 0);
            assert(a.contains(sa[i]));
            assert(sa.contains(sa[j]));
            assert(sa.to_multiset().count(sa[j]) > 0);
            assert(a.contains(sa[j]));
            let p = choose|p: int| 0 <= p < a.len() && a[p] == sa[i];
            let q = choose|q: int| 0 <= q < a.len() && a[q] == sa[j];
            assert(sa[i] != sa[j]);
            assert(p != q);
            if p < q {
                assert(a[p].key() != a[q].key());
            } else {
                assert(a[q].key() != a[p].key());
            }
        }
    }
    lemma_sorted_unique(sa, stable_sort(b));
}

} // verus!
