//! Stable ordering of records by a rank, highest rank first.

use vstd::prelude::*;

verus! {

/// Records that can be ordered by an integer rank.
pub trait Ranked {
    spec fn rank(&self) -> int;

    fn rank_of(&self) -> (r: i64)
        ensures
            r as int == self.rank(),
    ;
}

/// Where `x` goes in `s`: after every leading record ranked at least as
/// high.
pub open spec fn insert_pos<T: Ranked>(s: Seq<T>, x: T) -> nat
    decreases s.len(),
{
    if s.len() > 0 && s[0].rank() >= x.rank() {
        1 + insert_pos(s.drop_first(), x)
    } else {
        0
    }
}

pub open spec fn insert_ranked<T: Ranked>(s: Seq<T>, x: T) -> Seq<T> {
    let p = insert_pos(s, x) as int;
    s.take(p) + seq![x] + s.skip(p)
}

/// Stable insertion sort, highest rank first; records of equal rank keep
/// their order.
pub open spec fn sort_ranked<T: Ranked>(s: Seq<T>) -> Seq<T>
    decreases s.len(),
{
    if s.len() == 0 {
        s
    } else {
        insert_ranked(sort_ranked(s.drop_last()), s.last())
    }
}

pub open spec fn ranked_desc<T: Ranked>(s: Seq<T>) -> bool {
    forall|i: int, j: int| 0 <= i < j < s.len() ==> s[i].rank() >= s[j].rank()
}

proof fn lemma_insert_pos_bounds<T: Ranked>(s: Seq<T>, x: T)
    ensures
        insert_pos(s, x) <= s.len(),
        forall|i: int| 0 <= i < insert_pos(s, x) ==> s[i].rank() >= x.rank(),
        insert_pos(s, x) < s.len() ==> s[insert_pos(s, x) as int].rank() < x.rank(),
    decreases s.len(),
{
    if s.len() > 0 && s[0].rank() >= x.rank() {
        lemma_insert_pos_bounds(s.drop_first(), x);
        assert forall|i: int| 0 <= i < insert_pos(s, x) implies s[i].rank() >= x.rank() by {
            if i > 0 {
                assert(s[i] == s.drop_first()[i - 1]);
            }
        }
    }
}

proof fn lemma_insert_pos_unique<T: Ranked>(s: Seq<T>, x: T, p: int)
    requires
        0 <= p <= s.len(),
        forall|i: int| 0 <= i < p ==> s[i].rank() >= x.rank(),
        p < s.len() ==> s[p].rank() < x.rank(),
    ensures
        insert_pos(s, x) == p,
    decreases s.len(),
{
    if p > 0 {
        assert(s[0].rank() >= x.rank());
        assert forall|i: int| 0 <= i < p - 1 implies s.drop_first()[i].rank() >= x.rank() by {
            assert(s.drop_first()[i] == s[i + 1]);
        }
        lemma_insert_pos_unique(s.drop_first(), x, p - 1);
    }
}

/// Sorts `v` by rank, highest first, keeping the order of equal ranks.
pub fn sort_by_rank<T: Ranked>(v: &mut Vec<T>)
    ensures
        final(v)@ == sort_ranked(old(v)@),
{
    let ghost orig = v@;
    let n = v.len();
    if n == 0 {
        return;
    }
    let mut i: usize = 1;
    let ghost s1 = orig.take(1);
    assert(s1.drop_last() =~= Seq::<T>::empty());
    assert(sort_ranked(s1.drop_last()) =~= Seq::<T>::empty());
    assert(insert_pos(Seq::<T>::empty(), s1.last()) == 0);
    assert(insert_ranked(Seq::<T>::empty(), s1.last()) =~= s1);
    assert(sort_ranked(s1) == insert_ranked(sort_ranked(s1.drop_last()), s1.last()));
    assert(v@.take(1) =~= orig.take(1));
    assert(v@.skip(1) =~= orig.skip(1));
    while i < n
        invariant
            1 <= i <= n,
            n == orig.len(),
            v@.len() == n,
            v@.take(i as int) == sort_ranked(orig.take(i as int)),
            v@.skip(i as int) == orig.skip(i as int),
        decreases n - i,
    {
        let ghost sorted = v@.take(i as int);
        let ghost pre = v@;
        assert(pre[i as int] == orig[i as int]) by {
            assert(pre.skip(i as int)[0] == pre[i as int]);
            assert(orig.skip(i as int)[0] == orig[i as int]);
        }
        let x = v.remove(i);
        assert(v@ == pre.remove(i as int));
        assert(v@.skip(i as int) =~= orig.skip(i + 1)) by {
            assert forall|k: int| 0 <= k < v@.len() - i implies v@.skip(i as int)[k] == orig.skip(i + 1)[k] by {
                assert(v@[i + k] == pre[i + 1 + k]);
                assert(pre.skip(i as int)[1 + k] == orig.skip(i as int)[1 + k]);
            }
        }
        let key = x.rank_of();
        let mut p: usize = 0;
        while p < i
            invariant
                p <= i,
                i < n,
                key as int == x.rank(),
                v@.len() == n - 1,
                v@.take(i as int) == sorted,
                forall|k: int| 0 <= k < p ==> sorted[k].rank() >= x.rank(),
            ensures
                p <= i,
                v@.take(i as int) == sorted,
                v@.len() == n - 1,
                forall|k: int| 0 <= k < p ==> sorted[k].rank() >= x.rank(),
                p < i ==> sorted[p as int].rank() < x.rank(),
            decreases i - p,
        {
            assert(v@[p as int] == sorted[p as int]);
            if v[p].rank_of() < key {
                break;
            }
            p += 1;
        }
        proof {
            if p < i {
                assert(v@[p as int] == sorted[p as int]);
            }
            lemma_insert_pos_unique(sorted, x, p as int);
        }
        let ghost before = v@;
        v.insert(p, x);
        proof {
            assert(orig.take(i + 1).drop_last() =~= orig.take(i as int));
            assert(orig.take(i + 1).last() == x);
            assert(v@.take(i + 1) =~= insert_ranked(sorted, x)) by {
                assert(before.take(i as int) == sorted);
            }
            assert(v@.skip(i + 1) =~= orig.skip(i + 1)) by {
                assert(before.skip(i as int) =~= orig.skip(i + 1));
                assert forall|k: int| 0 <= k < v@.len() - (i + 1) implies v@.skip(i + 1)[k] == before.skip(i as int)[k] by {
                    assert(v@[i + 1 + k] == before[i + k]);
                }
            }
        }
        i += 1;
    }
    assert(v@.take(n as int) =~= v@);
    assert(orig.take(n as int) =~= orig);
}

proof fn lemma_insert_keeps_order<T: Ranked>(s: Seq<T>, x: T)
    requires
        ranked_desc(s),
    ensures
        ranked_desc(insert_ranked(s, x)),
        insert_ranked(s, x).to_multiset() == s.to_multiset().insert(x),
{
    broadcast use vstd::multiset::group_multiset_axioms;
    lemma_insert_pos_bounds(s, x);
    let p = insert_pos(s, x) as int;
    let r = insert_ranked(s, x);
    assert forall|i: int, j: int| 0 <= i < j < r.len() implies r[i].rank() >= r[j].rank() by {
        if j < p {
            assert(r[i] == s[i] && r[j] == s[j]);
        } else if j == p {
            assert(r[i] == s[i]);
        } else if i < p {
            assert(r[i] == s[i] && r[j] == s[j - 1]);
        } else if i == p {
            assert(r[j] == s[j - 1]);
            assert(s[p].rank() < x.rank());
            assert(s[p].rank() >= s[j - 1].rank() || p == j - 1);
        } else {
            assert(r[i] == s[i - 1] && r[j] == s[j - 1]);
        }
    }
    vstd::seq_lib::lemma_multiset_commutative(s.take(p) + seq![x], s.skip(p));
    vstd::seq_lib::lemma_multiset_commutative(s.take(p), seq![x]);
    vstd::seq_lib::lemma_multiset_commutative(s.take(p), s.skip(p));
    assert(s.take(p) + s.skip(p) =~= s);
    assert(seq![x].to_multiset() =~= vstd::multiset::Multiset::empty().insert(x)) by {
        assert(seq![x] =~= Seq::<T>::empty().push(x));
        vstd::seq_lib::to_multiset_build(Seq::<T>::empty(), x);
        assert(Seq::<T>::empty().to_multiset() =~= vstd::multiset::Multiset::empty()) by {
            broadcast use vstd::seq_lib::group_to_multiset_ensures;
        }
    }
}

/// Sorting by rank yields records in non-increasing rank, and exactly the
/// records it was given.
pub proof fn lemma_sort_ranked<T: Ranked>(s: Seq<T>)
    ensures
        ranked_desc(sort_ranked(s)),
        sort_ranked(s).to_multiset() == s.to_multiset(),
        sort_ranked(s).len() == s.len(),
    decreases s.len(),
{
    broadcast use vstd::multiset::group_multiset_axioms;
    if s.len() > 0 {
        lemma_sort_ranked(s.drop_last());
        lemma_insert_keeps_order(sort_ranked(s.drop_last()), s.last());
        assert(s.drop_last().push(s.last()) =~= s);
        vstd::seq_lib::to_multiset_build(s.drop_last(), s.last());
        vstd::seq_lib::to_multiset_len(sort_ranked(s));
        vstd::seq_lib::to_multiset_len(s);
    }
}

} // verus!
