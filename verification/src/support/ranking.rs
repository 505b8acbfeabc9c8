//! Sorting the entries of the in-memory stores.
//!
//! Entries are ordered either by key (ascending), or by recency: the most recently
//! updated first, and among those updated at the same time by key. Both orders are total
//! preorders, and sorting keeps exactly the entries it was given.

use vstd::prelude::*;
use vstd::relations::sorted_by;
use crate::domain::memory::Memory;
use crate::domain::session::SessionSummary;
use crate::text::{lemma_seq_lt_order, seq_lt, str_lt};

verus! {

broadcast use {
    vstd::seq_lib::to_multiset_build,
    vstd::seq_lib::to_multiset_insert,
    vstd::seq_lib::group_to_multiset_ensures,
    vstd::multiset::group_multiset_axioms,
};

/// Something with a key and an update time, by which the stores order it.
pub trait Ranked: Sized {
    /// The key.
    spec fn rank_key(&self) -> Seq<char>;

    /// The update time.
    spec fn rank_time(&self) -> i64;

    /// Whether the key comes strictly before `other`'s.
    fn key_before(&self, other: &Self) -> (r: bool)
        ensures
            r == seq_lt(self.rank_key(), other.rank_key()),
    ;

    /// The update time.
    fn time(&self) -> (r: i64)
        ensures
            r == self.rank_time(),
    ;
}

/// A session summary under its storage key.
impl Ranked for (String, SessionSummary) {
    open spec fn rank_key(&self) -> Seq<char> {
        self.0@
    }

    open spec fn rank_time(&self) -> i64 {
        self.1.updated_at
    }

    fn key_before(&self, other: &Self) -> (r: bool) {
        str_lt(self.0.as_str(), other.0.as_str())
    }

    fn time(&self) -> (r: i64) {
        self.1.updated_at
    }
}

/// A memory, keyed by its id.
impl Ranked for Memory {
    open spec fn rank_key(&self) -> Seq<char> {
        self.id@
    }

    open spec fn rank_time(&self) -> i64 {
        self.updated_at
    }

    fn key_before(&self, other: &Self) -> (r: bool) {
        str_lt(self.id.as_str(), other.id.as_str())
    }

    fn time(&self) -> (r: i64) {
        self.updated_at
    }
}

/// Whether `a` may come before `b`: by key, or by recency (the later update first, ties
/// by key).
pub open spec fn ranks_before<T: Ranked>(a: T, b: T, by_recency: bool) -> bool {
    if by_recency {
        a.rank_time() > b.rank_time() || (a.rank_time() == b.rank_time() && !seq_lt(b.rank_key(), a.rank_key()))
    } else {
        !seq_lt(b.rank_key(), a.rank_key())
    }
}

/// The order as a relation.
pub open spec fn rank_order<T: Ranked>(by_recency: bool) -> spec_fn(T, T) -> bool {
    |a: T, b: T| ranks_before(a, b, by_recency)
}

/// The order is total and transitive.
pub proof fn lemma_rank_order<T: Ranked>(a: T, b: T, c: T, by_recency: bool)
    ensures
        ranks_before(a, b, by_recency) || ranks_before(b, a, by_recency),
        ranks_before(a, b, by_recency) && ranks_before(b, c, by_recency) ==> ranks_before(a, c, by_recency),
{
    let (ka, kb, kc) = (a.rank_key(), b.rank_key(), c.rank_key());
    lemma_seq_lt_order(ka, kb, kc);
    lemma_seq_lt_order(kb, ka, kc);
    lemma_seq_lt_order(kc, kb, ka);
    lemma_seq_lt_order(kb, kc, ka);
    lemma_seq_lt_order(ka, kc, kb);
    lemma_seq_lt_order(kc, ka, kb);
}

fn ranks_before_exec<T: Ranked>(a: &T, b: &T, by_recency: bool) -> (r: bool)
    ensures
        r == ranks_before(*a, *b, by_recency),
{
    if by_recency {
        let (ta, tb) = (a.time(), b.time());
        ta > tb || (ta == tb && !b.key_before(a))
    } else {
        !b.key_before(a)
    }
}

/// `v` sorted by key or by recency; the same entries, each as often.
pub fn sort_ranked<T: Ranked>(v: Vec<T>, by_recency: bool) -> (r: Vec<T>)
    ensures
        sorted_by(r@, rank_order::<T>(by_recency)),
        r@.to_multiset() == v@.to_multiset(),
{
    let ghost given = v@;
    let mut rest = v;
    let mut out: Vec<T> = Vec::new();
    assert(out@.to_multiset().add(rest@.to_multiset()) =~= given.to_multiset());
    while rest.len() > 0
        invariant
            sorted_by(out@, rank_order::<T>(by_recency)),
            out@.to_multiset().add(rest@.to_multiset()) == given.to_multiset(),
        decreases rest.len(),
    {
        let ghost before_rest = rest@;
        let x = rest.pop().unwrap();
        assert(before_rest =~= rest@.push(x));
        let mut pos: usize = 0;
        while pos < out.len() && ranks_before_exec(&out[pos], &x, by_recency)
            invariant
                pos <= out.len(),
                forall|k: int| 0 <= k < pos ==> ranks_before(#[trigger] out@[k], x, by_recency),
            decreases out.len() - pos,
        {
            pos += 1;
        }
        let ghost before_out = out@;
        proof {
            assert forall|k: int| pos <= k < before_out.len() implies ranks_before(x, #[trigger] before_out[k], by_recency) by {
                lemma_rank_order(before_out[pos as int], x, x, by_recency);
                lemma_rank_order(x, before_out[pos as int], before_out[k], by_recency);
                assert(rank_order::<T>(by_recency)(before_out[pos as int], before_out[k]) || k == pos);
            }
        }
        out.insert(pos, x);
        proof {
            assert(out@ =~= before_out.insert(pos as int, x));
            assert forall|i: int, j: int| 0 <= i < j < out@.len() implies #[trigger] rank_order::<T>(by_recency)(
                out@[i],
                out@[j],
            ) by {
                if j < pos {
                    assert(rank_order::<T>(by_recency)(before_out[i], before_out[j]));
                } else if j == pos {
                } else if i < pos {
                    lemma_rank_order(before_out[i], x, before_out[j - 1], by_recency);
                } else if i == pos {
                } else {
                    assert(rank_order::<T>(by_recency)(before_out[i - 1], before_out[j - 1]));
                }
            }
            assert(out@.to_multiset() =~= before_out.to_multiset().insert(x));
            assert(before_rest.to_multiset() =~= rest@.to_multiset().insert(x));
            assert(out@.to_multiset().add(rest@.to_multiset()) =~= before_out.to_multiset().add(before_rest.to_multiset()));
        }
    }
    proof {
        assert(rest@ =~= Seq::<T>::empty());
        assert(rest@.to_multiset() =~= vstd::multiset::Multiset::empty());
        assert(out@.to_multiset().add(rest@.to_multiset()) =~= out@.to_multiset());
    }
    out
}

/// Whether no two entries share a key.
pub open spec fn distinct_keys<T: Ranked>(s: Seq<T>) -> bool {
    forall|i: int, j: int| 0 <= i < j < s.len() ==> (#[trigger] s[i]).rank_key() != (#[trigger] s[j]).rank_key()
}

/// Sorting is determined: two sorted arrangements of the same entries, whose keys are
/// distinct, are the same sequence.
pub proof fn lemma_sorted_arrangement_unique<T: Ranked>(x: Seq<T>, y: Seq<T>, by_recency: bool)
    requires
        sorted_by(x, rank_order::<T>(by_recency)),
        sorted_by(y, rank_order::<T>(by_recency)),
        x.to_multiset() == y.to_multiset(),
        distinct_keys(x),
    ensures
        x == y,
    decreases x.len(),
{
    broadcast use vstd::seq_lib::group_to_multiset_ensures;

    if x.len() == 0 || y.len() == 0 {
        assert(x.len() == x.to_multiset().len());
        assert(y.len() == y.to_multiset().len());
        assert(x =~= y);
    } else {
        assert(x.to_multiset().count(y[0]) > 0);
        assert(y.to_multiset().count(x[0]) > 0);
        let i = choose|i: int| 0 <= i < x.len() && x[i] == y[0];
        let j = choose|j: int| 0 <= j < y.len() && y[j] == x[0];
        assert(rank_order::<T>(by_recency)(x[0], x[i]) || i == 0);
        assert(rank_order::<T>(by_recency)(y[0], y[j]) || j == 0);
        lemma_seq_lt_order(x[0].rank_key(), x[i].rank_key(), x[0].rank_key());
        lemma_seq_lt_order(x[i].rank_key(), x[0].rank_key(), x[i].rank_key());
        if i != 0 {
            assert(x[0].rank_key() != x[i].rank_key());
        }
        assert(x[0] == y[0]);
        vstd::seq_lib::to_multiset_remove(x, 0);
        vstd::seq_lib::to_multiset_remove(y, 0);
        assert(x.remove(0) =~= x.drop_first());
        assert(y.remove(0) =~= y.drop_first());
        assert forall|a: int, b: int| 0 <= a < b < x.drop_first().len() implies (#[trigger] x.drop_first()[a]).rank_key()
            != (#[trigger] x.drop_first()[b]).rank_key() by {
            assert(x[a + 1].rank_key() != x[b + 1].rank_key());
        }
        assert forall|a: int, b: int| 0 <= a < b < x.drop_first().len() implies #[trigger] rank_order::<T>(by_recency)(
            x.drop_first()[a],
            x.drop_first()[b],
        ) by {
            assert(rank_order::<T>(by_recency)(x[a + 1], x[b + 1]));
        }
        assert forall|a: int, b: int| 0 <= a < b < y.drop_first().len() implies #[trigger] rank_order::<T>(by_recency)(
            y.drop_first()[a],
            y.drop_first()[b],
        ) by {
            assert(rank_order::<T>(by_recency)(y[a + 1], y[b + 1]));
        }
        lemma_sorted_arrangement_unique(x.drop_first(), y.drop_first(), by_recency);
        assert(x =~= seq![x[0]] + x.drop_first());
        assert(y =~= seq![y[0]] + y.drop_first());
    }
}

} // verus!
