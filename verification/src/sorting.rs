//! Stable sorting by an integer key, as `slice::sort_by_key` does it.

use vstd::prelude::*;
use vstd::seq_lib::{to_multiset_build, to_multiset_insert};

verus! {

/// A value that carries an integer key to order it by.
pub trait SortKey {
    /// The key, as a mathematical integer.
    spec fn sort_key(&self) -> int;

    /// Computes the key.
    fn key(&self) -> (k: i64)
        ensures
            k == self.sort_key(),
    ;
}

/// The keys never decrease along the sequence.
pub open spec fn key_sorted<T: SortKey>(s: Seq<T>) -> bool {
    forall|i: int, j: int| 0 <= i <= j < s.len() ==> #[trigger] s[i].sort_key() <= #[trigger] s[j].sort_key()
}

/// The predicate "has key `k`".
pub open spec fn has_key<T: SortKey>(k: int) -> spec_fn(T) -> bool {
    |x: T| x.sort_key() == k
}

/// The elements whose key is `k`, in their order in `s`.
pub open spec fn with_key<T: SortKey>(s: Seq<T>, k: int) -> Seq<T> {
    s.filter(has_key(k))
}

/// `r` is `s` sorted by key, with elements of equal key in the order they came in:
/// the sorted sequence that has, for every key, the same elements with that key in
/// the same order as `s`.
pub open spec fn is_stable_sort_of<T: SortKey>(r: Seq<T>, s: Seq<T>) -> bool {
    key_sorted(r) && forall|k: int| #[trigger] with_key(r, k) == with_key(s, k)
}

/// Inserting `x` after every element of key at most its own, and before every
/// element of larger key, keeps the key groups in order and appends `x` to its own.
proof fn lemma_insert_keeps_key_groups<T: SortKey>(out: Seq<T>, j: int, x: T, k: int)
    requires
        0 <= j <= out.len(),
        forall|i: int| j <= i < out.len() ==> #[trigger] out[i].sort_key() > x.sort_key(),
    ensures
        with_key(out.insert(j, x), k) == if x.sort_key() == k {
            with_key(out, k).push(x)
        } else {
            with_key(out, k)
        },
{
    let pred = has_key::<T>(k);
    let a = out.subrange(0, j);
    let b = out.subrange(j, out.len() as int);
    assert(out =~= a + b);
    assert(out.insert(j, x) =~= a.push(x) + b);
    Seq::filter_distributes_over_add(a, b, pred);
    Seq::filter_distributes_over_add(a.push(x), b, pred);
    a.lemma_filter_push(x, pred);
    if x.sort_key() == k {
        assert forall|i: int| 0 <= i < b.len() implies !pred(#[trigger] b[i]) by {
            assert(b[i] == out[j + i]);
        }
        assert(b.all(|y: T| !pred(y)));
        assert(pred(x));
        b.lemma_all_neg_filter_empty(pred);
        assert(b.filter(pred) =~= Seq::<T>::empty());
        assert(with_key(out, k) =~= a.filter(pred));
    }
}

/// Sorts by key, keeping elements of equal key in the order they came in.
pub fn stable_sort_by_key<T: SortKey>(v: Vec<T>) -> (r: Vec<T>)
    ensures
        is_stable_sort_of(r@, v@),
        r@.len() == v@.len(),
        r@.to_multiset() == v@.to_multiset(),
{
    let ghost orig = v@;
    let mut input = v;
    let mut out: Vec<T> = Vec::new();
    let ghost mut c: int = 0;
    assert(orig.skip(0) =~= orig);
    assert(orig.take(0) =~= Seq::<T>::empty());
    assert(out@.to_multiset() =~= orig.take(0).to_multiset()) by {
        assert(out@ =~= orig.take(0));
    }
    assert forall|k: int| #[trigger] with_key(out@, k) == with_key(orig.take(0), k) by {
        assert(orig.take(0) =~= Seq::<T>::empty());
        assert(out@ =~= Seq::<T>::empty());
    }
    while input.len() > 0
        invariant
            0 <= c <= orig.len(),
            input@ == orig.skip(c),
            out@.len() == c,
            out@.to_multiset() == orig.take(c).to_multiset(),
            key_sorted(out@),
            forall|k: int| #[trigger] with_key(out@, k) == with_key(orig.take(c), k),
        decreases input@.len(),
    {
        let x = input.remove(0);
        let kx = x.key();
        let mut j = out.len();
        while j > 0 && out[j - 1].key() > kx
            invariant
                j <= out@.len(),
                forall|i: int| j <= i < out@.len() ==> #[trigger] out@[i].sort_key() > kx,
            decreases j,
        {
            j = j - 1;
        }
        let ghost before = out@;
        out.insert(j, x);
        proof {
            assert(x == orig[c]);
            assert(input@ =~= orig.skip(c + 1));
            assert(orig.take(c + 1) =~= orig.take(c).push(x));
            to_multiset_insert(before, j as int, x);
            to_multiset_build(orig.take(c), x);
            assert forall|k: int| #[trigger] with_key(out@, k) == with_key(orig.take(c + 1), k) by {
                lemma_insert_keeps_key_groups(before, j as int, x, k);
                orig.take(c).lemma_filter_push(x, has_key::<T>(k));
            }
            assert forall|a: int, b: int| 0 <= a <= b < out@.len() implies #[trigger] out@[a].sort_key()
                <= #[trigger] out@[b].sort_key() by {
                if a < j && b < j {
                    assert(out@[a] == before[a] && out@[b] == before[b]);
                } else if a < j && b == j {
                    assert(out@[a] == before[a]);
                    assert(before[a].sort_key() <= before[j - 1].sort_key());
                } else if a < j {
                    assert(out@[a] == before[a] && out@[b] == before[b - 1]);
                } else if a == j && b > j {
                    assert(out@[b] == before[b - 1]);
                } else if a > j {
                    assert(out@[a] == before[a - 1] && out@[b] == before[b - 1]);
                }
            }
            c = c + 1;
        }
    }
    assert(orig.take(c) =~= orig);
    out
}

} // verus!
