//! Keeping the first of equal texts, in order.

use vstd::prelude::*;
use crate::text::str_eq;

verus! {

/// The positions of the texts of `s` that do not occur earlier in `s`, in order.
pub open spec fn first_positions(s: Seq<Seq<char>>) -> Seq<int>
    decreases s.len(),
{
    if s.len() == 0 {
        Seq::<int>::empty()
    } else if s.drop_last().contains(s.last()) {
        first_positions(s.drop_last())
    } else {
        first_positions(s.drop_last()).push(s.len() - 1)
    }
}

/// The texts held by a vector of strings.
pub open spec fn texts(v: Seq<String>) -> Seq<Seq<char>> {
    v.map_values(|k: String| k@)
}

/// One more text: [`first_positions`] grows by its position exactly when it does
/// not occur before.
proof fn lemma_first_positions_step(s: Seq<Seq<char>>, i: int)
    requires
        0 <= i < s.len(),
    ensures
        first_positions(s.take(i + 1)) == (if s.take(i).contains(s[i]) {
            first_positions(s.take(i))
        } else {
            first_positions(s.take(i)).push(i)
        }),
{
    let t = s.take(i + 1);
    assert(t.drop_last() =~= s.take(i));
    assert(t.last() == s[i]);
}

/// The text at position `k` of `s` is also at one of the positions `r`.
spec fn seen_at(s: Seq<Seq<char>>, r: Seq<usize>, k: int) -> bool {
    exists|m: int| 0 <= m < r.len() && s[r[m] as int] == s[k]
}

/// The positions of the first occurrence of each text of `keys`, in order
/// (the first row of each key).
pub fn first_occurrences(keys: &Vec<String>) -> (r: Vec<usize>)
    ensures
        r@.map_values(|i: usize| i as int) == first_positions(texts(keys@)),
        forall|m: int| 0 <= m < r@.len() ==> #[trigger] r@[m] < keys@.len(),
{
    let ghost s = texts(keys@);
    let mut r: Vec<usize> = Vec::new();
    let mut i: usize = 0;
    while i < keys.len()
        invariant
            i <= keys@.len(),
            s == texts(keys@),
            r@.len() == first_positions(s.take(i as int)).len(),
            forall|m: int| 0 <= m < r@.len() ==> #[trigger] r@[m] as int == first_positions(s.take(i as int))[m],
            forall|m: int| 0 <= m < r@.len() ==> #[trigger] r@[m] < i,
            forall|k: int| 0 <= k < i ==> #[trigger] seen_at(s, r@, k),
        decreases keys@.len() - i,
    {
        let mut found = false;
        let mut j: usize = 0;
        while j < r.len()
            invariant
                i < keys@.len(),
                s == texts(keys@),
                j <= r@.len(),
                forall|m: int| 0 <= m < r@.len() ==> #[trigger] r@[m] < i,
                found ==> s.take(i as int).contains(s[i as int]),
                !found ==> forall|m: int| 0 <= m < j ==> s[#[trigger] r@[m] as int] != s[i as int],
            decreases r@.len() - j,
        {
            let k = r[j];
            if str_eq(keys[k].as_str(), keys[i].as_str()) {
                assert(s.take(i as int)[k as int] == s[i as int]);
                found = true;
            }
            j = j + 1;
        }
        proof {
            lemma_first_positions_step(s, i as int);
            if !found && s.take(i as int).contains(s[i as int]) {
                let k = choose|k: int| 0 <= k < i && s.take(i as int)[k] == s[i as int];
                assert(s[k] == s.take(i as int)[k]);
                assert(seen_at(s, r@, k));
                let m = choose|m: int| 0 <= m < r@.len() && s[r@[m] as int] == s[k];
                assert(s[r@[m] as int] != s[i as int]);
            }
        }
        let ghost before = r@;
        if !found {
            r.push(i);
        }
        proof {
            assert forall|k: int| 0 <= k < i + 1 implies #[trigger] seen_at(s, r@, k) by {
                if k < i {
                    assert(seen_at(s, before, k));
                    let m = choose|m: int| 0 <= m < before.len() && s[before[m] as int] == s[k];
                    assert(r@[m] == before[m]);
                } else if !found {
                    assert(r@[r@.len() - 1] == i);
                } else {
                    let k2 = choose|k2: int| 0 <= k2 < i && s.take(i as int)[k2] == s[i as int];
                    assert(s[k2] == s.take(i as int)[k2]);
                    assert(seen_at(s, before, k2));
                    let m = choose|m: int| 0 <= m < before.len() && s[before[m] as int] == s[k2];
                    assert(r@[m] == before[m]);
                }
            }
        }
        i = i + 1;
    }
    assert(s.take(keys@.len() as int) =~= s);
    assert(r@.map_values(|x: usize| x as int) =~= first_positions(s));
    r
}

/// The texts of `v` without repeats, each where it first occurs.
pub fn unique_texts(v: &Vec<String>) -> (r: Vec<String>)
    ensures
        texts(r@) == first_positions(texts(v@)).map_values(|i: int| v@[i]@),
{
    let idx = first_occurrences(v);
    let ghost f = first_positions(texts(v@));
    let mut r: Vec<String> = Vec::new();
    let mut j: usize = 0;
    while j < idx.len()
        invariant
            j <= idx@.len(),
            idx@.map_values(|x: usize| x as int) == f,
            forall|m: int| 0 <= m < idx@.len() ==> #[trigger] idx@[m] < v@.len(),
            r@.len() == j,
            forall|m: int| 0 <= m < j ==> (#[trigger] r@[m])@ == v@[f[m]]@,
        decreases idx@.len() - j,
    {
        let k = idx[j];
        assert(f[j as int] == k as int);
        r.push(v[k].clone());
        j = j + 1;
    }
    assert(texts(r@) =~= f.map_values(|i: int| v@[i]@));
    r
}

} // verus!
