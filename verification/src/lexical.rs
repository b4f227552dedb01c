//! The order of strings (`str`'s `Ord`: character by character, a proper prefix
//! first) and sorting by a text key.

use vstd::prelude::*;
use vstd::seq_lib::{to_multiset_build, to_multiset_insert};
use crate::text::chars_of;

verus! {

/// `a` comes no later than `b` in the order of strings: at the first position where
/// they differ, `a` holds the smaller character, or `a` ends first.
pub open spec fn lex_le(a: Seq<char>, b: Seq<char>) -> bool
    decreases a.len(),
{
    if a.len() == 0 {
        true
    } else if b.len() == 0 {
        false
    } else if a[0] != b[0] {
        a[0] < b[0]
    } else {
        lex_le(a.drop_first(), b.drop_first())
    }
}

/// Any two strings are ordered one way or the other.
pub proof fn lemma_lex_total(a: Seq<char>, b: Seq<char>)
    ensures
        lex_le(a, b) || lex_le(b, a),
    decreases a.len(),
{
    if a.len() > 0 && b.len() > 0 && a[0] == b[0] {
        lemma_lex_total(a.drop_first(), b.drop_first());
    }
}

/// A common prefix does not change the order.
proof fn lemma_lex_skip(a: Seq<char>, b: Seq<char>, i: int)
    requires
        0 <= i <= a.len(),
        i <= b.len(),
        a.subrange(0, i) == b.subrange(0, i),
    ensures
        lex_le(a, b) == lex_le(a.skip(i), b.skip(i)),
    decreases i,
{
    if i > 0 {
        assert(a[0] == a.subrange(0, i)[0]);
        assert(b[0] == b.subrange(0, i)[0]);
        assert(a.drop_first().subrange(0, i - 1) =~= a.subrange(0, i).drop_first());
        assert(b.drop_first().subrange(0, i - 1) =~= b.subrange(0, i).drop_first());
        lemma_lex_skip(a.drop_first(), b.drop_first(), i - 1);
        assert(a.drop_first().skip(i - 1) =~= a.skip(i));
        assert(b.drop_first().skip(i - 1) =~= b.skip(i));
    } else {
        assert(a.skip(0) =~= a);
        assert(b.skip(0) =~= b);
    }
}

/// Whether `a` comes no later than `b` in the order of strings.
pub fn str_lex_le(a: &str, b: &str) -> (r: bool)
    ensures
        r == lex_le(a@, b@),
{
    let x = chars_of(a);
    let y = chars_of(b);
    let mut i: usize = 0;
    while i < x.len() && i < y.len() && x[i] == y[i]
        invariant
            x@ == a@,
            y@ == b@,
            i <= x@.len(),
            i <= y@.len(),
            x@.subrange(0, i as int) == y@.subrange(0, i as int),
        decreases x@.len() - i,
    {
        proof {
            assert(x@.subrange(0, i + 1) =~= x@.subrange(0, i as int).push(x@[i as int]));
            assert(y@.subrange(0, i + 1) =~= y@.subrange(0, i as int).push(y@[i as int]));
        }
        i = i + 1;
    }
    proof {
        lemma_lex_skip(a@, b@, i as int);
        if i < x@.len() && i < y@.len() {
            assert(a@.skip(i as int)[0] == x@[i as int]);
            assert(b@.skip(i as int)[0] == y@[i as int]);
        }
    }
    if i == x.len() {
        true
    } else if i == y.len() {
        false
    } else {
        x[i] < y[i]
    }
}

/// A value ordered by a text.
pub trait TextKey {
    /// The text, as a sequence of characters.
    spec fn text_key(&self) -> Seq<char>;

    /// The text.
    fn key_str(&self) -> (r: &str)
        ensures
            r@ == self.text_key(),
    ;
}

impl TextKey for String {
    open spec fn text_key(&self) -> Seq<char> {
        self@
    }

    fn key_str(&self) -> (r: &str) {
        self.as_str()
    }
}

/// Each element's text comes no later than the next one's.
pub open spec fn text_sorted<T: TextKey>(s: Seq<T>) -> bool {
    forall|i: int| 0 <= i < s.len() - 1 ==> lex_le(#[trigger] s[i].text_key(), s[i + 1].text_key())
}

/// Sorts by text, keeping elements with the same text in the order they came in.
pub fn sort_by_text<T: TextKey>(v: Vec<T>) -> (r: Vec<T>)
    ensures
        text_sorted(r@),
        r@.to_multiset() == v@.to_multiset(),
        r@.len() == v@.len(),
{
    let ghost orig = v@;
    let mut input = v;
    let mut out: Vec<T> = Vec::new();
    let ghost mut c: int = 0;
    assert(orig.skip(0) =~= orig);
    assert(out@ =~= orig.take(0));
    while input.len() > 0
        invariant
            0 <= c <= orig.len(),
            input@ == orig.skip(c),
            out@.len() == c,
            out@.to_multiset() == orig.take(c).to_multiset(),
            text_sorted(out@),
        decreases input@.len(),
    {
        let x = input.remove(0);
        let mut j = out.len();
        while j > 0 && !str_lex_le(out[j - 1].key_str(), x.key_str())
            invariant
                j <= out@.len(),
                j < out@.len() ==> !lex_le(out@[j as int].text_key(), x.text_key()),
            decreases j,
        {
            j = j - 1;
        }
        let ghost before = out@;
        proof {
            if j < before.len() {
                lemma_lex_total(before[j as int].text_key(), x.text_key());
            }
        }
        out.insert(j, x);
        proof {
            assert(x == orig[c]);
            assert(input@ =~= orig.skip(c + 1));
            assert(orig.take(c + 1) =~= orig.take(c).push(x));
            to_multiset_insert(before, j as int, x);
            to_multiset_build(orig.take(c), x);
            assert forall|i: int| 0 <= i < out@.len() - 1 implies lex_le(
                #[trigger] out@[i].text_key(),
                out@[i + 1].text_key(),
            ) by {
                if i < j - 1 {
                    assert(out@[i] == before[i] && out@[i + 1] == before[i + 1]);
                } else if i == j - 1 {
                    assert(out@[i] == before[i]);
                } else if i == j {
                    assert(out@[i + 1] == before[j as int]);
                } else {
                    assert(out@[i] == before[i - 1] && out@[i + 1] == before[i]);
                }
            }
            c = c + 1;
        }
    }
    assert(orig.take(c) =~= orig);
    out
}

} // verus!
