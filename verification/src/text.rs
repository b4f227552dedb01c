//! Text helpers shared by the rest of the library: decimal rendering of
//! integers, character and substring searches, and small string transforms.

use vstd::prelude::*;
use vstd::utf8::{encode_utf8, is_char_boundary};
use vstd::string::StringSliceAdditionalSpecFns;

verus! {

/// The character of a decimal digit.
pub open spec fn digit_char(d: nat) -> char {
    ((48 + d) as u8) as char
}

/// Decimal representation of a natural number, without leading zeros.
pub open spec fn nat_to_decimal(n: nat) -> Seq<char>
    decreases n,
{
    if n < 10 {
        seq![digit_char(n)]
    } else {
        nat_to_decimal(n / 10).push(digit_char(n % 10))
    }
}

/// Decimal representation of an integer, with a leading minus sign when negative.
pub open spec fn int_to_decimal(i: int) -> Seq<char> {
    if i < 0 {
        seq!['-'] + nat_to_decimal((-i) as nat)
    } else {
        nat_to_decimal(i as nat)
    }
}

/// Appends one character to a string (`String::push`).
#[verifier::external_body]
pub(crate) fn push_char(s: &mut String, c: char)
    ensures
        final(s)@ == old(s)@.push(c),
{
    s.push(c);
}

/// Renders a natural number in decimal.
pub fn u64_to_decimal(n: u64) -> (r: String)
    ensures
        r@ == nat_to_decimal(n as nat),
    decreases n,
{
    if n < 10 {
        let mut r = String::new();
        push_char(&mut r, ((48 + n) as u8) as char);
        r
    } else {
        let mut r = u64_to_decimal(n / 10);
        let d = n % 10;
        push_char(&mut r, ((48 + d) as u8) as char);
        r
    }
}

/// Renders an integer in decimal.
pub fn i64_to_decimal(i: i64) -> (r: String)
    ensures
        r@ == int_to_decimal(i as int),
{
    if i < 0 {
        let mag: u64 = if i == i64::MIN {
            9223372036854775808u64
        } else {
            (-i) as u64
        };
        let mut r = String::new();
        push_char(&mut r, '-');
        let digits = u64_to_decimal(mag);
        r.append(digits.as_str());
        r
    } else {
        u64_to_decimal(i as u64)
    }
}

} // verus!

verus! {

/// An ASCII decimal digit.
pub open spec fn is_digit(c: char) -> bool {
    '0' <= c && c <= '9'
}

/// The value of a decimal digit character.
pub open spec fn digit_value(c: char) -> nat {
    (c as int - 48) as nat
}

/// The value of a sequence of decimal digits, most significant first.
pub open spec fn decimal_value(ds: Seq<char>) -> nat
    decreases ds.len(),
{
    if ds.len() == 0 {
        0
    } else {
        decimal_value(ds.drop_last()) * 10 + digit_value(ds.last())
    }
}

/// The characters of a string slice, one by one.
pub fn chars_of(s: &str) -> (v: Vec<char>)
    ensures
        v@ == s@,
{
    let n = s.unicode_len();
    let mut v: Vec<char> = Vec::new();
    let mut i: usize = 0;
    while i < n
        invariant
            n == s@.len(),
            i <= n,
            v@ == s@.subrange(0, i as int),
        decreases n - i,
    {
        v.push(s.get_char(i));
        i = i + 1;
        assert(v@ =~= s@.subrange(0, i as int));
    }
    assert(v@ =~= s@);
    v
}

/// Extending a digit sequence by one digit.
pub proof fn lemma_decimal_value_step(s: Seq<char>, p: int, k: int)
    requires
        0 <= p <= k < s.len(),
    ensures
        decimal_value(s.subrange(p, k + 1)) == decimal_value(s.subrange(p, k)) * 10
            + digit_value(s[k]),
{
    assert(s.subrange(p, k + 1).drop_last() =~= s.subrange(p, k));
}

/// Taking more digits never lowers the value.
pub proof fn lemma_decimal_value_grows(s: Seq<char>, p: int, j: int, q: int)
    requires
        0 <= p <= j <= q <= s.len(),
    ensures
        decimal_value(s.subrange(p, j)) <= decimal_value(s.subrange(p, q)),
    decreases q - j,
{
    if j < q {
        lemma_decimal_value_step(s, p, q - 1);
        lemma_decimal_value_grows(s, p, j, q - 1);
    }
}

/// The value of the digits `v[p..q]`, or `None` when it exceeds `i64::MAX`.
pub fn digits_value(v: &Vec<char>, p: usize, q: usize) -> (r: Option<u64>)
    requires
        p <= q <= v@.len(),
        forall|k: int| p <= k < q ==> is_digit(#[trigger] v@[k]),
    ensures
        match r {
            Some(x) => x == decimal_value(v@.subrange(p as int, q as int)) && x <= i64::MAX,
            None => decimal_value(v@.subrange(p as int, q as int)) > i64::MAX,
        },
{
    let mut acc: u64 = 0;
    let mut k: usize = p;
    assert(v@.subrange(p as int, p as int) =~= Seq::<char>::empty());
    while k < q
        invariant
            p <= k <= q <= v@.len(),
            forall|j: int| p <= j < q ==> is_digit(#[trigger] v@[j]),
            acc == decimal_value(v@.subrange(p as int, k as int)),
            acc <= i64::MAX,
        decreases q - k,
    {
        let c = v[k];
        assert(is_digit(v@[k as int]));
        let d: u64 = (c as u32 - 48) as u64;
        proof {
            lemma_decimal_value_step(v@, p as int, k as int);
        }
        if acc > (9223372036854775807u64 - d) / 10 {
            proof {
                lemma_decimal_value_grows(v@, p as int, k as int + 1, q as int);
            }
            return None;
        }
        acc = acc * 10 + d;
        k = k + 1;
    }
    Some(acc)
}

/// A text without its leading '+', if it has one.
pub open spec fn sign_stripped(s: Seq<char>) -> Seq<char> {
    if s.len() > 0 && s[0] == '+' {
        s.drop_first()
    } else {
        s
    }
}

/// Every character is a decimal digit.
pub open spec fn all_digits(d: Seq<char>) -> bool {
    forall|k: int| 0 <= k < d.len() ==> is_digit(#[trigger] d[k])
}

/// The value `u64::from_str` reads from a text: an optional '+' and then one or
/// more decimal digits, whose value must fit a `u64`; `None` for anything else.
pub open spec fn u64_text_value(s: Seq<char>) -> Option<nat> {
    let d = sign_stripped(s);
    if d.len() > 0 && all_digits(d) && decimal_value(d) <= u64::MAX {
        Some(decimal_value(d))
    } else {
        None
    }
}

/// The value of the digits `v[p..q]`, or `None` when it exceeds `u64::MAX`.
fn digits_value_u64(v: &Vec<char>, p: usize, q: usize) -> (r: Option<u64>)
    requires
        p <= q <= v@.len(),
        forall|k: int| p <= k < q ==> is_digit(#[trigger] v@[k]),
    ensures
        match r {
            Some(x) => x == decimal_value(v@.subrange(p as int, q as int)),
            None => decimal_value(v@.subrange(p as int, q as int)) > u64::MAX,
        },
{
    let mut acc: u64 = 0;
    let mut k: usize = p;
    assert(v@.subrange(p as int, p as int) =~= Seq::<char>::empty());
    while k < q
        invariant
            p <= k <= q <= v@.len(),
            forall|j: int| p <= j < q ==> is_digit(#[trigger] v@[j]),
            acc == decimal_value(v@.subrange(p as int, k as int)),
        decreases q - k,
    {
        let c = v[k];
        assert(is_digit(v@[k as int]));
        let d: u64 = (c as u32 - 48) as u64;
        proof {
            lemma_decimal_value_step(v@, p as int, k as int);
        }
        if acc > (18446744073709551615u64 - d) / 10 {
            proof {
                lemma_decimal_value_grows(v@, p as int, k as int + 1, q as int);
            }
            return None;
        }
        acc = acc * 10 + d;
        k = k + 1;
    }
    Some(acc)
}

/// Reads a `u64` as `u64::from_str` does, as [`u64_text_value`] says.
pub fn parse_u64(s: &str) -> (r: Option<u64>)
    ensures
        match r {
            Some(x) => u64_text_value(s@) == Some(x as nat),
            None => u64_text_value(s@) is None,
        },
{
    let v = chars_of(s);
    let n = v.len();
    let p: usize = if n > 0 && v[0] == '+' { 1 } else { 0 };
    let ghost d = sign_stripped(s@);
    assert(d =~= v@.subrange(p as int, n as int));
    if p >= n {
        assert(d.len() == 0);
        return None;
    }
    let mut k: usize = p;
    while k < n && '0' <= v[k] && v[k] <= '9'
        invariant
            p <= k <= n,
            n == v@.len(),
            forall|j: int| p <= j < k ==> is_digit(#[trigger] v@[j]),
        decreases n - k,
    {
        k = k + 1;
    }
    if k < n {
        assert(d[k - p] == v@[k as int]);
        assert(!is_digit(d[k - p]));
        return None;
    }
    assert(all_digits(d)) by {
        assert forall|i: int| 0 <= i < d.len() implies is_digit(#[trigger] d[i]) by {
            assert(d[i] == v@[i + p]);
        }
    }
    digits_value_u64(&v, p, n)
}

} // verus!

verus! {

/// The name of `char::to_uppercase`'s result: the uppercase mapping of a character,
/// one or more characters long.
pub uninterp spec fn uppercase_mapping(c: char) -> Seq<char>;

/// `char::to_uppercase`, collected into a string. The standard library documents
/// that ASCII letters `a`-`z` map to `A`-`Z` and that a character without an
/// uppercase mapping maps to itself, which covers every other ASCII character; the
/// Unicode mapping of other characters is left to the name.
#[verifier::external_body]
fn char_to_uppercase(c: char) -> (r: String)
    ensures
        r@ == uppercase_mapping(c),
        'a' <= c <= 'z' ==> r@ == seq![((c as u32) - 32) as char],
        (c as u32) < 128 && !('a' <= c <= 'z') ==> r@ == seq![c],
{
    c.to_uppercase().collect::<String>()
}

/// A string with its first character upper-cased.
pub open spec fn capitalized(s: Seq<char>) -> Seq<char> {
    if s.len() == 0 {
        Seq::<char>::empty()
    } else {
        uppercase_mapping(s[0]) + s.drop_first()
    }
}

/// The uppercase of an ASCII character: `a`-`z` become `A`-`Z`, the rest stays.
pub open spec fn ascii_upper(c: char) -> char {
    if 'a' <= c <= 'z' { ((c as u32) - 32) as char } else { c }
}

/// Upper-cases the first character of a string and keeps the rest; an ASCII first
/// character is upper-cased as [`ascii_upper`] says.
pub fn capitalize(s: &str) -> (r: String)
    ensures
        r@ == capitalized(s@),
        s@.len() > 0 && (s@[0] as u32) < 128 ==> r@ == seq![ascii_upper(s@[0])] + s@.drop_first(),
{
    let n = s.unicode_len();
    if n == 0 {
        return String::new();
    }
    let first = s.get_char(0);
    let mut r = char_to_uppercase(first);
    let rest = s.substring_char(1, n);
    r.append(rest);
    assert(s@.subrange(1, n as int) =~= s@.drop_first());
    r
}

/// The position of the last '.' before index `i`, or 0 when there is none.
pub open spec fn last_dot_before(text: Seq<char>, i: int) -> int
    decreases i,
{
    if i <= 0 {
        0
    } else if text[i - 1] == '.' {
        i - 1
    } else {
        last_dot_before(text, i - 1)
    }
}

/// The character scan of [`cutoff_on_last_dot`] stops at index `i`: it is at or past
/// `length - 1` and is not a '.'.
pub open spec fn cut_stops_at(text: Seq<char>, length: int, i: int) -> bool {
    0 <= i < text.len() && i + 1 >= length && text[i] != '.'
}

/// Where [`cutoff_on_last_dot`] cuts, as a byte offset into the text: `None` when
/// the scan never stops and the whole text is kept; otherwise just after the last
/// '.' before the stop, or at `length` when no '.' (past the first character) precedes it.
pub open spec fn cutoff_end(text: Seq<char>, length: int) -> Option<int> {
    if exists|i: int| cut_stops_at(text, length, i) {
        let i = choose|i: int|
            cut_stops_at(text, length, i) && forall|j: int|
                j < i ==> !#[trigger] cut_stops_at(text, length, j);
        let last = last_dot_before(text, i);
        Some(if last == 0 { length } else { last + 1 })
    } else {
        None
    }
}

/// Where [`cutoff_on_last_dot`] cuts `text` for `length`, as a byte offset, or
/// `None` when it keeps the whole text.
pub fn cutoff_position(text: &str, length: usize) -> (r: Option<usize>)
    requires
        length > 0 || cutoff_end(text@, 0) is None,
    ensures
        match cutoff_end(text@, length as int) {
            Some(b) => r == Some(b as usize) && b == r.unwrap() as int,
            None => r is None,
        },
{
    let v = chars_of(text);
    let n = v.len();
    let mut last: usize = 0;
    let mut i: usize = 0;
    while i < n
        invariant
            n == v@.len(),
            v@ == text@,
            i <= n,
            last == last_dot_before(text@, i as int),
            last <= i,
            forall|j: int| j < i ==> !#[trigger] cut_stops_at(text@, length as int, j),
            length > 0 || cutoff_end(text@, 0) is None,
        decreases n - i,
    {
        if v[i] == '.' {
            last = i;
        } else if length == 0 || i >= length - 1 {
            proof {
                if length == 0 {
                    assert(cut_stops_at(text@, 0, i as int));
                }
                assert(cut_stops_at(text@, length as int, i as int));
                let ic = choose|ic: int|
                    cut_stops_at(text@, length as int, ic) && forall|j: int|
                        j < ic ==> !#[trigger] cut_stops_at(text@, length as int, j);
                assert(ic == i);
                assert(cutoff_end(text@, length as int) == Some(
                    if last == 0 { length as int } else { last + 1 },
                ));
            }
            let b: usize = if last == 0 { length } else { last + 1 };
            return Some(b);
        }
        i = i + 1;
    }
    None
}

/// Shortens `text` to end on a full sentence: at the first character past
/// `length - 1` that is not a '.', the text is cut just after the last '.' seen so
/// far, or at `length` bytes when there was none. Positions are counted in
/// characters and the cut is made at that same number of bytes, so the cut must
/// fall on a character boundary of the text.
pub fn cutoff_on_last_dot<'a>(text: &'a str, length: usize) -> (r: &'a str)
    requires
        length > 0 || cutoff_end(text@, 0) is None,
        cutoff_end(text@, length as int) matches Some(b) ==> is_char_boundary(
            text.spec_bytes(),
            b,
        ),
    ensures
        match cutoff_end(text@, length as int) {
            Some(b) => r.spec_bytes() == text.spec_bytes().subrange(0, b),
            None => r@ == text@,
        },
{
    match cutoff_position(text, length) {
        Some(b) => {
            let (head, _tail) = text.split_at(b);
            head
        },
        None => text,
    }
}

/// `s` up to (not including) the first occurrence of `c`.
pub open spec fn take_until(s: Seq<char>, c: char) -> Seq<char>
    decreases s.len(),
{
    if s.len() == 0 {
        s
    } else if s[0] == c {
        Seq::<char>::empty()
    } else {
        seq![s[0]] + take_until(s.drop_first(), c)
    }
}

/// `s` with every `from` character replaced by `to`.
pub open spec fn replace_char(s: Seq<char>, from: char, to: char) -> Seq<char> {
    s.map_values(|x: char| if x == from { to } else { x })
}

/// The text before the first space, with '-' turned into '/': the date part of an
/// EPIC image timestamp such as "2019-05-30 00:31:45" becomes "2019/05/30".
pub fn get_date_epic_image(full: &str) -> (r: String)
    ensures
        r@ == replace_char(take_until(full@, ' '), '-', '/'),
{
    let v = chars_of(full);
    let n = v.len();
    let mut r = String::new();
    let mut i: usize = 0;
    assert(v@.skip(0) =~= v@);
    assert(v@.subrange(0, 0) =~= Seq::<char>::empty());
    while i < n && v[i] != ' '
        invariant
            n == v@.len(),
            v@ == full@,
            i <= n,
            forall|j: int| 0 <= j < i ==> v@[j] != ' ',
            r@ == replace_char(v@.subrange(0, i as int), '-', '/'),
            take_until(v@, ' ') == v@.subrange(0, i as int) + take_until(v@.skip(i as int), ' '),
        decreases n - i,
    {
        let c = v[i];
        push_char(&mut r, if c == '-' { '/' } else { c });
        proof {
            let rest = v@.skip(i as int);
            assert(rest[0] == c);
            assert(rest.drop_first() =~= v@.skip(i + 1));
            assert(v@.subrange(0, i + 1) =~= v@.subrange(0, i as int) + seq![c]);
        }
        i = i + 1;
        assert(r@ =~= replace_char(v@.subrange(0, i as int), '-', '/'));
    }
    proof {
        let rest = v@.skip(i as int);
        if i < n {
            assert(rest[0] == ' ');
        } else {
            assert(rest.len() == 0);
        }
        assert(take_until(rest, ' ') =~= Seq::<char>::empty());
        assert(take_until(v@, ' ') =~= v@.subrange(0, i as int));
    }
    r
}

} // verus!

verus! {

/// Whether `v[from..]` starts with `pat`.
pub fn has_at(v: &Vec<char>, from: usize, pat: &Vec<char>) -> (r: bool)
    ensures
        r == (from + pat@.len() <= v@.len() && v@.subrange(
            from as int,
            from + pat@.len(),
        ) == pat@),
{
    if from > v.len() || pat.len() > v.len() - from {
        return false;
    }
    let mut i: usize = 0;
    while i < pat.len()
        invariant
            from + pat@.len() <= v@.len(),
            v@.len() <= usize::MAX,
            i <= pat@.len(),
            forall|j: int| 0 <= j < i ==> v@[from + j] == pat@[j],
        decreases pat@.len() - i,
    {
        if v[from + i] != pat[i] {
            assert(v@.subrange(from as int, from + pat@.len())[i as int] != pat@[i as int]);
            return false;
        }
        i = i + 1;
    }
    assert(v@.subrange(from as int, from + pat@.len()) =~= pat@);
    true
}

/// `s` with every occurrence of `pat` replaced by `rep`, scanning from the left and
/// never letting two replaced occurrences overlap (`str::replace`).
pub open spec fn replace_all(s: Seq<char>, pat: Seq<char>, rep: Seq<char>) -> Seq<char>
    decreases s.len(),
{
    if pat.len() == 0 || s.len() == 0 {
        s
    } else if pat.len() <= s.len() && s.take(pat.len() as int) == pat {
        rep + replace_all(s.skip(pat.len() as int), pat, rep)
    } else {
        seq![s[0]] + replace_all(s.drop_first(), pat, rep)
    }
}

/// Replaces every occurrence of `pat` in `s` by `rep`.
pub fn replace_all_str(s: &str, pat: &str, rep: &str) -> (r: String)
    requires
        pat@.len() > 0,
    ensures
        r@ == replace_all(s@, pat@, rep@),
{
    let v = chars_of(s);
    let p = chars_of(pat);
    let n = v.len();
    let mut r = String::new();
    let mut i: usize = 0;
    assert(v@.skip(0) =~= v@);
    while i < n
        invariant
            n == v@.len(),
            v@ == s@,
            p@ == pat@,
            pat@.len() > 0,
            i <= n,
            r@ + replace_all(v@.skip(i as int), pat@, rep@) == replace_all(s@, pat@, rep@),
        decreases n - i,
    {
        let ghost rest = v@.skip(i as int);
        if has_at(&v, i, &p) {
            r.append(rep);
            proof {
                assert(rest.take(pat@.len() as int) =~= v@.subrange(i as int, i + pat@.len()));
                assert(rest.skip(pat@.len() as int) =~= v@.skip(i + pat@.len()));
            }
            i = i + p.len();
        } else {
            push_char(&mut r, v[i]);
            proof {
                if pat@.len() <= rest.len() {
                    assert(rest.take(pat@.len() as int) =~= v@.subrange(i as int, i + pat@.len()));
                }
                assert(rest.drop_first() =~= v@.skip(i + 1));
            }
            i = i + 1;
        }
    }
    assert(v@.skip(n as int) =~= Seq::<char>::empty());
    r
}

/// `pat` occurs somewhere in `s`.
pub open spec fn contains_seq(s: Seq<char>, pat: Seq<char>) -> bool {
    exists|i: int| 0 <= i && i + pat.len() <= s.len() && #[trigger] s.subrange(i, i + pat.len()) == pat
}

/// Whether `pat` occurs in `s` (`str::contains`).
pub fn contains_str(s: &str, pat: &str) -> (r: bool)
    ensures
        r == contains_seq(s@, pat@),
{
    let v = chars_of(s);
    let p = chars_of(pat);
    let n = v.len();
    let mut i: usize = 0;
    while i < n
        invariant
            n == v@.len(),
            v@ == s@,
            p@ == pat@,
            i <= n,
            forall|j: int| 0 <= j < i && j + pat@.len() <= s@.len() ==> #[trigger] s@.subrange(j, j + pat@.len()) != pat@,
        decreases n - i,
    {
        if has_at(&v, i, &p) {
            return true;
        }
        i = i + 1;
    }
    has_at(&v, n, &p)
}

/// `s` with every leading repetition of `pat` removed (`str::trim_start_matches`).
pub open spec fn strip_leading(s: Seq<char>, pat: Seq<char>) -> Seq<char>
    decreases s.len(),
{
    if pat.len() > 0 && pat.len() <= s.len() && s.take(pat.len() as int) == pat {
        strip_leading(s.skip(pat.len() as int), pat)
    } else {
        s
    }
}

/// Removes every leading repetition of `pat` from `s`.
pub fn strip_leading_str(s: &str, pat: &str) -> (r: String)
    ensures
        r@ == strip_leading(s@, pat@),
{
    let v = chars_of(s);
    let p = chars_of(pat);
    let n = v.len();
    let mut i: usize = 0;
    assert(v@.skip(0) =~= v@);
    while p.len() > 0 && has_at(&v, i, &p)
        invariant
            n == v@.len(),
            v@ == s@,
            p@ == pat@,
            i <= n,
            strip_leading(v@.skip(i as int), pat@) == strip_leading(s@, pat@),
        decreases n - i,
    {
        proof {
            let rest = v@.skip(i as int);
            assert(rest.take(pat@.len() as int) =~= v@.subrange(i as int, i + pat@.len()));
            assert(rest.skip(pat@.len() as int) =~= v@.skip(i + pat@.len()));
        }
        i = i + p.len();
    }
    proof {
        let rest = v@.skip(i as int);
        if pat@.len() > 0 && pat@.len() <= rest.len() {
            assert(rest.take(pat@.len() as int) =~= v@.subrange(i as int, i + pat@.len()));
        }
    }
    let r = s.substring_char(i, n);
    assert(r@ =~= v@.skip(i as int));
    String::from_str(r)
}

} // verus!

verus! {

/// The UTF-8 encoding of two texts put together is the two encodings put together.
pub proof fn lemma_encode_utf8_concat(a: Seq<char>, b: Seq<char>)
    ensures
        encode_utf8(a + b) == encode_utf8(a) + encode_utf8(b),
    decreases a.len(),
{
    if a.len() == 0 {
        assert(a + b =~= b);
        assert(encode_utf8(a) + encode_utf8(b) =~= encode_utf8(b));
    } else {
        assert((a + b).drop_first() =~= a.drop_first() + b);
        assert((a + b)[0] == a[0]);
        lemma_encode_utf8_concat(a.drop_first(), b);
        assert(encode_utf8(a + b) =~= encode_utf8(a) + encode_utf8(b));
    }
}

/// Whether `s` starts with `prefix` (`str::starts_with`).
pub fn starts_with_str(s: &str, prefix: &str) -> (r: bool)
    ensures
        r == prefix@.is_prefix_of(s@),
{
    let v = chars_of(s);
    let p = chars_of(prefix);
    has_at(&v, 0, &p)
}

/// Whether two string slices hold the same characters.
pub fn str_eq(a: &str, b: &str) -> (r: bool)
    ensures
        r == (a@ == b@),
{
    let x = String::from_str(a);
    let y = String::from_str(b);
    x.eq(&y)
}

/// The name of `str::to_lowercase`'s result: the lowercase mapping of a text.
pub uninterp spec fn lowercase_mapping(s: Seq<char>) -> Seq<char>;

/// The lowercase mapping of an ASCII text: `A`-`Z` become `a`-`z`, the rest stays.
pub open spec fn ascii_lowercase(s: Seq<char>) -> Seq<char> {
    s.map_values(|c: char| if 'A' <= c <= 'Z' { ((c as u32) + 32) as char } else { c })
}

/// `str::to_lowercase`. The standard library documents the mapping as Unicode's
/// lowercase mapping, which on ASCII text turns `A`-`Z` into `a`-`z` and keeps
/// every other character; the mapping of other characters is left to the name.
#[verifier::external_body]
pub(crate) fn to_lowercase(s: &str) -> (r: String)
    ensures
        r@ == lowercase_mapping(s@),
        (forall|i: int| 0 <= i < s@.len() ==> (#[trigger] s@[i] as u32) < 128) ==> r@ == ascii_lowercase(s@),
{
    s.to_lowercase()
}

} // verus!

