//! Durations, counted in whole seconds: their rendering as English text
//! ("2 days, 8 hours and 5 minutes") and their recovery from such text.

use vstd::prelude::*;
use vstd::arithmetic::div_mod::{lemma_div_denominator, lemma_fundamental_div_mod, lemma_mod_pos_bound};
use crate::text::{
    chars_of, decimal_value, digit_char, digit_value, digits_value, has_at, i64_to_decimal,
    int_to_decimal, is_digit, nat_to_decimal, push_char,
};

verus! {

/// Division of integers rounding toward zero, as Rust's `/` on `i64` does.
pub open spec fn div_toward_zero(a: int, b: int) -> int {
    if a >= 0 { a / b } else { -((-a) / b) }
}

/// Whole days in a duration.
pub open spec fn whole_days(secs: int) -> int {
    div_toward_zero(secs, 86400)
}

/// Hours beyond the whole days.
pub open spec fn rest_hours(secs: int) -> int {
    div_toward_zero(secs, 3600) - whole_days(secs) * 24
}

/// Minutes beyond the whole hours.
pub open spec fn rest_minutes(secs: int) -> int {
    div_toward_zero(secs, 60) - div_toward_zero(secs, 3600) * 60
}

/// Seconds beyond the whole minutes.
pub open spec fn rest_seconds(secs: int) -> int {
    secs - div_toward_zero(secs, 60) * 60
}

/// "`n` unit", with a plural "s" unless `n` is one.
pub open spec fn unit_text(n: int, unit: Seq<char>) -> Seq<char> {
    int_to_decimal(n) + seq![' '] + unit + (if n == 1 { Seq::<char>::empty() } else { seq!['s'] })
}

/// The days part of a rendering.
pub open spec fn days_piece(days: int) -> Seq<char> {
    if days >= 1 { unit_text(days, "day"@) } else { Seq::<char>::empty() }
}

/// The hours part of a rendering, with the separator that precedes it.
pub open spec fn hours_piece(days: int, hours: int, minutes: int, seconds: int) -> Seq<char> {
    if hours > 0 {
        (if days > 0 && minutes == 0 && seconds == 0 {
            " and "@
        } else if days > 0 {
            ", "@
        } else {
            Seq::<char>::empty()
        }) + unit_text(hours, "hour"@)
    } else {
        Seq::<char>::empty()
    }
}

/// The minutes part of a rendering, with the separator that precedes it.
pub open spec fn minutes_piece(days: int, hours: int, minutes: int, seconds: int) -> Seq<char> {
    if minutes > 0 {
        (if (days > 0 || hours > 0) && seconds == 0 {
            " and "@
        } else if days > 0 || hours > 0 {
            ", "@
        } else {
            Seq::<char>::empty()
        }) + unit_text(minutes, "minute"@)
    } else {
        Seq::<char>::empty()
    }
}

/// The seconds part of a rendering, with the separator that precedes it.
pub open spec fn seconds_piece(
    days: int,
    hours: int,
    minutes: int,
    seconds: int,
    include_seconds: bool,
) -> Seq<char> {
    if seconds > 0 && include_seconds {
        (if days > 0 || hours > 0 || minutes > 0 {
            " and "@
        } else {
            Seq::<char>::empty()
        }) + unit_text(seconds, "second"@)
    } else {
        Seq::<char>::empty()
    }
}

/// The English rendering of a duration of `secs` seconds: the positive parts among
/// days, hours, minutes and (when asked for) seconds, joined by ", " with " and "
/// before the last part; "unknown" when no part is positive.
pub open spec fn duration_text(secs: int, include_seconds: bool) -> Seq<char> {
    parts_text(whole_days(secs), rest_hours(secs), rest_minutes(secs), rest_seconds(secs), include_seconds)
}

/// The rendering of a duration given by its parts, as [`duration_text`] describes.
pub open spec fn parts_text(days: int, hours: int, minutes: int, seconds: int, include_seconds: bool) -> Seq<char> {
    let res = days_piece(days) + hours_piece(days, hours, minutes, seconds)
        + minutes_piece(days, hours, minutes, seconds)
        + seconds_piece(days, hours, minutes, seconds, include_seconds);
    if res.len() == 0 { "unknown"@ } else { res }
}

/// For a non-negative count of seconds the four parts are non-negative and the
/// hours, minutes and seconds stay below 24, 60 and 60.
proof fn lemma_parts_nonneg(x: int)
    requires
        x >= 0,
    ensures
        whole_days(x) == x / 86400,
        0 <= rest_hours(x) < 24,
        0 <= rest_minutes(x) < 60,
        0 <= rest_seconds(x) < 60,
        whole_days(x) * 24 <= x / 3600,
        (x / 3600) * 60 <= x / 60,
        (x / 60) * 60 <= x,
{
    lemma_div_denominator(x, 3600, 24);
    lemma_div_denominator(x, 60, 60);
    let h = x / 3600;
    let m = x / 60;
    lemma_fundamental_div_mod(h, 24);
    lemma_mod_pos_bound(h, 24);
    lemma_fundamental_div_mod(m, 60);
    lemma_mod_pos_bound(m, 60);
    lemma_fundamental_div_mod(x, 60);
    lemma_mod_pos_bound(x, 60);
    assert(3600 * 24 == 86400);
    assert(60 * 60 == 3600);
}

/// A negative duration has no positive part.
proof fn lemma_negative_parts(x: int)
    requires
        x < 0,
    ensures
        whole_days(x) <= 0,
        rest_hours(x) <= 0,
        rest_minutes(x) <= 0,
        rest_seconds(x) <= 0,
{
    lemma_parts_nonneg(-x);
}

/// Appends `unit_text(n, unit)`.
fn push_unit(res: &mut String, n: i64, unit: &str)
    ensures
        final(res)@ == old(res)@ + unit_text(n as int, unit@),
{
    let digits = i64_to_decimal(n);
    res.append(digits.as_str());
    push_char(res, ' ');
    res.append(unit);
    if n != 1 {
        push_char(res, 's');
    }
    assert(final(res)@ =~= old(res)@ + unit_text(n as int, unit@));
}

/// Renders a duration given in seconds as English text, e.g.
/// "2 days, 8 hours, 23 minutes and 1 second"; "unknown" when nothing is positive.
/// The four parts of a non-negative duration.
fn duration_parts(dur: i64) -> (r: (i64, i64, i64, i64))
    requires
        dur >= 0,
    ensures
        r.0 == whole_days(dur as int),
        r.1 == rest_hours(dur as int),
        r.2 == rest_minutes(dur as int),
        r.3 == rest_seconds(dur as int),
        r.0 >= 0 && r.1 >= 0 && r.2 >= 0 && r.3 >= 0,
{
    proof {
        lemma_parts_nonneg(dur as int);
    }
    let days: i64 = dur / 86400;
    let hours: i64 = dur / 3600 - days * 24;
    let minutes: i64 = dur / 60 - (dur / 3600) * 60;
    let seconds: i64 = dur - (dur / 60) * 60;
    (days, hours, minutes, seconds)
}

/// Renders a duration given in seconds as English text, e.g.
/// "2 days, 8 hours, 23 minutes and 1 second"; "unknown" when nothing is positive.
pub fn format_duration(dur: i64, include_seconds: bool) -> (r: String)
    ensures
        r@ == duration_text(dur as int, include_seconds),
{
    if dur < 0 {
        proof {
            lemma_negative_parts(dur as int);
        }
        return String::from_str("unknown");
    }
    let (days, hours, minutes, seconds) = duration_parts(dur);
    let mut res = String::new();
    if days >= 1 {
        push_unit(&mut res, days, "day");
    }
    assert(res@ == days_piece(days as int));
    let ghost d = res@;
    if hours > 0 {
        if days > 0 && minutes == 0 && seconds == 0 {
            res.append(" and ");
        } else if days > 0 {
            res.append(", ");
        }
        push_unit(&mut res, hours, "hour");
    }
    assert(res@ =~= d + hours_piece(days as int, hours as int, minutes as int, seconds as int));
    let ghost dh = res@;
    if minutes > 0 {
        if (days > 0 || hours > 0) && seconds == 0 {
            res.append(" and ");
        } else if days > 0 || hours > 0 {
            res.append(", ");
        }
        push_unit(&mut res, minutes, "minute");
    }
    assert(res@ =~= dh + minutes_piece(days as int, hours as int, minutes as int, seconds as int));
    let ghost dhm = res@;
    if seconds > 0 && include_seconds {
        if days > 0 || hours > 0 || minutes > 0 {
            res.append(" and ");
        }
        push_unit(&mut res, seconds, "second");
    }
    assert(res@ =~= dhm + seconds_piece(
        days as int,
        hours as int,
        minutes as int,
        seconds as int,
        include_seconds,
    ));
    if res.as_str().is_empty() {
        res = String::from_str("unknown");
    }
    res
}

/// The largest number of whole seconds a duration can hold: `i64::MAX` milliseconds.
pub const DURATION_MAX_SECS: i64 = 9223372036854775;

/// `s[p..q]` is a whole run of digits directly followed by a space and `unit`.
pub open spec fn count_of_unit_at(s: Seq<char>, unit: Seq<char>, p: int, q: int) -> bool {
    &&& 0 <= p < q
    &&& q + 1 + unit.len() <= s.len()
    &&& (p == 0 || !is_digit(s[p - 1]))
    &&& forall|k: int| p <= k < q ==> is_digit(#[trigger] s[k])
    &&& s[q] == ' '
    &&& s.subrange(q + 1, q + 1 + unit.len()) == unit
}

/// Some count of `unit` starts at `p`.
pub open spec fn has_count_at(s: Seq<char>, unit: Seq<char>, p: int) -> bool {
    exists|q: int| count_of_unit_at(s, unit, p, q)
}

/// The leftmost count of `unit` starts at `p`.
pub open spec fn is_first_count_at(s: Seq<char>, unit: Seq<char>, p: int) -> bool {
    has_count_at(s, unit, p) && forall|p2: int| #[trigger] has_count_at(s, unit, p2) ==> p <= p2
}

/// The digits of the leftmost "<digits> <unit>" in `s`, if there is one.
pub open spec fn first_count_of_unit(s: Seq<char>, unit: Seq<char>) -> Option<Seq<char>> {
    if exists|p: int| has_count_at(s, unit, p) {
        let p = choose|p: int| is_first_count_at(s, unit, p);
        let q = choose|q: int| count_of_unit_at(s, unit, p, q);
        Some(s.subrange(p, q))
    } else {
        None
    }
}

/// The count written before `unit` in `s`: the value of the leftmost
/// "<digits> <unit>", or 0 when there is none or its value does not fit an `i64`.
pub open spec fn unit_count(s: Seq<char>, unit: Seq<char>) -> nat {
    match first_count_of_unit(s, unit) {
        Some(ds) => if decimal_value(ds) <= i64::MAX { decimal_value(ds) } else { 0 },
        None => 0,
    }
}

/// The number of seconds a text such as "2 days, 8 hours and 1 second" describes:
/// the first count of days, hours, minutes and seconds found in it, added up.
pub open spec fn duration_in_text(s: Seq<char>) -> nat {
    unit_count(s, "day"@) * 86400 + unit_count(s, "hour"@) * 3600 + unit_count(s, "minute"@) * 60
        + unit_count(s, "second"@)
}

/// A count found at `p` is the leftmost one when none starts before `p`; its run
/// of digits then ends where the spec's choice ends it.
proof fn lemma_first_count(s: Seq<char>, unit: Seq<char>, p: int, q: int)
    requires
        count_of_unit_at(s, unit, p, q),
        forall|p2: int, q2: int| p2 < p ==> !count_of_unit_at(s, unit, p2, q2),
    ensures
        first_count_of_unit(s, unit) == Some(s.subrange(p, q)),
{
    assert(has_count_at(s, unit, p));
    assert forall|p2: int| #[trigger] has_count_at(s, unit, p2) implies p <= p2 by {
        if p2 < p {
            let q2 = choose|q2: int| count_of_unit_at(s, unit, p2, q2);
            assert(!count_of_unit_at(s, unit, p2, q2));
        }
    }
    assert(is_first_count_at(s, unit, p));
    let pc = choose|pc: int| is_first_count_at(s, unit, pc);
    assert(pc <= p);
    assert(p <= pc);
    let qc = choose|qc: int| count_of_unit_at(s, unit, p, qc);
    if qc < q {
        assert(is_digit(s[qc]));
    } else if q < qc {
        assert(is_digit(s[q]));
    }
}

/// The count written before `unit` in `input`, as [`unit_count`] defines it.
pub fn count_before_unit(input: &str, unit: &str) -> (r: u64)
    ensures
        r == unit_count(input@, unit@),
        r <= i64::MAX,
{
    let v = chars_of(input);
    let u = chars_of(unit);
    let n = v.len();
    let mut p: usize = 0;
    while p < n
        invariant
            n == v@.len(),
            v@ == input@,
            u@ == unit@,
            p <= n,
            forall|p2: int, q2: int| p2 < p ==> !count_of_unit_at(input@, unit@, p2, q2),
        decreases n - p,
    {
        if is_digit_char(v[p]) && (p == 0 || !is_digit_char(v[p - 1])) {
            let mut q: usize = p;
            while q < n && is_digit_char(v[q])
                invariant
                    p <= q <= n,
                    n == v@.len(),
                    forall|k: int| p <= k < q ==> is_digit(#[trigger] v@[k]),
                decreases n - q,
            {
                q = q + 1;
            }
            if q < n && v[q] == ' ' && has_at(&v, q + 1, &u) {
                proof {
                    lemma_first_count(input@, unit@, p as int, q as int);
                }
                let value = digits_value(&v, p, q);
                return match value {
                    Some(x) => x,
                    None => 0,
                };
            }
            proof {
                assert forall|q2: int| !count_of_unit_at(input@, unit@, p as int, q2) by {
                    if count_of_unit_at(input@, unit@, p as int, q2) {
                        if q2 < q {
                            assert(input@[q2] == ' ');
                            assert(is_digit(input@[q2]));
                        } else if q < q2 {
                            assert(is_digit(input@[q as int]));
                        } else {
                            assert(input@.subrange(q + 1, q + 1 + unit@.len()) == unit@);
                        }
                    }
                }
            }
        }
        p = p + 1;
    }
    proof {
        assert forall|p2: int| !has_count_at(input@, unit@, p2) by {
            if has_count_at(input@, unit@, p2) {
                let q2 = choose|q2: int| count_of_unit_at(input@, unit@, p2, q2);
                assert(p2 < n);
            }
        }
    }
    0
}

/// Whether a character is an ASCII decimal digit.
fn is_digit_char(c: char) -> (r: bool)
    ensures
        r == is_digit(c),
{
    '0' <= c && c <= '9'
}

/// Reads a duration from text such as "2 days, 8 hours, 23 minutes and 1 second",
/// as the number of seconds [`duration_in_text`] gives.
pub fn parse_duration(input: &str) -> (r: i64)
    requires
        duration_in_text(input@) <= DURATION_MAX_SECS,
    ensures
        r == duration_in_text(input@),
{
    let days = count_before_unit(input, "day");
    let hours = count_before_unit(input, "hour");
    let minutes = count_before_unit(input, "minute");
    let seconds = count_before_unit(input, "second");
    let total = days * 86400 + hours * 3600 + minutes * 60 + seconds;
    total as i64
}

/// `s[p..q]` is a maximal run of decimal digits.
spec fn digit_run(s: Seq<char>, p: int, q: int) -> bool {
    &&& 0 <= p < q <= s.len()
    &&& (p == 0 || !is_digit(s[p - 1]))
    &&& (q == s.len() || !is_digit(s[q]))
    &&& forall|k: int| p <= k < q ==> is_digit(#[trigger] s[k])
}

/// No character of `s` is a decimal digit.
spec fn no_digits(s: Seq<char>) -> bool {
    forall|k: int| 0 <= k < s.len() ==> !is_digit(#[trigger] s[k])
}

/// One of the four unit names of a rendering.
spec fn is_unit(u: Seq<char>) -> bool {
    u == "day"@ || u == "hour"@ || u == "minute"@ || u == "second"@
}

/// The unit names hold no digit, do not start with a space, and differ in
/// their first letter.
proof fn lemma_unit_shape(u: Seq<char>, w: Seq<char>)
    requires
        is_unit(u),
        is_unit(w),
    ensures
        u.len() >= 1,
        no_digits(u),
        u[0] != ' ',
        u[0] == w[0] ==> u == w,
{
    reveal_strlit("day");
    reveal_strlit("hour");
    reveal_strlit("minute");
    reveal_strlit("second");
    assert forall|k: int| 0 <= k < u.len() implies !is_digit(#[trigger] u[k]) by {
        if u == "day"@ {
            assert(k == 0 || k == 1 || k == 2);
        } else if u == "hour"@ {
            assert(k == 0 || k == 1 || k == 2 || k == 3);
        } else if u == "minute"@ {
            assert(k == 0 || k == 1 || k == 2 || k == 3 || k == 4 || k == 5);
        } else {
            assert(k == 0 || k == 1 || k == 2 || k == 3 || k == 4 || k == 5);
        }
    }
}

/// The decimal rendering of a natural number is a non-empty run of digits
/// whose value is that number.
proof fn lemma_decimal_roundtrip(n: nat)
    ensures
        nat_to_decimal(n).len() >= 1,
        forall|k: int| 0 <= k < nat_to_decimal(n).len() ==> is_digit(#[trigger] nat_to_decimal(n)[k]),
        decimal_value(nat_to_decimal(n)) == n,
    decreases n,
{
    let d = n % 10;
    assert(digit_char(d) as int == 48 + d);
    assert(digit_value(digit_char(d)) == d);
    if n >= 10 {
        lemma_decimal_roundtrip(n / 10);
        let s = nat_to_decimal(n);
        assert(s.drop_last() =~= nat_to_decimal(n / 10));
        assert(s.last() == digit_char(d));
        assert(decimal_value(s) == decimal_value(s.drop_last()) * 10 + digit_value(s.last()));
        assert(n == (n / 10) * 10 + d);
    } else {
        let s = nat_to_decimal(n);
        assert(s.drop_last() =~= Seq::<char>::empty());
        assert(decimal_value(s) == decimal_value(s.drop_last()) * 10 + digit_value(s.last()));
    }
}

/// Every run of digits in `s` is followed, within `s`, by one character and then
/// a character other than `c`; and `s` does not end in a digit.
spec fn runs_avoid(s: Seq<char>, c: char) -> bool {
    &&& (s.len() == 0 || !is_digit(s.last()))
    &&& forall|p: int, q: int| #[trigger] digit_run(s, p, q) ==> q + 1 < s.len() && s[q + 1] != c
}

/// A part of a rendering: a separator, a positive count and its unit.
spec fn opt_piece(present: bool, sep: Seq<char>, n: int, w: Seq<char>) -> Seq<char> {
    if present { sep + unit_text(n, w) } else { Seq::<char>::empty() }
}

/// The separators of a rendering hold no digit.
proof fn lemma_separators()
    ensures
        no_digits(Seq::<char>::empty()),
        no_digits(", "@),
        no_digits(" and "@),
        no_digits("unknown"@),
{
    reveal_strlit(", ");
    reveal_strlit(" and ");
    reveal_strlit("unknown");
    assert forall|k: int| 0 <= k < ", "@.len() implies !is_digit(#[trigger] ", "@[k]) by {
        assert(k == 0 || k == 1);
    }
    assert forall|k: int| 0 <= k < " and "@.len() implies !is_digit(#[trigger] " and "@[k]) by {
        assert(k == 0 || k == 1 || k == 2 || k == 3 || k == 4);
    }
    assert forall|k: int| 0 <= k < "unknown"@.len() implies !is_digit(#[trigger] "unknown"@[k]) by {
        assert(k == 0 || k == 1 || k == 2 || k == 3 || k == 4 || k == 5 || k == 6);
    }
}

/// Runs of digits in a concatenation whose left part does not end in a digit are
/// the runs of either part.
proof fn lemma_runs_concat(x: Seq<char>, y: Seq<char>, p: int, q: int)
    requires
        x.len() == 0 || !is_digit(x.last()),
    ensures
        digit_run(x + y, p, q) <==> (q <= x.len() && digit_run(x, p, q)) || (p >= x.len()
            && digit_run(y, p - x.len(), q - x.len())),
{
    let s = x + y;
    let n = x.len() as int;
    if digit_run(s, p, q) {
        if p < n {
            if q > n - 1 {
                assert(is_digit(s[n - 1]));
                assert(s[n - 1] == x.last());
            }
            assert(q <= n);
            assert forall|k: int| p <= k < q implies is_digit(#[trigger] x[k]) by {
                assert(is_digit(s[k]));
            }
            if q < n {
                assert(s[q] == x[q]);
            }
            if p > 0 {
                assert(s[p - 1] == x[p - 1]);
            }
        } else {
            assert forall|k: int| p - n <= k < q - n implies is_digit(#[trigger] y[k]) by {
                assert(is_digit(s[k + n]));
            }
            if p > n {
                assert(s[p - 1] == y[p - n - 1]);
            }
            if q < s.len() {
                assert(s[q] == y[q - n]);
            }
        }
    }
    if q <= n && digit_run(x, p, q) {
        assert forall|k: int| p <= k < q implies is_digit(#[trigger] s[k]) by {
            assert(is_digit(x[k]));
        }
        if q == n {
            assert(is_digit(x[q - 1]));
        }
        if p > 0 {
            assert(s[p - 1] == x[p - 1]);
        }
        assert(s[q] == x[q]);
    }
    if p >= n && digit_run(y, p - n, q - n) {
        assert forall|k: int| p <= k < q implies is_digit(#[trigger] s[k]) by {
            assert(is_digit(y[k - n]));
        }
        if p > n {
            assert(s[p - 1] == y[p - n - 1]);
        } else if p > 0 {
            assert(s[p - 1] == x.last());
        }
        if q < s.len() {
            assert(s[q] == y[q - n]);
        }
    }
}

/// The only run of digits in a part is its count, which is followed by a space
/// and the unit.
proof fn lemma_piece_shape(sep: Seq<char>, n: int, w: Seq<char>)
    requires
        no_digits(sep),
        n >= 1,
        is_unit(w),
    ensures
        ({
            let s = sep + unit_text(n, w);
            let a = sep.len() as int;
            let b = a + nat_to_decimal(n as nat).len();
            &&& digit_run(s, a, b)
            &&& forall|p: int, q: int| #[trigger] digit_run(s, p, q) ==> p == a && q == b
            &&& s[b] == ' '
            &&& b + 1 + w.len() <= s.len()
            &&& s.subrange(b + 1, b + 1 + w.len()) == w
            &&& s.subrange(a, b) == nat_to_decimal(n as nat)
            &&& !is_digit(s.last())
        }),
{
    lemma_unit_shape(w, w);
    lemma_decimal_roundtrip(n as nat);
    let d = nat_to_decimal(n as nat);
    let pl = if n == 1 { Seq::<char>::empty() } else { seq!['s'] };
    let s = sep + unit_text(n, w);
    assert(s =~= sep + d + seq![' '] + w + pl);
    let a = sep.len() as int;
    let b = a + d.len();
    assert forall|k: int| 0 <= k < s.len() implies (is_digit(#[trigger] s[k]) <==> a <= k < b) by {
        if k < a {
            assert(s[k] == sep[k]);
        } else if k < b {
            assert(s[k] == d[k - a]);
        } else if k == b {
            assert(s[k] == ' ');
        } else if k < b + 1 + w.len() {
            assert(s[k] == w[k - b - 1]);
        } else {
            assert(s[k] == 's');
        }
    }
    assert(s.subrange(b + 1, b + 1 + w.len()) =~= w);
    assert(s.subrange(a, b) =~= d);
    assert(!is_digit(s[s.len() - 1]));
    assert forall|p: int, q: int| #[trigger] digit_run(s, p, q) implies p == a && q == b by {
        assert(is_digit(s[p]));
        if p > a {
            assert(is_digit(s[p - 1]));
        }
        if q < b {
            assert(is_digit(s[q]));
        }
        if q > b {
            assert(is_digit(s[b]));
        }
    }
    assert forall|k: int| a <= k < b implies is_digit(#[trigger] s[k]) by {}
}

/// A text without digits has no run to worry about.
proof fn lemma_no_digits_avoid(s: Seq<char>, c: char)
    requires
        no_digits(s),
    ensures
        runs_avoid(s, c),
{
    assert forall|p: int, q: int| #[trigger] digit_run(s, p, q) implies q + 1 < s.len() && s[q + 1] != c by {
        assert(is_digit(s[p]));
    }
    if s.len() > 0 {
        assert(!is_digit(s[s.len() - 1]));
    }
}

/// A part whose unit does not start with `c` avoids `c`.
proof fn lemma_piece_avoid(present: bool, sep: Seq<char>, n: int, w: Seq<char>, c: char)
    requires
        present ==> no_digits(sep) && n >= 1 && is_unit(w),
        present ==> w[0] != c,
    ensures
        runs_avoid(opt_piece(present, sep, n, w), c),
{
    if present {
        lemma_piece_shape(sep, n, w);
        lemma_unit_shape(w, w);
    } else {
        assert(opt_piece(present, sep, n, w).len() == 0);
    }
}

/// Avoiding `c` survives concatenation.
proof fn lemma_concat_avoid(x: Seq<char>, y: Seq<char>, c: char)
    requires
        runs_avoid(x, c),
        runs_avoid(y, c),
    ensures
        runs_avoid(x + y, c),
{
    let s = x + y;
    assert forall|p: int, q: int| #[trigger] digit_run(s, p, q) implies q + 1 < s.len() && s[q + 1] != c by {
        lemma_runs_concat(x, y, p, q);
        if q <= x.len() && digit_run(x, p, q) {
            assert(s[q + 1] == x[q + 1]);
        } else {
            assert(digit_run(y, p - x.len(), q - x.len()));
            assert(s[q + 1] == y[q + 1 - x.len()]);
        }
    }
    if y.len() > 0 {
        assert(s.last() == y.last());
    } else {
        assert(s =~= x);
    }
}

/// In `pre + part + post`, where `pre` and `post` avoid the first letter of
/// `u`, the count of `u` is the count of the part, or 0 when it is absent.
proof fn lemma_count_in_middle(
    pre: Seq<char>,
    present: bool,
    sep: Seq<char>,
    n: int,
    u: Seq<char>,
    post: Seq<char>,
)
    requires
        is_unit(u),
        present ==> no_digits(sep) && 1 <= n <= i64::MAX,
        runs_avoid(pre, u[0]),
        runs_avoid(post, u[0]),
    ensures
        unit_count(pre + opt_piece(present, sep, n, u) + post, u) == (if present { n } else { 0 }),
{
    lemma_unit_shape(u, u);
    let mid = opt_piece(present, sep, n, u);
    let left = pre + mid;
    let s = left + post;
    let a: int = (pre.len() + sep.len()) as int;
    let b: int = a + nat_to_decimal(n as nat).len();
    if present {
        lemma_piece_shape(sep, n, u);
        lemma_decimal_roundtrip(n as nat);
    }
    assert(left.len() == 0 || !is_digit(left.last())) by {
        if mid.len() > 0 {
            assert(left.last() == mid.last());
        } else {
            assert(left =~= pre);
        }
    }
    assert forall|p: int, q: int| count_of_unit_at(s, u, p, q) implies present && p == a && q == b by {
        assert(s.subrange(q + 1, q + 1 + u.len())[0] == s[q + 1]);
        assert(digit_run(s, p, q));
        lemma_runs_concat(left, post, p, q);
        if q <= left.len() && digit_run(left, p, q) {
            lemma_runs_concat(pre, mid, p, q);
            if q <= pre.len() && digit_run(pre, p, q) {
                assert(s[q + 1] == pre[q + 1]);
            } else {
                assert(digit_run(mid, p - pre.len(), q - pre.len()));
                if !present {
                    assert(mid.len() == 0);
                }
            }
        } else {
            assert(digit_run(post, p - left.len(), q - left.len()));
            assert(s[q + 1] == post[q + 1 - left.len()]);
        }
    }
    if present {
        let e = sep + unit_text(n, u);
        assert(mid == e);
        lemma_runs_concat(left, post, a, b);
        lemma_runs_concat(pre, mid, a, b);
        assert(s.subrange(a, b) =~= e.subrange(a - pre.len(), b - pre.len()));
        assert(s.subrange(b + 1, b + 1 + u.len()) =~= e.subrange(
            b + 1 - pre.len(),
            b + 1 + u.len() - pre.len(),
        ));
        assert(s[b] == e[b - pre.len()]);
        assert forall|k: int| a <= k < b implies is_digit(#[trigger] s[k]) by {
            assert(s[k] == e[k - pre.len()]);
        }
        assert(count_of_unit_at(s, u, a, b));
        lemma_first_count(s, u, a, b);
    } else {
        assert forall|p: int| !has_count_at(s, u, p) by {
            if has_count_at(s, u, p) {
                let q = choose|q: int| count_of_unit_at(s, u, p, q);
            }
        }
    }
}

/// The four counts read from a rendering made of four parts.
proof fn lemma_parts_counts(
    days: int,
    hours: int,
    minutes: int,
    seconds: int,
    sep_h: Seq<char>,
    sep_m: Seq<char>,
    sep_s: Seq<char>,
)
    requires
        0 <= days <= i64::MAX,
        0 <= hours <= i64::MAX,
        0 <= minutes <= i64::MAX,
        0 <= seconds <= i64::MAX,
        no_digits(sep_h),
        no_digits(sep_m),
        no_digits(sep_s),
    ensures
        ({
            let e = Seq::<char>::empty();
            let res = opt_piece(days >= 1, e, days, "day"@) + opt_piece(hours > 0, sep_h, hours, "hour"@)
                + opt_piece(minutes > 0, sep_m, minutes, "minute"@) + opt_piece(
                seconds > 0,
                sep_s,
                seconds,
                "second"@,
            );
            &&& unit_count(res, "day"@) == days
            &&& unit_count(res, "hour"@) == hours
            &&& unit_count(res, "minute"@) == minutes
            &&& unit_count(res, "second"@) == seconds
        }),
{
    reveal_strlit("day");
    reveal_strlit("hour");
    reveal_strlit("minute");
    reveal_strlit("second");
    lemma_separators();
    let e = Seq::<char>::empty();
    let pd = opt_piece(days >= 1, e, days, "day"@);
    let ph = opt_piece(hours > 0, sep_h, hours, "hour"@);
    let pm = opt_piece(minutes > 0, sep_m, minutes, "minute"@);
    let ps = opt_piece(seconds > 0, sep_s, seconds, "second"@);
    let res = pd + ph + pm + ps;
    assert(unit_count(res, "day"@) == days) by {
        lemma_no_digits_avoid(e, 'd');
        lemma_piece_avoid(hours > 0, sep_h, hours, "hour"@, 'd');
        lemma_piece_avoid(minutes > 0, sep_m, minutes, "minute"@, 'd');
        lemma_piece_avoid(seconds > 0, sep_s, seconds, "second"@, 'd');
        lemma_concat_avoid(ph, pm, 'd');
        lemma_concat_avoid(ph + pm, ps, 'd');
        assert(e + pd + (ph + pm + ps) =~= res);
        lemma_count_in_middle(e, days >= 1, e, days, "day"@, ph + pm + ps);
    }
    assert(unit_count(res, "hour"@) == hours) by {
        lemma_piece_avoid(days >= 1, e, days, "day"@, 'h');
        lemma_piece_avoid(minutes > 0, sep_m, minutes, "minute"@, 'h');
        lemma_piece_avoid(seconds > 0, sep_s, seconds, "second"@, 'h');
        lemma_concat_avoid(pm, ps, 'h');
        assert(pd + ph + (pm + ps) =~= res);
        lemma_count_in_middle(pd, hours > 0, sep_h, hours, "hour"@, pm + ps);
    }
    assert(unit_count(res, "minute"@) == minutes) by {
        lemma_piece_avoid(days >= 1, e, days, "day"@, 'm');
        lemma_piece_avoid(hours > 0, sep_h, hours, "hour"@, 'm');
        lemma_piece_avoid(seconds > 0, sep_s, seconds, "second"@, 'm');
        lemma_concat_avoid(pd, ph, 'm');
        lemma_count_in_middle(pd + ph, minutes > 0, sep_m, minutes, "minute"@, ps);
    }
    assert(unit_count(res, "second"@) == seconds) by {
        lemma_no_digits_avoid(e, 's');
        lemma_piece_avoid(days >= 1, e, days, "day"@, 's');
        lemma_piece_avoid(hours > 0, sep_h, hours, "hour"@, 's');
        lemma_piece_avoid(minutes > 0, sep_m, minutes, "minute"@, 's');
        lemma_concat_avoid(pd, ph, 's');
        lemma_concat_avoid(pd + ph, pm, 's');
        assert(pd + ph + pm + ps + e =~= res);
        lemma_count_in_middle(pd + ph + pm, seconds > 0, sep_s, seconds, "second"@, e);
    }
}

/// No count can be read from "unknown".
proof fn lemma_unknown_counts()
    ensures
        duration_in_text("unknown"@) == 0,
{
    reveal_strlit("day");
    reveal_strlit("hour");
    reveal_strlit("minute");
    reveal_strlit("second");
    lemma_separators();
    let t = "unknown"@;
    let e = Seq::<char>::empty();
    lemma_no_digits_avoid(t, 'd');
    lemma_no_digits_avoid(t, 'h');
    lemma_no_digits_avoid(t, 'm');
    lemma_no_digits_avoid(t, 's');
    lemma_no_digits_avoid(e, 'd');
    lemma_no_digits_avoid(e, 'h');
    lemma_no_digits_avoid(e, 'm');
    lemma_no_digits_avoid(e, 's');
    assert(t + opt_piece(false, e, 0, "day"@) + e =~= t);
    lemma_count_in_middle(t, false, e, 0, "day"@, e);
    assert(t + opt_piece(false, e, 0, "hour"@) + e =~= t);
    lemma_count_in_middle(t, false, e, 0, "hour"@, e);
    assert(t + opt_piece(false, e, 0, "minute"@) + e =~= t);
    lemma_count_in_middle(t, false, e, 0, "minute"@, e);
    assert(t + opt_piece(false, e, 0, "second"@) + e =~= t);
    lemma_count_in_middle(t, false, e, 0, "second"@, e);
}

/// Reading the rendering of four parts gives back the parts shown.
#[verifier::rlimit(40)]
proof fn lemma_parts_text_counts(days: int, hours: int, minutes: int, seconds: int, include_seconds: bool)
    requires
        0 <= days <= i64::MAX,
        0 <= hours <= i64::MAX,
        0 <= minutes <= i64::MAX,
        0 <= seconds <= i64::MAX,
    ensures
        duration_in_text(parts_text(days, hours, minutes, seconds, include_seconds)) == days * 86400 + hours
            * 3600 + minutes * 60 + (if include_seconds { seconds } else { 0 }),
{
    lemma_separators();
    let e = Seq::<char>::empty();
    let sep_h = if days > 0 && minutes == 0 && seconds == 0 {
        " and "@
    } else if days > 0 {
        ", "@
    } else {
        e
    };
    let sep_m = if (days > 0 || hours > 0) && seconds == 0 {
        " and "@
    } else if days > 0 || hours > 0 {
        ", "@
    } else {
        e
    };
    let sep_s = if days > 0 || hours > 0 || minutes > 0 { " and "@ } else { e };
    let pd = opt_piece(days >= 1, e, days, "day"@);
    let ph = opt_piece(hours > 0, sep_h, hours, "hour"@);
    let pm = opt_piece(minutes > 0, sep_m, minutes, "minute"@);
    let shown = if include_seconds { seconds } else { 0 };
    let ps = opt_piece(shown > 0, sep_s, shown, "second"@);
    assert(days_piece(days) =~= pd);
    assert(hours_piece(days, hours, minutes, seconds) == ph);
    assert(minutes_piece(days, hours, minutes, seconds) == pm);
    assert(seconds_piece(days, hours, minutes, seconds, include_seconds) == ps);
    let res = pd + ph + pm + ps;
    if res.len() == 0 {
        if days >= 1 {
            assert(pd.len() > 0);
        }
        if hours > 0 {
            assert(ph.len() > 0);
        }
        if minutes > 0 {
            assert(pm.len() > 0);
        }
        if shown > 0 {
            assert(ps.len() > 0);
        }
        lemma_unknown_counts();
    } else {
        lemma_parts_counts(days, hours, minutes, shown, sep_h, sep_m, sep_s);
    }
}

/// Reading a rendering gives back the duration, down to the whole minute when
/// the seconds are not shown.
proof fn lemma_duration_text_reads_back(secs: int, include_seconds: bool)
    requires
        0 <= secs <= DURATION_MAX_SECS,
    ensures
        duration_in_text(duration_text(secs, include_seconds)) == (if include_seconds {
            secs
        } else {
            (secs / 60) * 60
        }),
{
    lemma_parts_nonneg(secs);
    let days = whole_days(secs);
    let hours = rest_hours(secs);
    let minutes = rest_minutes(secs);
    let seconds = rest_seconds(secs);
    assert(days * 86400 + hours * 3600 + minutes * 60 + seconds == secs);
    assert(seconds == secs - (secs / 60) * 60);
    lemma_parts_text_counts(days, hours, minutes, seconds, include_seconds);
}

/// Reading a rendering that shows seconds gives back the duration it was made
/// from, for every duration from zero up to the largest one a duration holds.
pub proof fn lemma_duration_text_roundtrip(secs: int)
    requires
        0 <= secs <= DURATION_MAX_SECS,
    ensures
        duration_in_text(duration_text(secs, true)) == secs,
{
    lemma_duration_text_reads_back(secs, true);
}

/// Reading a rendering without seconds gives back the duration cut down to its
/// whole minutes, for every duration from zero up to the largest one a duration
/// holds.
pub proof fn lemma_duration_text_minutes_roundtrip(secs: int)
    requires
        0 <= secs <= DURATION_MAX_SECS,
    ensures
        duration_in_text(duration_text(secs, false)) == (secs / 60) * 60,
{
    lemma_duration_text_reads_back(secs, false);
}

} // verus!
