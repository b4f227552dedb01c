//! Texts of the general and picture commands that are built from fetched data.

use vstd::prelude::*;
use vstd::utf8::{encode_utf8, is_char_boundary};
use vstd::string::StringSliceAdditionalSpecFns;
use crate::pictures::EPICImage;
use crate::text::{
    chars_of, cutoff_end, cutoff_on_last_dot, get_date_epic_image, has_at, nat_to_decimal, replace_char, str_eq,
    take_until, u64_to_decimal,
};

verus! {

/// A person in space and the craft they are on.
#[derive(Debug, Clone)]
pub struct PersonInSpace {
    pub name: String,
    pub craft: String,
}

/// The lines listing the people in space: "name: craft" each.
pub open spec fn people_lines(people: Seq<PersonInSpace>) -> Seq<char>
    decreases people.len(),
{
    if people.len() == 0 {
        Seq::<char>::empty()
    } else {
        people_lines(people.drop_last()) + people.last().name@ + ": "@ + people.last().craft@ + "\n"@
    }
}

/// The lines listing the people in space, as [`people_lines`] says.
pub fn people_in_space_text(people: &Vec<PersonInSpace>) -> (r: String)
    ensures
        r@ == people_lines(people@),
{
    let mut r = String::new();
    let mut i: usize = 0;
    assert(people@.take(0) =~= Seq::<PersonInSpace>::empty());
    while i < people.len()
        invariant
            i <= people@.len(),
            r@ == people_lines(people@.take(i as int)),
        decreases people@.len() - i,
    {
        r.append(people[i].name.as_str());
        r.append(": ");
        r.append(people[i].craft.as_str());
        r.append("\n");
        assert(people@.take(i + 1).drop_last() =~= people@.take(i as int));
        i = i + 1;
    }
    assert(people@.take(people@.len() as int) =~= people@);
    r
}

/// The title of the people in space list.
pub fn people_in_space_title(number: u64) -> (r: String)
    ensures
        r@ == "There are currently "@ + nat_to_decimal(number as nat) + " people in space"@,
{
    let mut r = String::from_str("There are currently ");
    let n = u64_to_decimal(number);
    r.append(n.as_str());
    r.append(" people in space");
    r
}

/// The other kind of Earth picture: "enhanced" for "natural", else "natural".
pub fn epic_opposite(image_type: &str) -> (r: &'static str)
    ensures
        r@ == (if image_type@ == "natural"@ { "enhanced"@ } else { "natural"@ }),
{
    if str_eq(image_type, "natural") {
        "enhanced"
    } else {
        "natural"
    }
}

/// The link to an Earth picture of a kind.
pub open spec fn epic_url(image_type: Seq<char>, image: EPICImage) -> Seq<char> {
    "https://epic.gsfc.nasa.gov/archive/"@ + image_type + "/"@ + replace_char(take_until(image.date@, ' '), '-', '/')
        + "/png/"@ + image.image@ + ".png"@
}

/// The link to an Earth picture, as [`epic_url`] says.
pub fn epic_image_url(image_type: &str, image: &EPICImage) -> (r: String)
    ensures
        r@ == epic_url(image_type@, *image),
{
    let mut r = String::from_str("https://epic.gsfc.nasa.gov/archive/");
    r.append(image_type);
    r.append("/");
    let date = get_date_epic_image(image.date.as_str());
    r.append(date.as_str());
    r.append("/png/");
    r.append(image.image.as_str());
    r.append(".png");
    r
}

/// The footer of an Earth picture: when it was taken and the other kind to ask for.
pub fn epic_footer(image_type: &str, image: &EPICImage) -> (r: String)
    ensures
        r@ == "Taken on: "@ + image.date@ + "\nRun this command again with the "@ + (if image_type@
            == "natural"@ {
            "enhanced"@
        } else {
            "natural"@
        }) + " argument!"@,
{
    let mut r = String::from_str("Taken on: ");
    r.append(image.date.as_str());
    r.append("\nRun this command again with the ");
    r.append(epic_opposite(image_type));
    r.append(" argument!");
    r
}

/// A character with Unicode's White_Space property, the property
/// `char::is_whitespace` tests: U+0009 to U+000D, U+0020, U+0085, U+00A0, U+1680,
/// U+2000 to U+200A, U+2028, U+2029, U+202F, U+205F and U+3000.
pub open spec fn is_white_space(c: char) -> bool {
    ||| ('\u{9}' <= c && c <= '\u{d}')
    ||| c == ' '
    ||| c == '\u{85}'
    ||| c == '\u{a0}'
    ||| c == '\u{1680}'
    ||| ('\u{2000}' <= c && c <= '\u{200a}')
    ||| c == '\u{2028}'
    ||| c == '\u{2029}'
    ||| c == '\u{202f}'
    ||| c == '\u{205f}'
    ||| c == '\u{3000}'
}

/// Whether a character has the White_Space property.
fn white_space(c: char) -> (r: bool)
    ensures
        r == is_white_space(c),
{
    ('\u{9}' <= c && c <= '\u{d}') || c == ' ' || c == '\u{85}' || c == '\u{a0}' || c == '\u{1680}' || (
    '\u{2000}' <= c && c <= '\u{200a}') || c == '\u{2028}' || c == '\u{2029}' || c == '\u{202f}' || c
        == '\u{205f}' || c == '\u{3000}'
}

/// A text without the White_Space characters at its start.
pub open spec fn trim_start(s: Seq<char>) -> Seq<char>
    decreases s.len(),
{
    if s.len() > 0 && is_white_space(s[0]) {
        trim_start(s.drop_first())
    } else {
        s
    }
}

/// A text without the White_Space characters at its end.
pub open spec fn trim_end(s: Seq<char>) -> Seq<char>
    decreases s.len(),
{
    if s.len() > 0 && is_white_space(s.last()) {
        trim_end(s.drop_last())
    } else {
        s
    }
}

/// A text without White_Space characters at either end (`str::trim`).
pub open spec fn trimmed(s: Seq<char>) -> Seq<char> {
    trim_end(trim_start(s))
}

/// `pat` starts at position `i` of `s`.
pub open spec fn occurs_at(s: Seq<char>, pat: Seq<char>, i: int) -> bool {
    0 <= i && i + pat.len() <= s.len() && s.subrange(i, i + pat.len()) == pat
}

/// The part of `s` before the first occurrence of `pat`; all of `s` when there is
/// none (the first piece of `str::split`).
pub open spec fn before_first(s: Seq<char>, pat: Seq<char>) -> Seq<char> {
    if exists|i: int| #[trigger] occurs_at(s, pat, i) {
        s.take(choose|i: int| #[trigger] occurs_at(s, pat, i) && forall|j: int| 0 <= j < i ==> !#[trigger] occurs_at(s, pat, j))
    } else {
        s
    }
}

/// The explanation of an astronomy picture as shown: the text before "Follow APOD
/// on:" and before "digg_url", trimmed.
pub open spec fn apod_text(e: Seq<char>) -> Seq<char> {
    trimmed(before_first(before_first(e, "Follow APOD on:"@), "digg_url"@))
}

/// The part of a text before the first occurrence of a pattern.
fn text_before(s: &str, pat: &str) -> (r: String)
    ensures
        r@ == before_first(s@, pat@),
{
    let v = chars_of(s);
    let p = chars_of(pat);
    let n = v.len();
    let mut i: usize = 0;
    while i <= n
        invariant
            n == v@.len(),
            v@ == s@,
            p@ == pat@,
            forall|j: int| 0 <= j < i ==> !#[trigger] occurs_at(s@, pat@, j),
        decreases n + 1 - i,
    {
        if has_at(&v, i, &p) {
            proof {
                assert(occurs_at(s@, pat@, i as int));
                let c = choose|c: int| #[trigger] occurs_at(s@, pat@, c) && forall|j: int| 0 <= j < c ==> !#[trigger] occurs_at(s@, pat@, j);
                assert(c == i);
            }
            let head = s.substring_char(0, i);
            assert(head@ =~= s@.take(i as int));
            return String::from_str(head);
        }
        if i == n {
            proof {
                assert forall|j: int| !#[trigger] occurs_at(s@, pat@, j) by {
                    if occurs_at(s@, pat@, j) {
                        assert(j <= n);
                    }
                }
            }
            return String::from_str(s);
        }
        i = i + 1;
    }
    String::from_str(s)
}

/// Dropping White_Space characters from the start up to a position.
proof fn lemma_trim_start_skip(s: Seq<char>, i: int)
    requires
        0 <= i <= s.len(),
        forall|k: int| 0 <= k < i ==> is_white_space(#[trigger] s[k]),
        i == s.len() || !is_white_space(s[i]),
    ensures
        trim_start(s) == s.skip(i),
    decreases i,
{
    if i > 0 {
        assert forall|k: int| 0 <= k < i - 1 implies is_white_space(#[trigger] s.drop_first()[k]) by {
            assert(s.drop_first()[k] == s[k + 1]);
        }
        lemma_trim_start_skip(s.drop_first(), i - 1);
        assert(s.drop_first().skip(i - 1) =~= s.skip(i));
    } else {
        assert(s.skip(0) =~= s);
    }
}

/// Dropping White_Space characters from the end down to a position.
proof fn lemma_trim_end_take(s: Seq<char>, j: int)
    requires
        0 <= j <= s.len(),
        forall|k: int| j <= k < s.len() ==> is_white_space(#[trigger] s[k]),
        j == 0 || !is_white_space(s[j - 1]),
    ensures
        trim_end(s) == s.take(j),
    decreases s.len() - j,
{
    if j < s.len() {
        lemma_trim_end_take(s.drop_last(), j);
        assert(s.drop_last().take(j) =~= s.take(j));
    } else {
        assert(s.take(j) =~= s);
    }
}

/// A text without White_Space characters at either end, as [`trimmed`] says.
pub fn trim_text(s: &str) -> (r: String)
    ensures
        r@ == trimmed(s@),
{
    let v = chars_of(s);
    let n = v.len();
    let mut i: usize = 0;
    while i < n && white_space(v[i])
        invariant
            n == v@.len(),
            v@ == s@,
            i <= n,
            forall|k: int| 0 <= k < i ==> is_white_space(#[trigger] v@[k]),
        decreases n - i,
    {
        i = i + 1;
    }
    proof {
        lemma_trim_start_skip(s@, i as int);
    }
    let mut j: usize = n;
    while j > i && white_space(v[j - 1])
        invariant
            n == v@.len(),
            v@ == s@,
            i <= j <= n,
            forall|k: int| j <= k < n ==> is_white_space(#[trigger] v@[k]),
        decreases j,
    {
        j = j - 1;
    }
    proof {
        let t = s@.skip(i as int);
        assert forall|k: int| j - i <= k < t.len() implies is_white_space(#[trigger] t[k]) by {
            assert(t[k] == v@[k + i]);
        }
        if j > i {
            assert(t[j - i - 1] == v@[j - 1]);
        }
        lemma_trim_end_take(t, j - i);
    }
    let r = s.substring_char(i, j);
    assert(r@ =~= s@.skip(i as int).take(j - i));
    String::from_str(r)
}

/// The text of an explanation that is shown, as [`apod_text`] says.
pub fn apod_body(e: &str) -> (r: String)
    ensures
        r@ == apod_text(e@),
{
    let a = text_before(e, "Follow APOD on:");
    let b = text_before(a.as_str(), "digg_url");
    trim_text(b.as_str())
}

/// The explanation of an astronomy picture as shown: "no explanation provided :("
/// when there is none; otherwise the text of [`apod_text`], shortened to end on a
/// sentence near 2040 characters as `cutoff_on_last_dot` does.
pub fn apod_explanation(explanation: Option<&str>) -> (r: String)
    requires
        explanation matches Some(e) ==> (cutoff_end(apod_text(e@), 2040) matches Some(b) ==> is_char_boundary(
            encode_utf8(apod_text(e@)),
            b,
        )),
    ensures
        explanation is None ==> r@ == "no explanation provided :("@,
        explanation matches Some(e) ==> match cutoff_end(apod_text(e@), 2040) {
            Some(b) => encode_utf8(r@) == encode_utf8(apod_text(e@)).subrange(0, b),
            None => r@ == apod_text(e@),
        },
{
    match explanation {
        None => String::from_str("no explanation provided :("),
        Some(e) => {
            let t = apod_body(e);
            let cut = cutoff_on_last_dot(t.as_str(), 2040);
            proof {
                assert(cut.spec_bytes() == encode_utf8(cut@));
            }
            String::from_str(cut)
        },
    }
}

} // verus!
