//! Embeds with buttons: the fields and buttons they show, which button a click
//! picks, and the embed that builds a reminder duration from button presses.

use vstd::prelude::*;
use crate::components::{ButtonStyle, ButtonType, Emoji, emoji_text};
use crate::durations::{
    DURATION_MAX_SECS, days_piece, duration_in_text, duration_text, format_duration, hours_piece,
    lemma_duration_text_roundtrip, minutes_piece, parts_text, seconds_piece, unit_text,
};
use crate::text::nat_to_decimal;
use crate::text::str_eq;

verus! {

/// A field of an embed.
#[derive(Debug, Clone)]
pub struct EmbedField {
    pub name: String,
    pub value: String,
    pub inline: bool,
}

/// A button of an embed and what a click on it runs; `is_update` says whether
/// the click is acknowledged before the handler runs.
#[derive(Debug, Clone)]
pub struct StatefulOption<H> {
    pub button: ButtonType,
    pub handler: H,
    pub is_update: bool,
}

/// An embed (`inner`, built by the caller) with the fields added through its
/// buttons and the buttons themselves, in the order they were added.
#[derive(Debug, Clone)]
pub struct StatefulEmbed<E, H> {
    pub inner: E,
    pub fields: Vec<EmbedField>,
    pub options: Vec<StatefulOption<H>>,
}

/// The name a field gets when it comes with a button: the button's emoji, a space
/// and the name; the name alone when the button has no emoji.
pub open spec fn field_name(name: Seq<char>, button: ButtonType) -> Seq<char> {
    match button.emoji {
        Some(e) => emoji_text(e) + " "@ + name,
        None => name,
    }
}

/// The first option whose button label is `custom_id`.
pub open spec fn first_label_match<H>(opts: Seq<StatefulOption<H>>, custom_id: Seq<char>) -> Option<int> {
    if exists|i: int| 0 <= i < opts.len() && (#[trigger] opts[i]).button.label@ == custom_id {
        Some(
            choose|i: int|
                0 <= i < opts.len() && (#[trigger] opts[i]).button.label@ == custom_id && forall|j: int|
                    0 <= j < i ==> (#[trigger] opts[j]).button.label@ != custom_id,
        )
    } else {
        None
    }
}

/// The rows of buttons: the options in groups of five, in order; each row holds
/// the indices of its options.
pub open spec fn button_row_indices(n: int, rows: Seq<Seq<usize>>) -> bool {
    &&& rows.len() == (n + 4) / 5
    &&& forall|i: int| 0 <= i < rows.len() ==> #[trigger] rows[i].len() == (if 5 * i + 5 <= n { 5 } else { n - 5 * i })
    &&& forall|i: int, j: int| 0 <= i < rows.len() && 0 <= j < rows[i].len() ==> #[trigger] rows[i][j] == 5 * i + j
}

impl<E, H> StatefulEmbed<E, H> {
    /// An embed with no button yet.
    pub fn new_with_embed(inner: E) -> (r: Self)
        ensures
            r.inner == inner,
            r.fields@.len() == 0,
            r.options@.len() == 0,
    {
        StatefulEmbed { inner, fields: Vec::new(), options: Vec::new() }
    }

    /// Adds a field and a button that goes with it; the field's name starts with
    /// the button's emoji, as [`field_name`] says.
    pub fn add_field(self, name: &str, value: &str, inline: bool, button: ButtonType, handler: H) -> (r: Self)
        ensures
            r.inner == self.inner,
            r.fields@.len() == self.fields@.len() + 1,
            r.fields@.take(self.fields@.len() as int) == self.fields@,
            r.fields@.last().name@ == field_name(name@, button),
            r.fields@.last().value@ == value@,
            r.fields@.last().inline == inline,
            r.options@ == self.options@.push(StatefulOption { button, handler, is_update: true }),
    {
        let full_name = match &button.emoji {
            Some(e) => {
                let mut t = e.text();
                t.append(" ");
                t.append(name);
                t
            },
            None => String::from_str(name),
        };
        let mut fields = self.fields;
        fields.push(EmbedField { name: full_name, value: String::from_str(value), inline });
        let mut options = self.options;
        options.push(StatefulOption { button, handler, is_update: true });
        proof {
            assert(fields@.take(self.fields@.len() as int) =~= self.fields@);
        }
        StatefulEmbed { inner: self.inner, fields, options }
    }

    /// Adds a button whose click is acknowledged before its handler runs.
    pub fn add_option(&mut self, button: ButtonType, handler: H)
        ensures
            final(self).inner == old(self).inner,
            final(self).fields == old(self).fields,
            final(self).options@ == old(self).options@.push(
                StatefulOption { button, handler, is_update: true },
            ),
    {
        self.options.push(StatefulOption { button, handler, is_update: true });
    }

    /// Adds a button whose handler answers the click itself.
    pub fn add_non_update_option(&mut self, button: ButtonType, handler: H)
        ensures
            final(self).inner == old(self).inner,
            final(self).fields == old(self).fields,
            final(self).options@ == old(self).options@.push(
                StatefulOption { button, handler, is_update: false },
            ),
    {
        self.options.push(StatefulOption { button, handler, is_update: false });
    }

    /// The rows of buttons shown under the embed, five to a row, as
    /// [`button_row_indices`] describes.
    pub fn button_rows(&self) -> (rows: Vec<Vec<usize>>)
        ensures
            button_row_indices(self.options@.len() as int, rows@.map_values(|r: Vec<usize>| r@)),
    {
        let n = self.options.len();
        let mut rows: Vec<Vec<usize>> = Vec::new();
        let mut start: usize = 0;
        while start < n
            invariant
                start <= n,
                n == self.options@.len(),
                start < n || start == 0,
                start % 5 == 0,
                rows@.len() == start / 5,
                forall|i: int| 0 <= i < rows@.len() ==> #[trigger] rows@[i]@.len() == 5,
                forall|i: int, j: int| 0 <= i < rows@.len() && 0 <= j < rows@[i]@.len() ==> #[trigger] rows@[i]@[j] == 5 * i + j,
            decreases n - start,
        {
            let end = if n - start > 5 { start + 5 } else { n };
            let mut row: Vec<usize> = Vec::new();
            let mut k = start;
            while k < end
                invariant
                    start <= k <= end,
                    row@.len() == k - start,
                    forall|j: int| 0 <= j < row@.len() ==> #[trigger] row@[j] == start + j,
                decreases end - k,
            {
                row.push(k);
                k = k + 1;
            }
            if end < n {
                rows.push(row);
                start = end;
            } else {
                rows.push(row);
                start = n;
                assert(rows@.len() == (n + 4) / 5);
                let ghost v = rows@.map_values(|r: Vec<usize>| r@);
                assert forall|i: int| 0 <= i < v.len() implies #[trigger] v[i].len() == (if 5 * i + 5 <= n { 5 } else { n - 5 * i }) by {
                    assert(v[i] == rows@[i]@);
                }
                assert forall|i: int, j: int| 0 <= i < v.len() && 0 <= j < v[i].len() implies #[trigger] v[i][j] == 5 * i + j by {
                    assert(v[i] == rows@[i]@);
                }
                return rows;
            }
        }
        let ghost v = rows@.map_values(|r: Vec<usize>| r@);
        assert forall|i: int| 0 <= i < v.len() implies #[trigger] v[i].len() == (if 5 * i + 5 <= n { 5 } else { n - 5 * i }) by {
            assert(v[i] == rows@[i]@);
        }
        assert forall|i: int, j: int| 0 <= i < v.len() && 0 <= j < v[i].len() implies #[trigger] v[i][j] == 5 * i + j by {
            assert(v[i] == rows@[i]@);
        }
        rows
    }

    /// The option a click picks: nothing when someone other than the author of the
    /// embed clicks; else the first option whose label is the clicked button's id.
    pub fn clicked_option(&self, author: u64, clicker: u64, custom_id: &str) -> (r: Option<usize>)
        ensures
            author != clicker ==> r is None,
            author == clicker ==> match r {
                Some(i) => first_label_match(self.options@, custom_id@) == Some(i as int),
                None => first_label_match(self.options@, custom_id@) is None,
            },
    {
        if author != clicker {
            return None;
        }
        let mut i: usize = 0;
        while i < self.options.len()
            invariant
                author == clicker,
                i <= self.options@.len(),
                forall|j: int| 0 <= j < i ==> (#[trigger] self.options@[j]).button.label@ != custom_id@,
            decreases self.options@.len() - i,
        {
            if str_eq(self.options[i].button.label.as_str(), custom_id) {
                proof {
                    let c = choose|c: int|
                        0 <= c < self.options@.len() && (#[trigger] self.options@[c]).button.label@
                            == custom_id@ && forall|j: int|
                            0 <= j < c ==> (#[trigger] self.options@[j]).button.label@ != custom_id@;
                    assert(c == i);
                }
                return Some(i);
            }
            i = i + 1;
        }
        None
    }
}

/// The text of the embed that builds a reminder duration.
pub open spec fn time_embed_text(secs: int) -> Seq<char> {
    if secs > 0 {
        "Setting a reminder for "@ + duration_text(secs, false) + " before the moment of launch."@
    } else {
        "Please start specifying a duration using the buttons below:"@
    }
}

/// The labels of the buttons that add time, and the seconds each adds.
pub open spec fn time_steps() -> Seq<(Seq<char>, int)> {
    seq![
        ("1 day"@, 86400),
        ("6 hours"@, 21600),
        ("1 hour"@, 3600),
        ("15 minutes"@, 900),
        ("5 minutes"@, 300),
    ]
}

/// The text of one time button is the rendering of the seconds it adds.
proof fn lemma_step_label(i: int)
    requires
        0 <= i < time_steps().len(),
    ensures
        time_steps()[i].0 == duration_text(time_steps()[i].1, true),
{
    reveal_strlit("day");
    reveal_strlit("hour");
    reveal_strlit("minute");
    reveal_strlit("1 day");
    reveal_strlit("6 hours");
    reveal_strlit("1 hour");
    reveal_strlit("15 minutes");
    reveal_strlit("5 minutes");
    let e = Seq::<char>::empty();
    assert(nat_to_decimal(1) == seq!['1']);
    assert(nat_to_decimal(5) == seq!['5']);
    assert(nat_to_decimal(6) == seq!['6']);
    assert(nat_to_decimal(15) == seq!['1', '5']) by {
        assert(nat_to_decimal(1) == seq!['1']);
        assert(15nat / 10 == 1 && 15nat % 10 == 5);
    }
    if i == 0 {
        assert(duration_text(86400, true) == parts_text(1, 0, 0, 0, true));
        assert(unit_text(1, "day"@) =~= "1 day"@);
        assert(days_piece(1) + hours_piece(1, 0, 0, 0) + minutes_piece(1, 0, 0, 0) + seconds_piece(1, 0, 0, 0, true)
            =~= "1 day"@);
    } else if i == 1 {
        assert(duration_text(21600, true) == parts_text(0, 6, 0, 0, true));
        assert(unit_text(6, "hour"@) =~= "6 hours"@);
        assert(days_piece(0) + hours_piece(0, 6, 0, 0) + minutes_piece(0, 6, 0, 0) + seconds_piece(0, 6, 0, 0, true)
            =~= "6 hours"@);
    } else if i == 2 {
        assert(duration_text(3600, true) == parts_text(0, 1, 0, 0, true));
        assert(unit_text(1, "hour"@) =~= "1 hour"@);
        assert(days_piece(0) + hours_piece(0, 1, 0, 0) + minutes_piece(0, 1, 0, 0) + seconds_piece(0, 1, 0, 0, true)
            =~= "1 hour"@);
    } else if i == 3 {
        assert(duration_text(900, true) == parts_text(0, 0, 15, 0, true));
        assert(unit_text(15, "minute"@) =~= "15 minutes"@);
        assert(days_piece(0) + hours_piece(0, 0, 15, 0) + minutes_piece(0, 0, 15, 0) + seconds_piece(0, 0, 15, 0, true)
            =~= "15 minutes"@);
    } else {
        assert(duration_text(300, true) == parts_text(0, 0, 5, 0, true));
        assert(unit_text(5, "minute"@) =~= "5 minutes"@);
        assert(days_piece(0) + hours_piece(0, 0, 5, 0) + minutes_piece(0, 0, 5, 0) + seconds_piece(0, 0, 5, 0, true)
            =~= "5 minutes"@);
    }
}

/// Every time button adds exactly the duration its label reads as: reading the
/// label as a duration gives the seconds the button adds.
pub proof fn lemma_time_steps_read_as_labelled()
    ensures
        forall|i: int| 0 <= i < time_steps().len() ==> duration_in_text(#[trigger] time_steps()[i].0) == time_steps()[i].1,
{
    assert forall|i: int| 0 <= i < time_steps().len() implies duration_in_text(#[trigger] time_steps()[i].0) == time_steps()[i].1 by {
        lemma_step_label(i);
        lemma_duration_text_roundtrip(time_steps()[i].1);
    }
}

/// An embed that adds up a duration from button presses; `handler` runs with the
/// duration when it is submitted.
#[derive(Debug, Clone)]
pub struct TimeEmbed<H> {
    pub handler: H,
    pub duration: i64,
}

/// A blue button with a plus sign.
pub fn add_button(text: &str) -> (r: ButtonType)
    ensures
        r.label@ == text@,
        r.style == ButtonStyle::Primary,
        r.emoji matches Some(Emoji::Unicode(s)) && s@ == seq!['\u{2795}'],
{
    ButtonType {
        label: String::from_str(text),
        style: ButtonStyle::Primary,
        emoji: Some(Emoji::from_char('\u{2795}')),
    }
}

impl<H> TimeEmbed<H> {
    /// Starts at zero.
    pub fn new(handler: H) -> (r: Self)
        ensures
            r.handler == handler,
            r.duration == 0,
    {
        TimeEmbed { handler, duration: 0 }
    }

    /// The same embed with `secs` more seconds.
    pub fn add_duration(self, secs: i64) -> (r: Self)
        requires
            -DURATION_MAX_SECS <= self.duration + secs <= DURATION_MAX_SECS,
        ensures
            r.handler == self.handler,
            r.duration == self.duration + secs,
    {
        TimeEmbed { handler: self.handler, duration: secs + self.duration }
    }

    /// The text shown, as [`time_embed_text`] says.
    pub fn description(&self) -> (r: String)
        ensures
            r@ == time_embed_text(self.duration as int),
    {
        if self.duration > 0 {
            let mut r = String::from_str("Setting a reminder for ");
            let d = format_duration(self.duration, false);
            r.append(d.as_str());
            r.append(" before the moment of launch.");
            r
        } else {
            String::from_str("Please start specifying a duration using the buttons below:")
        }
    }

    /// The buttons that add time, with the seconds each adds, in the order shown.
    pub fn steps() -> (r: Vec<(ButtonType, i64)>)
        ensures
            r@.len() == time_steps().len(),
            forall|i: int| 0 <= i < r@.len() ==> (#[trigger] r@[i]).0.label@ == time_steps()[i].0
                && r@[i].1 == time_steps()[i].1 && r@[i].0.style == ButtonStyle::Primary,
    {
        let mut r: Vec<(ButtonType, i64)> = Vec::new();
        r.push((add_button("1 day"), 86400));
        r.push((add_button("6 hours"), 21600));
        r.push((add_button("1 hour"), 3600));
        r.push((add_button("15 minutes"), 900));
        r.push((add_button("5 minutes"), 300));
        r
    }
}

} // verus!
