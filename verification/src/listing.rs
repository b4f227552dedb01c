//! The launch commands' pages: the pages of the launch list with their buttons,
//! the texts that describe one launch, and the list of filters.

use vstd::prelude::*;
use vstd::utf8::{encode_utf8, is_char_boundary};
use vstd::string::StringSliceAdditionalSpecFns;
use crate::durations::{duration_text, format_duration};
use crate::filters::{
    FilterErrorType, agency_entries, agency_map, filter_error_label, vehicle_entries, vehicle_map,
};
use crate::launches::{LaunchData, LaunchStatus, status_label};
use crate::lexical::{TextKey, sort_by_text, text_sorted};
use crate::text::{
    cutoff_end, cutoff_on_last_dot, i64_to_decimal, int_to_decimal, lemma_encode_utf8_concat,
};

verus! {

/// The launches a list page draws from: all of them, or those that are certain.
pub open spec fn shown_launches(list: Seq<LaunchData>, all: bool) -> Seq<LaunchData> {
    if all {
        list
    } else {
        list.filter(|l: LaunchData| l.status == LaunchStatus::Go)
    }
}

/// The name of a launch's field on a list page: "number: vehicle - status".
pub open spec fn launch_field_name(l: LaunchData) -> Seq<char> {
    int_to_decimal(l.id as int) + ": "@ + l.vehicle@ + " - "@ + status_label(l.status)
}

/// The value of a launch's field on a list page.
pub open spec fn launch_field_value(l: LaunchData) -> Seq<char> {
    "**Payload:** "@ + l.payload@ + "\n**NET:** <t:"@ + int_to_decimal(l.net as int) + ">\n**Provider:** "@
        + l.lsp@ + "\n**Location:** "@ + l.location@
}

/// The buttons of a list page.
#[derive(Debug, Clone, Copy, PartialEq, Eq, Structural)]
pub enum ListButton {
    First,
    Back,
    OnlyCertain,
    IncludeUncertain,
    Forward,
    Last,
    Exit,
}

/// A button of a list page and the page it opens: its number and whether it shows
/// all launches; the exit button opens none.
#[derive(Debug, Clone, Copy, PartialEq, Eq)]
pub struct PageButton {
    pub button: ListButton,
    pub target: Option<(usize, bool)>,
}

/// The highest page number of a list of `n` launches, ten to a page.
pub open spec fn max_page(n: int) -> int {
    (n - 1) / 10
}

/// The buttons of page `page` of a list of `list_len` launches, of which `shown`
/// are shown: first and back pages after the first page; a switch to the certain
/// launches when all are shown and some are certain, or to all launches when only
/// the certain ones are; next and last pages before the last page; and exit.
pub open spec fn list_buttons(list_len: int, shown: Seq<LaunchData>, page: int, all: bool) -> Seq<PageButton> {
    let back = if page > 0 {
        seq![
            PageButton { button: ListButton::First, target: Some((0usize, true)) },
            PageButton { button: ListButton::Back, target: Some(((page - 1) as usize, true)) },
        ]
    } else {
        Seq::<PageButton>::empty()
    };
    let any_go = exists|i: int| 0 <= i < shown.len() && (#[trigger] shown[i]).status == LaunchStatus::Go;
    let switch = if all && any_go {
        seq![PageButton { button: ListButton::OnlyCertain, target: Some((0usize, false)) }]
    } else if !all {
        seq![PageButton { button: ListButton::IncludeUncertain, target: Some((0usize, true)) }]
    } else {
        Seq::<PageButton>::empty()
    };
    let forward = if page < max_page(shown.len() as int) {
        seq![
            PageButton { button: ListButton::Forward, target: Some(((page + 1) as usize, true)) },
            PageButton { button: ListButton::Last, target: Some(((list_len / 10 - 1) as usize, true)) },
        ]
    } else {
        Seq::<PageButton>::empty()
    };
    back + switch + forward + seq![PageButton { button: ListButton::Exit, target: None }]
}

/// A page of the launch list.
#[derive(Debug, Clone)]
pub struct ListPage {
    pub description: String,
    pub fields: Vec<(String, String)>,
    pub buttons: Vec<PageButton>,
}

/// The text at the top of the list of all launches.
pub open spec fn all_launches_text() -> Seq<char> {
    "\n            This list shows the upcoming launches (max 100), both certain and uncertain.\nUse the arrow reactions to get to other pages and the green reaction to filter on only the launches that are certain.\n            "@
}

/// The text at the top of the list of certain launches.
pub open spec fn certain_launches_text() -> Seq<char> {
    "\n            This list shows upcoming launches that are certain.\nUse the arrow reactions to get to other pages and the red reaction to get all the launches.\n            "@
}

/// The positions in `list` of the launches a page draws from.
pub fn shown_positions(list: &Vec<LaunchData>, all: bool) -> (r: Vec<usize>)
    ensures
        r@.len() == shown_launches(list@, all).len(),
        forall|k: int| 0 <= k < r@.len() ==> #[trigger] r@[k] < list@.len() && list@[r@[k] as int]
            == shown_launches(list@, all)[k],
{
    let ghost pred = |l: LaunchData| l.status == LaunchStatus::Go;
    let mut r: Vec<usize> = Vec::new();
    let mut i: usize = 0;
    assert(list@.take(0) =~= Seq::<LaunchData>::empty());
    while i < list.len()
        invariant
            i <= list@.len(),
            pred == (|l: LaunchData| l.status == LaunchStatus::Go),
            r@.len() == (if all { list@.take(i as int) } else { list@.take(i as int).filter(pred) }).len(),
            forall|k: int| 0 <= k < r@.len() ==> #[trigger] r@[k] < i && list@[r@[k] as int] == (if all {
                list@.take(i as int)
            } else {
                list@.take(i as int).filter(pred)
            })[k],
        decreases list@.len() - i,
    {
        proof {
            assert(list@.take(i + 1) =~= list@.take(i as int).push(list@[i as int]));
            list@.take(i as int).lemma_filter_push(list@[i as int], pred);
        }
        if all || list[i].status == LaunchStatus::Go {
            r.push(i);
        }
        i = i + 1;
    }
    assert(list@.take(list@.len() as int) =~= list@);
    r
}

/// The launches that are certain (status `Go`), in order.
pub fn certain_launches(v: Vec<LaunchData>) -> (r: Vec<LaunchData>)
    ensures
        r@ == shown_launches(v@, false),
{
    let ghost orig = v@;
    let ghost pred = |l: LaunchData| l.status == LaunchStatus::Go;
    let mut input = v;
    let mut out: Vec<LaunchData> = Vec::new();
    let ghost mut c: int = 0;
    assert(orig.skip(0) =~= orig);
    assert(orig.take(0) =~= Seq::<LaunchData>::empty());
    while input.len() > 0
        invariant
            0 <= c <= orig.len(),
            input@ == orig.skip(c),
            out@ == orig.take(c).filter(pred),
            pred == (|l: LaunchData| l.status == LaunchStatus::Go),
        decreases input@.len(),
    {
        let x = input.remove(0);
        proof {
            assert(x == orig[c]);
            assert(input@ =~= orig.skip(c + 1));
            assert(orig.take(c + 1) =~= orig.take(c).push(x));
            orig.take(c).lemma_filter_push(x, pred);
        }
        if x.status == LaunchStatus::Go {
            out.push(x);
        }
        proof {
            c = c + 1;
        }
    }
    assert(orig.take(c) =~= orig);
    out
}

/// The position of the first launch of `list` with the given number, if any.
pub fn launch_by_number(list: &Vec<LaunchData>, id: i32) -> (r: Option<usize>)
    ensures
        match r {
            Some(i) => i < list@.len() && list@[i as int].id == id && forall|k: int| 0 <= k < i ==> (#[trigger] list@[k]).id != id,
            None => forall|k: int| 0 <= k < list@.len() ==> (#[trigger] list@[k]).id != id,
        },
{
    let mut i: usize = 0;
    while i < list.len()
        invariant
            i <= list@.len(),
            forall|k: int| 0 <= k < i ==> (#[trigger] list@[k]).id != id,
        decreases list@.len() - i,
    {
        if list[i].id == id {
            return Some(i);
        }
        i = i + 1;
    }
    None
}

/// Whether some launch of `list` at the given positions is certain.
fn any_certain(list: &Vec<LaunchData>, pos: &Vec<usize>) -> (r: bool)
    requires
        forall|k: int| 0 <= k < pos@.len() ==> #[trigger] pos@[k] < list@.len(),
    ensures
        r == exists|k: int| 0 <= k < pos@.len() && (#[trigger] list@[pos@[k] as int]).status == LaunchStatus::Go,
{
    let mut k: usize = 0;
    while k < pos.len()
        invariant
            k <= pos@.len(),
            forall|q: int| 0 <= q < pos@.len() ==> #[trigger] pos@[q] < list@.len(),
            forall|q: int| 0 <= q < k ==> (#[trigger] list@[pos@[q] as int]).status != LaunchStatus::Go,
        decreases pos@.len() - k,
    {
        if list[pos[k]].status == LaunchStatus::Go {
            return true;
        }
        k = k + 1;
    }
    false
}

/// The name of a launch's field on a list page, as [`launch_field_name`] says.
pub fn launch_field_title(l: &LaunchData) -> (r: String)
    ensures
        r@ == launch_field_name(*l),
{
    let mut r = i64_to_decimal(l.id as i64);
    r.append(": ");
    r.append(l.vehicle.as_str());
    r.append(" - ");
    r.append(l.status.as_str());
    r
}

/// The value of a launch's field on a list page, as [`launch_field_value`] says.
pub fn launch_field_text(l: &LaunchData) -> (r: String)
    ensures
        r@ == launch_field_value(*l),
{
    let mut r = String::from_str("**Payload:** ");
    r.append(l.payload.as_str());
    r.append("\n**NET:** <t:");
    let net = i64_to_decimal(l.net);
    r.append(net.as_str());
    r.append(">\n**Provider:** ");
    r.append(l.lsp.as_str());
    r.append("\n**Location:** ");
    r.append(l.location.as_str());
    r
}

/// Page `page_num` of the launch list, ten launches to a page: the text on top,
/// a field for each launch of the page and the buttons of [`list_buttons`]. The
/// list shows all launches of `list`, or the certain ones only; it must show some,
/// and the page must start within them.
pub fn list_page(list: &Vec<LaunchData>, page_num: usize, all: bool) -> (r: ListPage)
    requires
        shown_launches(list@, all).len() > 0,
        page_num * 10 <= shown_launches(list@, all).len(),
    ensures
        r.description@ == (if all { all_launches_text() } else { certain_launches_text() }),
        ({
            let shown = shown_launches(list@, all);
            let top = if page_num * 10 + 10 < shown.len() { page_num * 10 + 10 } else { shown.len() as int };
            &&& r.fields@.len() == top - page_num * 10
            &&& forall|j: int| 0 <= j < r.fields@.len() ==> (#[trigger] r.fields@[j]).0@ == launch_field_name(shown[page_num * 10 + j])
                && r.fields@[j].1@ == launch_field_value(shown[page_num * 10 + j])
        }),
        r.buttons@ == list_buttons(list@.len() as int, shown_launches(list@, all), page_num as int, all),
{
    let pos = shown_positions(list, all);
    let ghost shown = shown_launches(list@, all);
    let plen = pos.len();
    assert(page_num * 10 <= plen);
    let min = page_num * 10;
    let max_page = (pos.len() - 1) / 10;
    let top = if pos.len() - min > 10 {
        min + 10
    } else {
        pos.len()
    };
    let mut fields: Vec<(String, String)> = Vec::new();
    let mut k = min;
    while k < top
        invariant
            min <= k <= top,
            top <= pos@.len(),
            min == page_num * 10,
            pos@.len() == shown.len(),
            forall|q: int| 0 <= q < pos@.len() ==> #[trigger] pos@[q] < list@.len() && list@[pos@[q] as int] == shown[q],
            fields@.len() == k - min,
            forall|j: int| 0 <= j < fields@.len() ==> (#[trigger] fields@[j]).0@ == launch_field_name(shown[min + j])
                && fields@[j].1@ == launch_field_value(shown[min + j]),
        decreases top - k,
    {
        let l = &list[pos[k]];
        let name = launch_field_title(l);
        let value = launch_field_text(l);
        fields.push((name, value));
        k = k + 1;
    }
    let mut buttons: Vec<PageButton> = Vec::new();
    if page_num > 0 {
        buttons.push(PageButton { button: ListButton::First, target: Some((0, true)) });
        buttons.push(PageButton { button: ListButton::Back, target: Some((page_num - 1, true)) });
    }
    let any_go = any_certain(list, &pos);
    proof {
        let e1 = exists|k: int| 0 <= k < pos@.len() && (#[trigger] list@[pos@[k] as int]).status == LaunchStatus::Go;
        let e2 = exists|i: int| 0 <= i < shown.len() && (#[trigger] shown[i]).status == LaunchStatus::Go;
        if e1 {
            let k = choose|k: int| 0 <= k < pos@.len() && (#[trigger] list@[pos@[k] as int]).status == LaunchStatus::Go;
            assert(shown[k].status == LaunchStatus::Go);
        }
        if e2 {
            let i = choose|i: int| 0 <= i < shown.len() && (#[trigger] shown[i]).status == LaunchStatus::Go;
            assert(list@[pos@[i] as int].status == LaunchStatus::Go);
        }
        assert(any_go == e2);
    }
    if all && any_go {
        buttons.push(PageButton { button: ListButton::OnlyCertain, target: Some((0, false)) });
    } else if !all {
        buttons.push(PageButton { button: ListButton::IncludeUncertain, target: Some((0, true)) });
    }
    if page_num < max_page {
        proof {
            assert(list@.len() >= pos@.len()) by {
                if all {
                } else {
                    list@.filter_lemma(|l: LaunchData| l.status == LaunchStatus::Go);
                }
            }
        }
        buttons.push(PageButton { button: ListButton::Forward, target: Some((page_num + 1, true)) });
        buttons.push(PageButton { button: ListButton::Last, target: Some((list.len() / 10 - 1, true)) });
    }
    buttons.push(PageButton { button: ListButton::Exit, target: None });
    let description = if all {
        String::from_str("\n            This list shows the upcoming launches (max 100), both certain and uncertain.\nUse the arrow reactions to get to other pages and the green reaction to filter on only the launches that are certain.\n            ")
    } else {
        String::from_str("\n            This list shows upcoming launches that are certain.\nUse the arrow reactions to get to other pages and the red reaction to get all the launches.\n            ")
    };
    proof {
        assert(buttons@ =~= list_buttons(list@.len() as int, shown, page_num as int, all));
    }
    ListPage { description, fields, buttons }
}

/// The title of a launch's embed: the vehicle and, on the next line, the status.
pub open spec fn launch_title_text(l: LaunchData) -> Seq<char> {
    l.vehicle@ + "\nStatus: "@ + status_label(l.status)
}

/// The launch window as shown: its duration, or "instantaneous" when that renders
/// as nothing.
pub open spec fn window_text(secs: int) -> Seq<char> {
    if duration_text(secs, true).len() == 0 {
        "instantaneous"@
    } else {
        duration_text(secs, true)
    }
}

/// The description of the next launch.
pub open spec fn next_launch_text(l: LaunchData) -> Seq<char> {
    "**Payload:** "@ + l.payload@ + "\n**NET:** <t:"@ + int_to_decimal(l.net as int) + ">\n**Provider:** "@
        + l.lsp@ + "\n**Location:** "@ + l.location@ + "\n**Launch Window:** "@ + window_text(
        l.launch_window as int,
    )
}

/// The general information about a launch in its detailed view.
pub open spec fn general_info_text(l: LaunchData) -> Seq<char> {
    "**Payload:** "@ + l.payload@ + "\n**Provider:** "@ + l.lsp@ + "\n**Location:** "@ + l.location@
        + "\n**Launch Window:** "@ + window_text(l.launch_window as int)
}

/// The title of a launch's embed, as [`launch_title_text`] says.
pub fn launch_title(l: &LaunchData) -> (r: String)
    ensures
        r@ == launch_title_text(*l),
{
    let mut r = String::from_str(l.vehicle.as_str());
    r.append("\nStatus: ");
    r.append(l.status.as_str());
    r
}

/// The launch window as shown, as [`window_text`] says.
pub fn launch_window_text(secs: i64) -> (r: String)
    ensures
        r@ == window_text(secs as int),
{
    let w = format_duration(secs, true);
    if w.as_str().is_empty() {
        String::from_str("instantaneous")
    } else {
        w
    }
}

/// The description of the next launch, as [`next_launch_text`] says.
pub fn next_launch_description(l: &LaunchData) -> (r: String)
    ensures
        r@ == next_launch_text(*l),
{
    let mut r = String::from_str("**Payload:** ");
    r.append(l.payload.as_str());
    r.append("\n**NET:** <t:");
    let net = i64_to_decimal(l.net);
    r.append(net.as_str());
    r.append(">\n**Provider:** ");
    r.append(l.lsp.as_str());
    r.append("\n**Location:** ");
    r.append(l.location.as_str());
    r.append("\n**Launch Window:** ");
    let w = launch_window_text(l.launch_window);
    r.append(w.as_str());
    r
}

/// The general information about a launch, as [`general_info_text`] says.
pub fn general_info(l: &LaunchData) -> (r: String)
    ensures
        r@ == general_info_text(*l),
{
    let mut r = String::from_str("**Payload:** ");
    r.append(l.payload.as_str());
    r.append("\n**Provider:** ");
    r.append(l.lsp.as_str());
    r.append("\n**Location:** ");
    r.append(l.location.as_str());
    r.append("\n**Launch Window:** ");
    let w = launch_window_text(l.launch_window);
    r.append(w.as_str());
    r
}

/// The mission description of a launch as shown: in full when it has at most 1024
/// bytes, else cut after a sentence near 980 characters and marked as shortened.
pub fn mission_description_text(desc: &str) -> (r: String)
    requires
        desc.spec_bytes().len() > 1024 ==> (cutoff_end(desc@, 980) matches Some(b) ==> is_char_boundary(
            desc.spec_bytes(),
            b,
        )),
    ensures
        desc.spec_bytes().len() <= 1024 ==> r@ == desc@,
        desc.spec_bytes().len() > 1024 ==> (match cutoff_end(desc@, 980) {
            Some(b) => encode_utf8(r@) == desc.spec_bytes().subrange(0, b) + encode_utf8(
                " ...\nlength is too long for discord"@,
            ),
            None => r@ == desc@ + " ...\nlength is too long for discord"@,
        }),
{
    let bytes = desc.as_bytes();
    if bytes.len() > 1024 {
        let cut = cutoff_on_last_dot(desc, 980);
        let mut r = String::from_str(cut);
        r.append(" ...\nlength is too long for discord");
        proof {
            lemma_encode_utf8_concat(cut@, " ...\nlength is too long for discord"@);
            assert(cut.spec_bytes() == encode_utf8(cut@));
            assert(desc.spec_bytes() == encode_utf8(desc@));
            assert(r@ == cut@ + " ...\nlength is too long for discord"@);
            match cutoff_end(desc@, 980) {
                Some(b) => {
                    assert(cut.spec_bytes() == desc.spec_bytes().subrange(0, b));
                },
                None => {},
            }
        }
        r
    } else {
        String::from_str(desc)
    }
}

/// The links to more information about launch number `id`.
pub open spec fn launch_links_text(id: int) -> Seq<char> {
    "**My Source:** [The Space Devs](https://thespacedevs.com)\n**Rocket Watch:** [rocket.watch](https://rocket.watch/#id="@
        + int_to_decimal(id) + ")\n**Go4Liftoff:** [go4liftoff.com](https://go4liftoff.com/#page=singleLaunch?filters=launchID="@
        + int_to_decimal(id) + ")"@
}

/// The links to more information about a launch, as [`launch_links_text`] says.
pub fn launch_links(id: i32) -> (r: String)
    ensures
        r@ == launch_links_text(id as int),
{
    let n = i64_to_decimal(id as i64);
    let mut r = String::from_str(
        "**My Source:** [The Space Devs](https://thespacedevs.com)\n**Rocket Watch:** [rocket.watch](https://rocket.watch/#id=",
    );
    r.append(n.as_str());
    r.append(")\n**Go4Liftoff:** [go4liftoff.com](https://go4liftoff.com/#page=singleLaunch?filters=launchID=");
    r.append(n.as_str());
    r.append(")");
    r
}

/// The answer to a filter that found no launch: an invalid filter is pointed to
/// the list of filters; otherwise the kind of filter is named, with "listed as
/// certain" when only certain launches were asked for.
pub open spec fn filter_error_text(e: FilterErrorType, certain_only: bool) -> Seq<char> {
    if e == FilterErrorType::Invalid {
        "This is not a valid filter, please take a look at those listed in `/filtersinfo`"@
    } else if certain_only {
        "This "@ + filter_error_label(e) + " does not have any upcoming launches listed as certain :("@
    } else {
        "This "@ + filter_error_label(e) + " does not have any upcoming launches :("@
    }
}

/// The answer to a filter that found no launch, as [`filter_error_text`] says.
pub fn filter_error_message(e: FilterErrorType, certain_only: bool) -> (r: String)
    ensures
        r@ == filter_error_text(e, certain_only),
{
    if e == FilterErrorType::Invalid {
        String::from_str("This is not a valid filter, please take a look at those listed in `/filtersinfo`")
    } else {
        let mut r = String::from_str("This ");
        r.append(e.label());
        if certain_only {
            r.append(" does not have any upcoming launches listed as certain :(");
        } else {
            r.append(" does not have any upcoming launches :(");
        }
        r
    }
}

/// A filter key and what it stands for, ordered by the key.
#[derive(Debug, Clone, Copy, PartialEq, Eq)]
pub struct FilterEntry {
    pub key: &'static str,
    pub name: &'static str,
}

impl TextKey for FilterEntry {
    open spec fn text_key(&self) -> Seq<char> {
        self.key@
    }

    fn key_str(&self) -> (r: &str) {
        self.key
    }
}

/// The vehicle filters, each standing for itself.
pub open spec fn vehicle_filter_entries() -> Seq<FilterEntry> {
    vehicle_entries().map_values(|e: (&'static str, Seq<&'static str>)| FilterEntry { key: e.0, name: e.0 })
}

/// The agency filters with the agencies' names.
pub open spec fn agency_filter_entries() -> Seq<FilterEntry> {
    agency_entries().map_values(|e: (&'static str, &'static str)| FilterEntry { key: e.0, name: e.1 })
}

/// How an entry is listed: the key alone, or "**key**: name" for an agency.
pub open spec fn entry_line(e: FilterEntry, agency: bool) -> Seq<char> {
    if agency {
        "**"@ + e.key@ + "**: "@ + e.name@
    } else {
        e.key@
    }
}

/// The lines of the entries, joined by `sep`.
pub open spec fn joined_entries(es: Seq<FilterEntry>, agency: bool, sep: Seq<char>) -> Seq<char>
    decreases es.len(),
{
    if es.len() == 0 {
        Seq::<char>::empty()
    } else if es.len() == 1 {
        entry_line(es[0], agency)
    } else {
        joined_entries(es.drop_last(), agency, sep) + sep + entry_line(es.last(), agency)
    }
}

/// Joins the lines of `es[from..to]` with `sep`.
fn join_entries(es: &Vec<FilterEntry>, from: usize, to: usize, agency: bool, sep: &str) -> (r: String)
    requires
        from <= to <= es@.len(),
    ensures
        r@ == joined_entries(es@.subrange(from as int, to as int), agency, sep@),
{
    let mut r = String::new();
    let mut i = from;
    assert(es@.subrange(from as int, from as int) =~= Seq::<FilterEntry>::empty());
    while i < to
        invariant
            from <= i <= to,
            to <= es@.len(),
            r@ == joined_entries(es@.subrange(from as int, i as int), agency, sep@),
        decreases to - i,
    {
        let ghost prev = es@.subrange(from as int, i as int);
        assert(es@.subrange(from as int, i + 1).drop_last() =~= prev);
        if i > from {
            r.append(sep);
        } else {
            assert(es@.subrange(from as int, i + 1) =~= seq![es@[i as int]]);
        }
        let e = es[i];
        if agency {
            r.append("**");
            r.append(e.key);
            r.append("**: ");
            r.append(e.name);
        } else {
            r.append(e.key);
        }
        i = i + 1;
    }
    r
}

/// The three lists of the filters command.
pub struct FiltersInfo {
    pub vehicles: String,
    pub agencies_first: String,
    pub agencies_second: String,
}

/// The lists of the filters command: the vehicle keys sorted, joined by ", "; and
/// the agencies sorted by key, each as "**key**: name", the first half and the
/// rest, each joined by line breaks.
pub fn filters_info() -> (r: FiltersInfo)
    ensures
        exists|vs: Seq<FilterEntry>, ags: Seq<FilterEntry>|
            #![trigger vs.to_multiset(), ags.to_multiset()]
            {
                &&& text_sorted(vs)
                &&& vs.to_multiset() == vehicle_filter_entries().to_multiset()
                &&& r.vehicles@ == joined_entries(vs, false, ", "@)
                &&& text_sorted(ags)
                &&& ags.to_multiset() == agency_filter_entries().to_multiset()
                &&& r.agencies_first@ == joined_entries(ags.take((ags.len() / 2) as int), true, "\n"@)
                &&& r.agencies_second@ == joined_entries(ags.skip((ags.len() / 2) as int), true, "\n"@)
            },
{
    let vmap = vehicle_map();
    let mut ventries: Vec<FilterEntry> = Vec::new();
    let mut i: usize = 0;
    while i < vmap.len()
        invariant
            i <= vmap@.len(),
            vmap@.len() == vehicle_entries().len(),
            forall|k: int| 0 <= k < vmap@.len() ==> (#[trigger] vmap@[k]).0 == vehicle_entries()[k].0,
            ventries@ == vehicle_filter_entries().take(i as int),
        decreases vmap@.len() - i,
    {
        let key = vmap[i].0;
        ventries.push(FilterEntry { key, name: key });
        proof {
            assert(ventries@ =~= vehicle_filter_entries().take(i + 1));
        }
        i = i + 1;
    }
    assert(ventries@ =~= vehicle_filter_entries());
    let vsorted = sort_by_text(ventries);
    let vehicles = join_entries(&vsorted, 0, vsorted.len(), false, ", ");
    let amap = agency_map();
    let mut aentries: Vec<FilterEntry> = Vec::new();
    let mut j: usize = 0;
    while j < amap.len()
        invariant
            j <= amap@.len(),
            amap@ == agency_entries(),
            aentries@ == agency_filter_entries().take(j as int),
        decreases amap@.len() - j,
    {
        let (key, name) = amap[j];
        aentries.push(FilterEntry { key, name });
        proof {
            assert(aentries@ =~= agency_filter_entries().take(j + 1));
        }
        j = j + 1;
    }
    assert(aentries@ =~= agency_filter_entries());
    let asorted = sort_by_text(aentries);
    let half = asorted.len() / 2;
    let first = join_entries(&asorted, 0, half, true, "\n");
    let second = join_entries(&asorted, half, asorted.len(), true, "\n");
    proof {
        assert(vsorted@.subrange(0, vsorted@.len() as int) =~= vsorted@);
        assert(asorted@.subrange(0, half as int) =~= asorted@.take(half as int));
        assert(asorted@.subrange(half as int, asorted@.len() as int) =~= asorted@.skip(half as int));
    }
    FiltersInfo { vehicles, agencies_first: first, agencies_second: second }
}

} // verus!
