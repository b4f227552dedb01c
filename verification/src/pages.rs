//! The texts of the reminder settings pages.

use vstd::prelude::*;
use crate::durations::{DURATION_MAX_SECS, duration_text, format_duration};
use crate::filters::{agency_entries, agency_map, agency_name, agency_of};
use crate::menus::MenuOption;
use crate::reminders::{Reminder, State, filter_display, regex_filter_to_string};
use crate::text::{nat_to_decimal, str_eq, u64_to_decimal};

verus! {

/// The lines listing the reminders: "- " and how long before launch each is sent.
pub open spec fn reminder_lines(rs: Seq<Reminder>) -> Seq<char>
    decreases rs.len(),
{
    if rs.len() == 0 {
        Seq::<char>::empty()
    } else {
        reminder_lines(rs.drop_last()) + "\n- "@ + duration_text(rs.last().minutes * 60, false)
    }
}

/// The text of the reminders page.
pub open spec fn reminders_text(rs: Seq<Reminder>) -> Seq<char> {
    if rs.len() == 0 {
        "No reminders have been set yet"@
    } else {
        "The following reminders have been set:"@ + reminder_lines(rs)
    }
}

/// The text of the reminders page, as [`reminders_text`] says.
pub fn reminders_description(reminders: &Vec<Reminder>) -> (r: String)
    requires
        forall|i: int| 0 <= i < reminders@.len() ==> -DURATION_MAX_SECS <= #[trigger] reminders@[i].minutes * 60
            <= DURATION_MAX_SECS,
    ensures
        r@ == reminders_text(reminders@),
{
    if reminders.len() == 0 {
        return String::from_str("No reminders have been set yet");
    }
    let mut r = String::from_str("The following reminders have been set:");
    let ghost head = r@;
    let mut i: usize = 0;
    assert(reminders@.take(0) =~= Seq::<Reminder>::empty());
    while i < reminders.len()
        invariant
            i <= reminders@.len(),
            head == "The following reminders have been set:"@,
            r@ == head + reminder_lines(reminders@.take(i as int)),
            forall|k: int| 0 <= k < reminders@.len() ==> -DURATION_MAX_SECS <= #[trigger] reminders@[k].minutes
                * 60 <= DURATION_MAX_SECS,
        decreases reminders@.len() - i,
    {
        r.append("\n- ");
        let d = format_duration(reminders[i].get_duration(), false);
        r.append(d.as_str());
        assert(reminders@.take(i + 1).drop_last() =~= reminders@.take(i as int));
        i = i + 1;
    }
    assert(reminders@.take(reminders@.len() as int) =~= reminders@);
    r
}

/// How an agency filter is listed: the agency's name, or "unknown agency".
pub open spec fn agency_line(key: Seq<char>) -> Seq<char> {
    "\n`"@ + (match agency_of(key) {
        Some(n) => n@,
        None => "unknown agency"@,
    }) + "`"@
}

/// The lines listing agency filters.
pub open spec fn agency_lines(keys: Seq<String>) -> Seq<char>
    decreases keys.len(),
{
    if keys.len() == 0 {
        Seq::<char>::empty()
    } else {
        agency_lines(keys.drop_last()) + agency_line(keys.last()@)
    }
}

/// The text of a page of agency filters; `allow` for the filters that select the
/// only agencies reminded of.
pub open spec fn agency_filters_text(keys: Seq<String>, allow: bool) -> Seq<char> {
    if keys.len() == 0 {
        if allow {
            "No agency allow filters have been set yet"@
        } else {
            "No agency filters have been set yet"@
        }
    } else {
        (if allow {
            "The following agency allow filters have been set:"@
        } else {
            "The following agency filters have been set:"@
        }) + agency_lines(keys)
    }
}

/// The text of a page of agency filters, as [`agency_filters_text`] says.
pub fn agency_filters_description(filters: &Vec<String>, allow: bool) -> (r: String)
    ensures
        r@ == agency_filters_text(filters@, allow),
{
    if filters.len() == 0 {
        return if allow {
            String::from_str("No agency allow filters have been set yet")
        } else {
            String::from_str("No agency filters have been set yet")
        };
    }
    let mut r = if allow {
        String::from_str("The following agency allow filters have been set:")
    } else {
        String::from_str("The following agency filters have been set:")
    };
    let ghost head = r@;
    let mut i: usize = 0;
    assert(filters@.take(0) =~= Seq::<String>::empty());
    while i < filters.len()
        invariant
            i <= filters@.len(),
            r@ == head + agency_lines(filters@.take(i as int)),
        decreases filters@.len() - i,
    {
        r.append("\n`");
        match agency_name(filters[i].as_str()) {
            Some(n) => r.append(n),
            None => r.append("unknown agency"),
        }
        r.append("`");
        assert(filters@.take(i + 1).drop_last() =~= filters@.take(i as int));
        i = i + 1;
    }
    assert(filters@.take(filters@.len() as int) =~= filters@);
    r
}

/// The lines listing payload filters, each shown as a plain word where it is one.
pub open spec fn payload_lines(pats: Seq<String>) -> Seq<char>
    decreases pats.len(),
{
    if pats.len() == 0 {
        Seq::<char>::empty()
    } else {
        payload_lines(pats.drop_last()) + "\n`"@ + filter_display(pats.last()@) + "`"@
    }
}

/// The text of the payload filters page.
pub open spec fn payload_filters_text(pats: Seq<String>) -> Seq<char> {
    if pats.len() == 0 {
        "No payload filters have been added yet"@
    } else {
        "The following payload filters have been added:"@ + payload_lines(pats)
    }
}

/// The text of the payload filters page, as [`payload_filters_text`] says.
pub fn payload_filters_description(filters: &Vec<String>) -> (r: String)
    ensures
        r@ == payload_filters_text(filters@),
{
    if filters.len() == 0 {
        return String::from_str("No payload filters have been added yet");
    }
    let mut r = String::from_str("The following payload filters have been added:");
    let ghost head = r@;
    let mut i: usize = 0;
    assert(filters@.take(0) =~= Seq::<String>::empty());
    while i < filters.len()
        invariant
            i <= filters@.len(),
            r@ == head + payload_lines(filters@.take(i as int)),
        decreases filters@.len() - i,
    {
        r.append("\n`");
        let shown = regex_filter_to_string(filters[i].as_str());
        r.append(shown.as_str());
        r.append("`");
        assert(filters@.take(i + 1).drop_last() =~= filters@.take(i as int));
        i = i + 1;
    }
    assert(filters@.take(filters@.len() as int) =~= filters@);
    r
}

/// The lines listing role names.
pub open spec fn role_lines(names: Seq<String>) -> Seq<char>
    decreases names.len(),
{
    if names.len() == 0 {
        Seq::<char>::empty()
    } else {
        role_lines(names.drop_last()) + "\n`"@ + names.last()@ + "`"@
    }
}

/// The text of the mentions page: when some roles are set, the names of those that
/// still exist; otherwise a note that none is set.
pub open spec fn mentions_page_text(any_set: bool, names: Seq<String>) -> Seq<char> {
    if any_set {
        "The following roles have been set to be mentioned:"@ + role_lines(names)
    } else {
        "No role mentions have been set yet"@
    }
}

/// The text of the mentions page, as [`mentions_page_text`] says; `names` are the
/// names of the set roles that still exist.
pub fn mentions_description(any_set: bool, names: &Vec<String>) -> (r: String)
    ensures
        r@ == mentions_page_text(any_set, names@),
{
    if !any_set {
        return String::from_str("No role mentions have been set yet");
    }
    let mut r = String::from_str("The following roles have been set to be mentioned:");
    let ghost head = r@;
    let mut i: usize = 0;
    assert(names@.take(0) =~= Seq::<String>::empty());
    while i < names.len()
        invariant
            i <= names@.len(),
            r@ == head + role_lines(names@.take(i as int)),
        decreases names@.len() - i,
    {
        r.append("\n`");
        r.append(names[i].as_str());
        r.append("`");
        assert(names@.take(i + 1).drop_last() =~= names@.take(i as int));
        i = i + 1;
    }
    assert(names@.take(names@.len() as int) =~= names@);
    r
}

/// The roles set to be mentioned that are not among the server's roles, in the
/// order they were set.
pub open spec fn roles_gone(mentions: Seq<u64>, roles: Seq<u64>) -> Seq<u64> {
    mentions.filter(|m: u64| !roles.contains(m))
}

/// The mentioned roles that no longer exist in the server, as [`roles_gone`] says.
pub fn missing_roles(mentions: &Vec<u64>, roles: &Vec<u64>) -> (r: Vec<u64>)
    ensures
        r@ == roles_gone(mentions@, roles@),
{
    let ghost pred = |m: u64| !roles@.contains(m);
    let mut r: Vec<u64> = Vec::new();
    let mut i: usize = 0;
    assert(mentions@.take(0) =~= Seq::<u64>::empty());
    while i < mentions.len()
        invariant
            i <= mentions@.len(),
            pred == (|m: u64| !roles@.contains(m)),
            r@ == mentions@.take(i as int).filter(pred),
        decreases mentions@.len() - i,
    {
        let m = mentions[i];
        let mut found = false;
        let mut j: usize = 0;
        while j < roles.len()
            invariant
                j <= roles@.len(),
                found == exists|k: int| 0 <= k < j && roles@[k] == m,
            decreases roles@.len() - j,
        {
            if roles[j] == m {
                found = true;
            }
            j = j + 1;
        }
        proof {
            assert(mentions@.take(i + 1) =~= mentions@.take(i as int).push(m));
            mentions@.take(i as int).lemma_filter_push(m, pred);
            if found {
                let k = choose|k: int| 0 <= k < roles@.len() && roles@[k] == m;
                assert(roles@.contains(m));
            }
        }
        if !found {
            r.push(m);
        }
        i = i + 1;
    }
    assert(mentions@.take(mentions@.len() as int) =~= mentions@);
    r
}

/// Where a server's scrub and outcome notifications go, or a warning that they go
/// nowhere yet.
pub open spec fn notifications_channel_text(channel: Option<u64>) -> Seq<char> {
    match channel {
        Some(c) => "\nScrub and outcome notifications will be posted in: <#"@ + nat_to_decimal(c as nat) + ">"@,
        None => "\n**warning:** no notifications channel has been set yet!"@,
    }
}

/// Where a server's notifications go, as [`notifications_channel_text`] says.
pub fn notifications_channel_description(channel: Option<u64>) -> (r: String)
    ensures
        r@ == notifications_channel_text(channel),
{
    match channel {
        Some(c) => {
            let mut r = String::from_str("\nScrub and outcome notifications will be posted in: <#");
            let d = u64_to_decimal(c);
            r.append(d.as_str());
            r.append(">");
            r
        },
        None => String::from_str("\n**warning:** no notifications channel has been set yet!"),
    }
}

/// The setting a toggle button switches.
#[derive(Debug, Clone, Copy, PartialEq, Eq, Structural)]
pub enum Toggle {
    Scrubs,
    Outcomes,
    Mentions,
}

/// The text of the field of a toggle, with the current state.
pub open spec fn toggle_text(t: Toggle, state: State) -> Seq<char> {
    (match t {
        Toggle::Scrubs => "Toggle scrub notifications on and off\nThese notifications notify you when a launch gets delayed.\nThis is currently **"@,
        Toggle::Outcomes => "Toggle outcome notifications on and off\nThese notifications notify you about the outcome of a launch.\nThis is currently **"@,
        Toggle::Mentions => "Toggle mentions for scrub and outcome notifications.\nThis is currently **"@,
    }) + (if state == State::On { "ON"@ } else { "OFF"@ }) + "**"@
}

/// The text of the field of a toggle, as [`toggle_text`] says.
pub fn toggle_description(t: Toggle, state: State) -> (r: String)
    ensures
        r@ == toggle_text(t, state),
{
    let mut r = match t {
        Toggle::Scrubs => String::from_str(
            "Toggle scrub notifications on and off\nThese notifications notify you when a launch gets delayed.\nThis is currently **",
        ),
        Toggle::Outcomes => String::from_str(
            "Toggle outcome notifications on and off\nThese notifications notify you about the outcome of a launch.\nThis is currently **",
        ),
        Toggle::Mentions => String::from_str(
            "Toggle mentions for scrub and outcome notifications.\nThis is currently **",
        ),
    };
    r.append(state.to_text());
    r.append("**");
    r
}

/// Some filter in `filters` is the key `k`.
pub open spec fn key_listed(filters: Seq<String>, k: Seq<char>) -> bool {
    exists|i: int| 0 <= i < filters.len() && (#[trigger] filters[i])@ == k
}

/// Whether some filter is the key `k`.
fn key_in(filters: &Vec<String>, k: &str) -> (r: bool)
    ensures
        r == key_listed(filters@, k@),
{
    let mut i: usize = 0;
    while i < filters.len()
        invariant
            i <= filters@.len(),
            forall|j: int| 0 <= j < i ==> (#[trigger] filters@[j])@ != k@,
        decreases filters@.len() - i,
    {
        if str_eq(filters[i].as_str(), k) {
            return true;
        }
        i = i + 1;
    }
    false
}

/// The agencies offered in a menu of agency filters, as (key, name): those already
/// filtered when `selected` (to remove one), the others otherwise (to add one).
pub open spec fn agency_choices(filters: Seq<String>, selected: bool) -> Seq<(Seq<char>, Seq<char>)> {
    agency_entries().filter(|e: (&'static str, &'static str)| key_listed(filters, e.0@) == selected).map_values(
        |e: (&'static str, &'static str)| (e.0@, e.1@),
    )
}

/// The options of a menu of agency filters, as [`agency_choices`] says.
pub fn agency_options(filters: &Vec<String>, selected: bool) -> (r: Vec<MenuOption>)
    ensures
        r@.map_values(|o: MenuOption| (o.key@, o.value@)) == agency_choices(filters@, selected),
{
    let table = agency_map();
    let ghost pred = |e: (&'static str, &'static str)| key_listed(filters@, e.0@) == selected;
    let ghost view = |o: MenuOption| (o.key@, o.value@);
    let ghost ev = |e: (&'static str, &'static str)| (e.0@, e.1@);
    let mut r: Vec<MenuOption> = Vec::new();
    let mut i: usize = 0;
    assert(table@.take(0) =~= Seq::<(&'static str, &'static str)>::empty());
    while i < table.len()
        invariant
            i <= table@.len(),
            table@ == agency_entries(),
            pred == (|e: (&'static str, &'static str)| key_listed(filters@, e.0@) == selected),
            view == (|o: MenuOption| (o.key@, o.value@)),
            ev == (|e: (&'static str, &'static str)| (e.0@, e.1@)),
            r@.map_values(view) == table@.take(i as int).filter(pred).map_values(ev),
        decreases table@.len() - i,
    {
        let (k, v) = table[i];
        proof {
            assert(table@.take(i + 1) =~= table@.take(i as int).push((k, v)));
            table@.take(i as int).lemma_filter_push((k, v), pred);
        }
        let ghost before = r@;
        if key_in(filters, k) == selected {
            r.push(MenuOption { key: String::from_str(k), value: String::from_str(v) });
            assert(r@.map_values(view) =~= before.map_values(view).push((k@, v@)));
        }
        assert(r@.map_values(view) =~= table@.take(i + 1).filter(pred).map_values(ev));
        i = i + 1;
    }
    assert(table@.take(table@.len() as int) =~= table@);
    r
}

/// The options of the menu that removes payload filters: each pattern, shown as a
/// plain word where it is one.
pub fn payload_options(pats: &Vec<String>) -> (r: Vec<MenuOption>)
    ensures
        r@.len() == pats@.len(),
        forall|i: int| 0 <= i < r@.len() ==> (#[trigger] r@[i]).key@ == pats@[i]@ && r@[i].value@
            == filter_display(pats@[i]@),
{
    let mut r: Vec<MenuOption> = Vec::new();
    let mut i: usize = 0;
    while i < pats.len()
        invariant
            i <= pats@.len(),
            r@.len() == i,
            forall|j: int| 0 <= j < i ==> (#[trigger] r@[j]).key@ == pats@[j]@ && r@[j].value@
                == filter_display(pats@[j]@),
        decreases pats@.len() - i,
    {
        let shown = regex_filter_to_string(pats[i].as_str());
        r.push(MenuOption { key: pats[i].clone(), value: shown });
        i = i + 1;
    }
    r
}

/// The custom id of a menu opened by a user: the user's id, a dash and what the
/// menu does ("add-filter", "remove-payload-filter", ...).
pub fn menu_custom_id(user: u64, what: &str) -> (r: String)
    ensures
        r@ == nat_to_decimal(user as nat) + "-"@ + what@,
{
    let mut r = u64_to_decimal(user);
    r.append("-");
    r.append(what);
    r
}

/// The title of the settings menu: for a server channel, its name (or "guild
/// channel" when it is not known); otherwise the user's direct messages.
pub open spec fn main_menu_title_text(guild: bool, channel_name: Option<String>) -> Seq<char> {
    if guild {
        "Launch Reminder Settings for "@ + match channel_name {
            Some(n) => "#"@ + n@,
            None => "guild channel"@,
        }
    } else {
        "Launch Reminder Settings for your DMs"@
    }
}

/// The title of the settings menu, as [`main_menu_title_text`] says.
pub fn main_menu_title(guild: bool, channel_name: Option<String>) -> (r: String)
    ensures
        r@ == main_menu_title_text(guild, channel_name),
{
    if guild {
        let mut r = String::from_str("Launch Reminder Settings for ");
        match channel_name {
            Some(n) => {
                r.append("#");
                r.append(n.as_str());
            },
            None => r.append("guild channel"),
        }
        r
    } else {
        String::from_str("Launch Reminder Settings for your DMs")
    }
}

/// The sections of the settings menu.
#[derive(Debug, Clone, Copy, PartialEq, Eq, Structural)]
pub enum MenuSection {
    Reminders,
    Filters,
    Mentions,
    Other,
    Close,
}

/// The sections of the settings menu, in order: mentions and closing are offered
/// in server channels only.
pub open spec fn main_menu_sections(guild: bool) -> Seq<MenuSection> {
    if guild {
        seq![MenuSection::Reminders, MenuSection::Filters, MenuSection::Mentions, MenuSection::Other, MenuSection::Close]
    } else {
        seq![MenuSection::Reminders, MenuSection::Filters, MenuSection::Other]
    }
}

/// The sections of the settings menu, as [`main_menu_sections`] says.
pub fn main_menu_entries(guild: bool) -> (r: Vec<MenuSection>)
    ensures
        r@ == main_menu_sections(guild),
{
    let mut r: Vec<MenuSection> = Vec::new();
    r.push(MenuSection::Reminders);
    r.push(MenuSection::Filters);
    if guild {
        r.push(MenuSection::Mentions);
    }
    r.push(MenuSection::Other);
    if guild {
        r.push(MenuSection::Close);
    }
    assert(r@ =~= main_menu_sections(guild));
    r
}

} // verus!
