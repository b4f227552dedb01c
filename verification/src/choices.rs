//! What the reminder settings pages offer, and what a choice made on them writes
//! to the settings.

use vstd::prelude::*;
use crate::durations::div_toward_zero;
use crate::filters::{agency_name, agency_of};
use crate::menus::MenuOption;
use crate::pages::Toggle;
use crate::reminders::{State, filter_from_string_input, filter_of_input};
use crate::text::{nat_to_decimal, parse_u64, u64_text_value, u64_to_decimal};

verus! {

/// A change a settings page offers on one of its lists.
#[derive(Debug, Clone, Copy, PartialEq, Eq, Structural)]
pub enum Edit {
    Add,
    Remove,
}

/// The changes a page offers: adding always, removing only when there is
/// something to remove.
pub open spec fn edits_of(has_entries: bool) -> Seq<Edit> {
    if has_entries {
        seq![Edit::Add, Edit::Remove]
    } else {
        seq![Edit::Add]
    }
}

/// The changes a page offers, as [`edits_of`] says.
pub fn edits_offered(has_entries: bool) -> (r: Vec<Edit>)
    ensures
        r@ == edits_of(has_entries),
{
    let mut r: Vec<Edit> = Vec::new();
    r.push(Edit::Add);
    if has_entries {
        r.push(Edit::Remove);
    }
    r
}

/// The lists of filters a user or a server keeps.
#[derive(Debug, Clone, Copy, PartialEq, Eq, Structural)]
pub enum FilterList {
    /// Agencies whose launches are not reminded of.
    Blocked,
    /// The only agencies whose launches are reminded of.
    Allowed,
    /// Patterns of payloads that are not reminded of.
    Payload,
}

/// The name a list of filters is stored under.
pub open spec fn list_field(l: FilterList) -> Seq<char> {
    match l {
        FilterList::Blocked => "filters"@,
        FilterList::Allowed => "allow_filters"@,
        FilterList::Payload => "payload_filters"@,
    }
}

impl FilterList {
    /// The name the list is stored under, as [`list_field`] says.
    pub fn field(&self) -> (r: &'static str)
        ensures
            r@ == list_field(*self),
    {
        match self {
            FilterList::Blocked => "filters",
            FilterList::Allowed => "allow_filters",
            FilterList::Payload => "payload_filters",
        }
    }
}

/// A write to the settings that a choice on a settings page asks for.
#[derive(Debug, Clone)]
pub enum SettingWrite {
    AddFilter(FilterList, String),
    RemoveFilter(FilterList, String),
    AddMention(u64),
    RemoveMention(u64),
    /// A reminder this many minutes before launch.
    AddReminder(i64),
    RemoveReminder(i64),
    /// A setting switched to the given state.
    Switch(Toggle, bool),
    SetNotificationChannel(u64),
}

/// What choosing agency `key` in an agency menu writes: the key is added to or
/// removed from the list; a key that names no agency writes nothing.
pub fn agency_choice_write(list: FilterList, edit: Edit, key: String) -> (r: Option<SettingWrite>)
    ensures
        agency_of(key@) is None ==> r is None,
        agency_of(key@) is Some ==> (r matches Some(w) && match edit {
            Edit::Add => w matches SettingWrite::AddFilter(l, k) && l == list && k@ == key@,
            Edit::Remove => w matches SettingWrite::RemoveFilter(l, k) && l == list && k@ == key@,
        }),
{
    if agency_name(key.as_str()).is_none() {
        return None;
    }
    match edit {
        Edit::Add => Some(SettingWrite::AddFilter(list, key)),
        Edit::Remove => Some(SettingWrite::RemoveFilter(list, key)),
    }
}

/// What a payload filter choice writes: an added input becomes the pattern that
/// [`filter_of_input`] makes of it; a removed pattern is removed as it is.
pub fn payload_choice_write(edit: Edit, text: String) -> (r: SettingWrite)
    ensures
        match edit {
            Edit::Add => r matches SettingWrite::AddFilter(l, k) && l == FilterList::Payload && k@
                == filter_of_input(text@),
            Edit::Remove => r matches SettingWrite::RemoveFilter(l, k) && l == FilterList::Payload && k@
                == text@,
        },
{
    match edit {
        Edit::Add => SettingWrite::AddFilter(FilterList::Payload, filter_from_string_input(text)),
        Edit::Remove => SettingWrite::RemoveFilter(FilterList::Payload, text),
    }
}

/// What choosing a role in a role menu writes: the role whose id the key holds is
/// added to or removed from the mentions; `None` when the key is no role id.
pub fn mention_choice_write(edit: Edit, key: &str) -> (r: Option<SettingWrite>)
    ensures
        u64_text_value(key@) is None ==> r is None,
        u64_text_value(key@) matches Some(id) ==> (r matches Some(w) && match edit {
            Edit::Add => w matches SettingWrite::AddMention(m) && m == id,
            Edit::Remove => w matches SettingWrite::RemoveMention(m) && m == id,
        }),
{
    match parse_u64(key) {
        Some(id) => match edit {
            Edit::Add => Some(SettingWrite::AddMention(id)),
            Edit::Remove => Some(SettingWrite::RemoveMention(id)),
        },
        None => None,
    }
}

/// What choosing a channel in the channel menu writes: the channel whose id the
/// key holds gets the notifications; `None` when the key is no channel id.
pub fn channel_choice_write(key: &str) -> (r: Option<SettingWrite>)
    ensures
        u64_text_value(key@) is None ==> r is None,
        u64_text_value(key@) matches Some(id) ==> (r matches Some(SettingWrite::SetNotificationChannel(c))
            && c == id),
{
    match parse_u64(key) {
        Some(id) => Some(SettingWrite::SetNotificationChannel(id)),
        None => None,
    }
}

/// What submitting a duration of `secs` seconds on the reminders page writes: a
/// reminder at its whole minutes (rounded toward zero) is added or removed;
/// nothing for a zero duration.
pub fn reminder_write(edit: Edit, secs: i64) -> (r: Option<SettingWrite>)
    ensures
        secs == 0 ==> r is None,
        secs != 0 ==> (r matches Some(w) && match edit {
            Edit::Add => w matches SettingWrite::AddReminder(m) && m == div_toward_zero(secs as int, 60),
            Edit::Remove => w matches SettingWrite::RemoveReminder(m) && m == div_toward_zero(secs as int, 60),
        }),
{
    if secs == 0 {
        return None;
    }
    let minutes = secs / 60;
    match edit {
        Edit::Add => Some(SettingWrite::AddReminder(minutes)),
        Edit::Remove => Some(SettingWrite::RemoveReminder(minutes)),
    }
}

/// What a toggle button writes: the setting switched away from its state.
pub fn toggle_write(t: Toggle, state: State) -> (r: SettingWrite)
    ensures
        r matches SettingWrite::Switch(u, on) && u == t && on == (state == State::Off),
{
    SettingWrite::Switch(t, !state.as_bool())
}

/// The name a toggled setting is stored under.
pub open spec fn toggle_field(t: Toggle) -> Seq<char> {
    match t {
        Toggle::Scrubs => "scrub_notifications"@,
        Toggle::Outcomes => "outcome_notifications"@,
        Toggle::Mentions => "mention_others"@,
    }
}

/// The name a toggled setting is stored under, as [`toggle_field`] says.
pub fn toggle_field_name(t: Toggle) -> (r: &'static str)
    ensures
        r@ == toggle_field(t),
{
    match t {
        Toggle::Scrubs => "scrub_notifications",
        Toggle::Outcomes => "outcome_notifications",
        Toggle::Mentions => "mention_others",
    }
}

/// An id and a name as a menu option: the id in decimal, and the name.
pub open spec fn id_option(e: (u64, String)) -> (Seq<char>, Seq<char>) {
    (nat_to_decimal(e.0 as nat), e.1@)
}

/// The roles a mention menu offers: to add, the roles not yet mentioned; to
/// remove, the mentioned ones; in order, at most 125.
pub open spec fn role_choices(roles: Seq<(u64, String)>, mentions: Seq<u64>, edit: Edit) -> Seq<(Seq<char>, Seq<char>)> {
    let kept = roles.filter(|e: (u64, String)| mentions.contains(e.0) == (edit == Edit::Remove)).map_values(
        |e: (u64, String)| id_option(e),
    );
    kept.take(if kept.len() < 125 { kept.len() as int } else { 125 })
}

/// The options of a mention menu, as [`role_choices`] says.
pub fn role_options(roles: &Vec<(u64, String)>, mentions: &Vec<u64>, edit: Edit) -> (r: Vec<MenuOption>)
    ensures
        r@.map_values(|o: MenuOption| (o.key@, o.value@)) == role_choices(roles@, mentions@, edit),
{
    let ghost pred = |e: (u64, String)| mentions@.contains(e.0) == (edit == Edit::Remove);
    let ghost view = |o: MenuOption| (o.key@, o.value@);
    let mut all: Vec<MenuOption> = Vec::new();
    let mut i: usize = 0;
    assert(roles@.take(0) =~= Seq::<(u64, String)>::empty());
    while i < roles.len()
        invariant
            i <= roles@.len(),
            pred == (|e: (u64, String)| mentions@.contains(e.0) == (edit == Edit::Remove)),
            view == (|o: MenuOption| (o.key@, o.value@)),
            all@.map_values(view) == roles@.take(i as int).filter(pred).map_values(|e: (u64, String)| id_option(e)),
        decreases roles@.len() - i,
    {
        let id = roles[i].0;
        let mut listed = false;
        let mut j: usize = 0;
        while j < mentions.len()
            invariant
                j <= mentions@.len(),
                listed == exists|k: int| 0 <= k < j && mentions@[k] == id,
            decreases mentions@.len() - j,
        {
            if mentions[j] == id {
                listed = true;
            }
            j = j + 1;
        }
        proof {
            assert(roles@.take(i + 1) =~= roles@.take(i as int).push(roles@[i as int]));
            roles@.take(i as int).lemma_filter_push(roles@[i as int], pred);
            if listed {
                let k = choose|k: int| 0 <= k < mentions@.len() && mentions@[k] == id;
                assert(mentions@.contains(id));
            }
        }
        let ghost before = all@;
        let wanted = match edit {
            Edit::Add => !listed,
            Edit::Remove => listed,
        };
        if wanted {
            all.push(MenuOption { key: u64_to_decimal(id), value: roles[i].1.clone() });
            assert(all@.map_values(view) =~= before.map_values(view).push(id_option(roles@[i as int])));
        }
        i = i + 1;
    }
    assert(roles@.take(roles@.len() as int) =~= roles@);
    let ghost kept = all@.map_values(view);
    let n: usize = if all.len() < 125 { all.len() } else { 125 };
    let mut r: Vec<MenuOption> = Vec::new();
    let mut k: usize = 0;
    while k < n
        invariant
            k <= n <= all@.len(),
            view == (|o: MenuOption| (o.key@, o.value@)),
            kept == all@.map_values(view),
            r@.map_values(view) == kept.take(k as int),
        decreases n - k,
    {
        let ghost before = r@;
        let c = all[k].copied();
        r.push(c);
        assert(r@ == before.push(c));
        assert(view(c) == kept[k as int]);
        assert(r@.map_values(view) =~= before.map_values(view).push(view(c)));
        assert(kept.take(k + 1) =~= kept.take(k as int).push(kept[k as int]));
        k = k + 1;
    }
    r
}

/// The channels a channel menu offers: in order, at most 125.
pub open spec fn channel_choices(channels: Seq<(u64, String)>) -> Seq<(Seq<char>, Seq<char>)> {
    let all = channels.map_values(|e: (u64, String)| id_option(e));
    all.take(if all.len() < 125 { all.len() as int } else { 125 })
}

/// The options of the channel menu, as [`channel_choices`] says.
pub fn channel_options(channels: &Vec<(u64, String)>) -> (r: Vec<MenuOption>)
    ensures
        r@.map_values(|o: MenuOption| (o.key@, o.value@)) == channel_choices(channels@),
{
    let ghost view = |o: MenuOption| (o.key@, o.value@);
    let ghost all = channels@.map_values(|e: (u64, String)| id_option(e));
    let n: usize = if channels.len() < 125 { channels.len() } else { 125 };
    let mut r: Vec<MenuOption> = Vec::new();
    let mut k: usize = 0;
    while k < n
        invariant
            k <= n <= channels@.len(),
            view == (|o: MenuOption| (o.key@, o.value@)),
            all == channels@.map_values(|e: (u64, String)| id_option(e)),
            r@.map_values(view) == all.take(k as int),
        decreases n - k,
    {
        let ghost before = r@;
        let c = MenuOption { key: u64_to_decimal(channels[k].0), value: channels[k].1.clone() };
        r.push(c);
        assert(r@ == before.push(c));
        assert(view(c) == all[k as int]);
        assert(r@.map_values(view) =~= before.map_values(view).push(view(c)));
        assert(all.take(k + 1) =~= all.take(k as int).push(all[k as int]));
        k = k + 1;
    }
    r
}

} // verus!
