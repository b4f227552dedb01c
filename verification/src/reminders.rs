//! Reminder settings of users and servers, and the filters that decide which
//! launches they hear about.

use vstd::prelude::*;
use crate::filters::{agency_name, agency_of};
use crate::launches::LaunchData;
use crate::text::{is_digit, nat_to_decimal, push_char, u64_to_decimal, chars_of};

verus! {

/// Whose reminders a settings page is about: a channel of a server, or a user
/// (reminded in direct messages).
#[derive(Debug, Clone, Copy)]
pub enum ID {
    /// A channel and the server it is in.
    Channel((u64, u64)),
    /// A user.
    User(u64),
}

impl ID {
    /// Whether the settings belong to a server.
    pub fn guild_specific(&self) -> (r: bool)
        ensures
            r == (*self is Channel),
    {
        match self {
            ID::Channel(_) => true,
            ID::User(_) => false,
        }
    }
}

/// A setting that is switched on or off.
#[derive(Debug, Clone, Copy, PartialEq, Eq, Structural)]
pub enum State {
    On,
    Off,
}

impl State {
    /// How the setting is shown: "ON" or "OFF".
    pub fn to_text(&self) -> (r: &'static str)
        ensures
            r@ == (if *self == State::On { "ON"@ } else { "OFF"@ }),
    {
        match self {
            State::On => "ON",
            State::Off => "OFF",
        }
    }

    /// Whether the setting is on.
    pub fn as_bool(&self) -> (r: bool)
        ensures
            r == (*self == State::On),
    {
        match self {
            State::On => true,
            State::Off => false,
        }
    }

    /// The state of a stored flag.
    pub fn from_bool(b: bool) -> (r: State)
        ensures
            r.as_spec_bool() == b,
    {
        if b { State::On } else { State::Off }
    }

    /// Whether the setting is on.
    pub open spec fn as_spec_bool(&self) -> bool {
        *self == State::On
    }
}

/// The reminder settings of a server.
#[derive(Debug, Clone)]
pub struct GuildSettings {
    pub guild: u64,
    /// Keys of agencies whose launches are not reminded of.
    pub filters: Vec<String>,
    /// Keys of the only agencies whose launches are reminded of (none: all).
    pub allow_filters: Vec<String>,
    /// Regular expressions; launches whose payload matches one are not reminded of.
    pub payload_filters: Vec<String>,
    /// Roles mentioned in notifications.
    pub mentions: Vec<u64>,
    pub scrub_notifications: bool,
    pub outcome_notifications: bool,
    pub mention_others: bool,
    pub notifications_channel: Option<u64>,
}

/// The reminder settings of a user.
#[derive(Debug, Clone)]
pub struct UserSettings {
    pub user: u64,
    pub filters: Vec<String>,
    pub allow_filters: Vec<String>,
    pub payload_filters: Vec<String>,
    pub scrub_notifications: bool,
    pub outcome_notifications: bool,
}

/// Settings that carry launch filters.
pub trait ReminderSettings {
    /// The agency keys filtered out.
    spec fn block_list(&self) -> Seq<String>;

    /// The agency keys filtered for.
    spec fn allow_list(&self) -> Seq<String>;

    /// The payload patterns filtered out.
    spec fn payload_list(&self) -> Seq<String>;

    fn get_filters(&self) -> (r: &Vec<String>)
        ensures
            r@ == self.block_list(),
    ;

    fn get_allow_filters(&self) -> (r: &Vec<String>)
        ensures
            r@ == self.allow_list(),
    ;

    fn get_payload_filters(&self) -> (r: &Vec<String>)
        ensures
            r@ == self.payload_list(),
    ;
}

impl ReminderSettings for GuildSettings {
    open spec fn block_list(&self) -> Seq<String> {
        self.filters@
    }

    open spec fn allow_list(&self) -> Seq<String> {
        self.allow_filters@
    }

    open spec fn payload_list(&self) -> Seq<String> {
        self.payload_filters@
    }

    fn get_filters(&self) -> (r: &Vec<String>) {
        &self.filters
    }

    fn get_allow_filters(&self) -> (r: &Vec<String>) {
        &self.allow_filters
    }

    fn get_payload_filters(&self) -> (r: &Vec<String>) {
        &self.payload_filters
    }
}

impl ReminderSettings for UserSettings {
    open spec fn block_list(&self) -> Seq<String> {
        self.filters@
    }

    open spec fn allow_list(&self) -> Seq<String> {
        self.allow_filters@
    }

    open spec fn payload_list(&self) -> Seq<String> {
        self.payload_filters@
    }

    fn get_filters(&self) -> (r: &Vec<String>) {
        &self.filters
    }

    fn get_allow_filters(&self) -> (r: &Vec<String>) {
        &self.allow_filters
    }

    fn get_payload_filters(&self) -> (r: &Vec<String>) {
        &self.payload_filters
    }
}

/// Whether `regex::Regex::new` accepts a pattern.
pub uninterp spec fn regex_compiles(pattern: Seq<char>) -> bool;

/// Whether `regex::Regex::is_match` finds a match of a (compiling) pattern in a text.
pub uninterp spec fn regex_finds_match(pattern: Seq<char>, haystack: Seq<char>) -> bool;

/// Compiles `pattern` with `regex::Regex::new` and, when it compiles, asks
/// `Regex::is_match` whether it matches somewhere in `haystack`. The contract ties
/// the outcome to the names [`regex_compiles`] and [`regex_finds_match`]; the
/// regular expression syntax and matching rules are left unstated.
#[verifier::external_body]
pub(crate) fn regex_is_match(pattern: &str, haystack: &str) -> (r: Option<bool>)
    ensures
        r is Some <==> regex_compiles(pattern@),
        r matches Some(b) ==> b == regex_finds_match(pattern@, haystack@),
{
    match regex::Regex::new(pattern) {
        Ok(re) => Some(re.is_match(haystack)),
        Err(_) => None,
    }
}

/// The agency key `key` names the agency called `lsp`.
pub open spec fn key_names(key: Seq<char>, lsp: Seq<char>) -> bool {
    match agency_of(key) {
        Some(a) => a@ == lsp,
        None => false,
    }
}

/// One of the agency keys names the agency called `lsp`.
pub open spec fn names_agency(keys: Seq<String>, lsp: Seq<char>) -> bool {
    exists|i: int| 0 <= i < keys.len() && #[trigger] key_names(keys[i]@, lsp)
}

/// Every payload pattern compiles.
pub open spec fn patterns_compile(pats: Seq<String>) -> bool {
    forall|i: int| 0 <= i < pats.len() ==> regex_compiles(#[trigger] pats[i]@)
}

/// One of the payload patterns matches the payload.
pub open spec fn payload_caught(pats: Seq<String>, payload: Seq<char>) -> bool {
    exists|i: int| 0 <= i < pats.len() && regex_finds_match(#[trigger] pats[i]@, payload)
}

/// A launch passes a set of filters when its agency is not filtered out, the allow
/// list is empty or names its agency, and no payload pattern matches its payload.
/// Settings holding a pattern that does not compile cannot be loaded, so they pass
/// nothing.
pub open spec fn launch_passes(
    block: Seq<String>,
    allow: Seq<String>,
    pats: Seq<String>,
    l: LaunchData,
) -> bool {
    &&& !names_agency(block, l.lsp@)
    &&& (allow.len() == 0 || names_agency(allow, l.lsp@))
    &&& patterns_compile(pats)
    &&& !payload_caught(pats, l.payload@)
}

/// A launch whose payload some payload pattern matches does not pass, whatever
/// the other filters say.
pub proof fn lemma_matching_payload_filters_out(
    block: Seq<String>,
    allow: Seq<String>,
    pats: Seq<String>,
    l: LaunchData,
    i: int,
)
    requires
        0 <= i < pats.len(),
        regex_finds_match(pats[i]@, l.payload@),
    ensures
        !launch_passes(block, allow, pats, l),
{
    assert(regex_finds_match(pats[i]@, l.payload@));
}

/// A launch whose agency a block filter names does not pass.
pub proof fn lemma_blocked_agency_filters_out(
    block: Seq<String>,
    allow: Seq<String>,
    pats: Seq<String>,
    l: LaunchData,
    i: int,
)
    requires
        0 <= i < block.len(),
        key_names(block[i]@, l.lsp@),
    ensures
        !launch_passes(block, allow, pats, l),
{
}

/// Adding a filter of any kind never lets more launches through: a launch that
/// passes the larger settings passes the smaller ones.
pub proof fn lemma_more_filters_pass_fewer(
    block: Seq<String>,
    allow: Seq<String>,
    pats: Seq<String>,
    extra_block: String,
    extra_pat: String,
    l: LaunchData,
)
    ensures
        launch_passes(block.push(extra_block), allow, pats, l) ==> launch_passes(block, allow, pats, l),
        launch_passes(block, allow, pats.push(extra_pat), l) ==> launch_passes(block, allow, pats, l),
{
    if launch_passes(block.push(extra_block), allow, pats, l) && names_agency(block, l.lsp@) {
        let i = choose|i: int| 0 <= i < block.len() && #[trigger] key_names(block[i]@, l.lsp@);
        assert(block.push(extra_block)[i] == block[i]);
        assert(key_names(block.push(extra_block)[i]@, l.lsp@));
    }
    if launch_passes(block, allow, pats.push(extra_pat), l) {
        assert forall|i: int| 0 <= i < pats.len() implies regex_compiles(#[trigger] pats[i]@) by {
            assert(pats.push(extra_pat)[i] == pats[i]);
        }
        if payload_caught(pats, l.payload@) {
            let i = choose|i: int| 0 <= i < pats.len() && regex_finds_match(#[trigger] pats[i]@, l.payload@);
            assert(pats.push(extra_pat)[i] == pats[i]);
            assert(regex_finds_match(pats.push(extra_pat)[i]@, l.payload@));
        }
    }
}

/// With no filter of any kind, every launch passes.
pub proof fn lemma_no_filters_pass_all(l: LaunchData)
    ensures
        launch_passes(Seq::<String>::empty(), Seq::<String>::empty(), Seq::<String>::empty(), l),
{
}

/// An allow list that names none of a launch's agency keeps the launch out.
pub proof fn lemma_allow_list_keeps_others_out(block: Seq<String>, allow: Seq<String>, pats: Seq<String>, l: LaunchData)
    requires
        allow.len() > 0,
        forall|i: int| 0 <= i < allow.len() ==> !#[trigger] key_names(allow[i]@, l.lsp@),
    ensures
        !launch_passes(block, allow, pats, l),
{
}

/// Adding a payload pattern that compiles and does not match a launch's payload
/// does not change whether the launch passes.
pub proof fn lemma_non_matching_pattern_changes_nothing(
    block: Seq<String>,
    allow: Seq<String>,
    pats: Seq<String>,
    extra: String,
    l: LaunchData,
)
    requires
        regex_compiles(extra@),
        !regex_finds_match(extra@, l.payload@),
    ensures
        launch_passes(block, allow, pats.push(extra), l) == launch_passes(block, allow, pats, l),
{
    let q = pats.push(extra);
    assert forall|i: int| 0 <= i < pats.len() implies q[i] == pats[i] by {}
    if patterns_compile(pats) {
        assert forall|i: int| 0 <= i < q.len() implies regex_compiles(#[trigger] q[i]@) by {
            if i < pats.len() {
                assert(q[i] == pats[i]);
            }
        }
    }
    if patterns_compile(q) {
        assert forall|i: int| 0 <= i < pats.len() implies regex_compiles(#[trigger] pats[i]@) by {
            assert(q[i] == pats[i]);
        }
    }
    if payload_caught(q, l.payload@) {
        let i = choose|i: int| 0 <= i < q.len() && regex_finds_match(#[trigger] q[i]@, l.payload@);
        if i < pats.len() {
            assert(q[i] == pats[i]);
            assert(regex_finds_match(pats[i]@, l.payload@));
        }
    }
    if payload_caught(pats, l.payload@) {
        let i = choose|i: int| 0 <= i < pats.len() && regex_finds_match(#[trigger] pats[i]@, l.payload@);
        assert(q[i] == pats[i]);
        assert(regex_finds_match(q[i]@, l.payload@));
    }
}

/// Whether one of the agency keys names the agency called `lsp`.
fn any_names_agency(keys: &Vec<String>, lsp: &str) -> (r: bool)
    ensures
        r == names_agency(keys@, lsp@),
{
    let mut i: usize = 0;
    while i < keys.len()
        invariant
            i <= keys@.len(),
            forall|j: int| 0 <= j < i ==> !#[trigger] key_names(keys@[j]@, lsp@),
        decreases keys@.len() - i,
    {
        match agency_name(keys[i].as_str()) {
            Some(a) => {
                if crate::text::str_eq(a, lsp) {
                    assert(key_names(keys@[i as int]@, lsp@));
                    return true;
                }
            },
            None => {},
        }
        i = i + 1;
    }
    false
}

/// Whether a launch passes the filters of a user's or a server's settings.
pub fn passes_filters<T: ReminderSettings>(settings: &T, l: &LaunchData) -> (r: bool)
    ensures
        r == launch_passes(
            settings.block_list(),
            settings.allow_list(),
            settings.payload_list(),
            *l,
        ),
{
    let block = settings.get_filters();
    let allow = settings.get_allow_filters();
    let pats = settings.get_payload_filters();
    let passes_agencies = !any_names_agency(block, l.lsp.as_str());
    let passes_agency_allows = allow.len() == 0 || any_names_agency(allow, l.lsp.as_str());
    let mut i: usize = 0;
    let mut caught = false;
    while i < pats.len()
        invariant
            i <= pats@.len(),
            pats@ == settings.payload_list(),
            forall|j: int| 0 <= j < i ==> regex_compiles(#[trigger] pats@[j]@),
            caught == exists|j: int| 0 <= j < i && regex_finds_match(#[trigger] pats@[j]@, l.payload@),
        decreases pats@.len() - i,
    {
        match regex_is_match(pats[i].as_str(), l.payload.as_str()) {
            Some(m) => {
                caught = caught || m;
            },
            None => {
                assert(!patterns_compile(pats@));
                return false;
            },
        }
        i = i + 1;
    }
    passes_agencies && passes_agency_allows && !caught
}

/// The mention text for a list of roles: " <@&id>" for each role, in order.
pub open spec fn mentions_text(roles: Seq<u64>) -> Seq<char>
    decreases roles.len(),
{
    if roles.len() == 0 {
        Seq::<char>::empty()
    } else {
        mentions_text(roles.drop_last()) + " <@&"@ + nat_to_decimal(roles.last() as nat) + ">"@
    }
}

/// The text that mentions a server's roles in a notification, when the server
/// wants others mentioned and has roles to mention.
pub fn get_mentions(settings: &GuildSettings) -> (r: Option<String>)
    ensures
        match r {
            Some(t) => settings.mention_others && settings.mentions@.len() > 0 && t@ == mentions_text(
                settings.mentions@,
            ),
            None => !settings.mention_others || settings.mentions@.len() == 0,
        },
{
    let roles = &settings.mentions;
    let mut text = String::new();
    let mut i: usize = 0;
    while i < roles.len()
        invariant
            i <= roles@.len(),
            text@ == mentions_text(roles@.take(i as int)),
        decreases roles@.len() - i,
    {
        text.append(" <@&");
        let id = u64_to_decimal(roles[i]);
        text.append(id.as_str());
        text.append(">");
        assert(roles@.take(i + 1).drop_last() =~= roles@.take(i as int));
        i = i + 1;
    }
    assert(roles@.take(roles@.len() as int) =~= roles@);
    if settings.mention_others && roles.len() > 0 {
        Some(text)
    } else {
        None
    }
}

/// A character allowed in a plain word filter.
pub open spec fn is_word_char(c: char) -> bool {
    ('a' <= c <= 'z') || ('A' <= c <= 'Z') || ('0' <= c <= '9') || c == '-' || c == '_'
}

/// A plain word: one or more word characters.
pub open spec fn is_word(s: Seq<char>) -> bool {
    s.len() > 0 && forall|i: int| 0 <= i < s.len() ==> is_word_char(#[trigger] s[i])
}

/// The characters that open a word pattern: a case-insensitive flag and a word boundary.
pub open spec fn word_pattern_open() -> Seq<char> {
    seq!['(', '?', 'i', ')', '\\', 'b']
}

/// The characters that close a word pattern: a word boundary.
pub open spec fn word_pattern_close() -> Seq<char> {
    seq!['\\', 'b']
}

/// A pattern that matches one whole word, case-insensitively.
pub open spec fn is_word_pattern(s: Seq<char>) -> bool {
    &&& s.len() >= 8
    &&& s.take(6) == word_pattern_open()
    &&& s.skip(s.len() - 2) == word_pattern_close()
    &&& is_word(s.subrange(6, s.len() - 2))
}

/// The payload pattern a user's input becomes: a plain word is matched as a whole
/// word, case-insensitively; anything else is taken as a regular expression.
pub open spec fn filter_of_input(s: Seq<char>) -> Seq<char> {
    if is_word(s) { word_pattern_open() + s + word_pattern_close() } else { s }
}

/// How a payload pattern is shown: the word of a word pattern, or the pattern itself.
pub open spec fn filter_display(s: Seq<char>) -> Seq<char> {
    if is_word_pattern(s) { s.subrange(6, s.len() - 2) } else { s }
}

/// Whether a character is a word character.
fn is_word_char_exec(c: char) -> (r: bool)
    ensures
        r == is_word_char(c),
{
    ('a' <= c && c <= 'z') || ('A' <= c && c <= 'Z') || ('0' <= c && c <= '9') || c == '-' || c
        == '_'
}

/// Whether `v[from..to]` is a plain word.
fn is_word_range(v: &Vec<char>, from: usize, to: usize) -> (r: bool)
    requires
        from <= to <= v@.len(),
    ensures
        r == is_word(v@.subrange(from as int, to as int)),
{
    if from == to {
        return false;
    }
    let mut i = from;
    while i < to
        invariant
            from <= i <= to <= v@.len(),
            forall|j: int| from <= j < i ==> is_word_char(#[trigger] v@[j]),
        decreases to - i,
    {
        if !is_word_char_exec(v[i]) {
            assert(!is_word_char(v@.subrange(from as int, to as int)[i - from]));
            return false;
        }
        i = i + 1;
    }
    assert forall|j: int| 0 <= j < to - from implies is_word_char(
        #[trigger] v@.subrange(from as int, to as int)[j],
    ) by {
        assert(v@.subrange(from as int, to as int)[j] == v@[from + j]);
    }
    true
}

/// Turns a user's input into a payload pattern, as [`filter_of_input`] describes.
pub fn filter_from_string_input(input: String) -> (r: String)
    ensures
        r@ == filter_of_input(input@),
{
    let v = chars_of(input.as_str());
    if is_word_range(&v, 0, v.len()) {
        assert(v@.subrange(0, v@.len() as int) =~= v@);
        let mut r = String::new();
        push_char(&mut r, '(');
        push_char(&mut r, '?');
        push_char(&mut r, 'i');
        push_char(&mut r, ')');
        push_char(&mut r, '\\');
        push_char(&mut r, 'b');
        r.append(input.as_str());
        push_char(&mut r, '\\');
        push_char(&mut r, 'b');
        assert(r@ =~= word_pattern_open() + input@ + word_pattern_close());
        r
    } else {
        assert(v@.subrange(0, v@.len() as int) =~= v@);
        input
    }
}

/// Shows a payload pattern, as [`filter_display`] describes.
pub fn regex_filter_to_string(pattern: &str) -> (r: String)
    ensures
        r@ == filter_display(pattern@),
{
    let v = chars_of(pattern);
    let n = v.len();
    if n >= 8 && v[0] == '(' && v[1] == '?' && v[2] == 'i' && v[3] == ')' && v[4] == '\\' && v[5]
        == 'b' && v[n - 2] == '\\' && v[n - 1] == 'b' && is_word_range(&v, 6, n - 2) {
        assert(v@.take(6) =~= word_pattern_open());
        assert(v@.skip(n - 2) =~= word_pattern_close());
        let inner = pattern.substring_char(6, n - 2);
        String::from_str(inner)
    } else {
        proof {
            if n >= 8 && is_word_pattern(v@) {
                assert(v@.take(6)[0] == '(' && v@.take(6)[1] == '?' && v@.take(6)[2] == 'i');
                assert(v@.take(6)[3] == ')' && v@.take(6)[4] == '\\' && v@.take(6)[5] == 'b');
                assert(v@.skip(n - 2)[0] == '\\' && v@.skip(n - 2)[1] == 'b');
            }
        }
        String::from_str(pattern)
    }
}

/// Showing the pattern made from an input gives the input back, unless the input
/// is itself written as a word pattern (and is thus no plain word).
pub proof fn lemma_filter_input_roundtrip(s: Seq<char>)
    requires
        is_word(s) || !is_word_pattern(s),
    ensures
        filter_display(filter_of_input(s)) == s,
{
    if is_word(s) {
        let w = word_pattern_open() + s + word_pattern_close();
        assert(w.take(6) =~= word_pattern_open());
        assert(w.skip(w.len() - 2) =~= word_pattern_close());
        assert(w.subrange(6, w.len() - 2) =~= s);
    }
}

/// A server channel that gets a reminder.
#[derive(Debug, Clone, Copy, PartialEq, Eq, Structural)]
pub struct ChannelReminder {
    pub guild: u64,
    pub channel: u64,
}

/// A reminder sent `minutes` minutes before launches, to channels and users.
#[derive(Debug, Clone)]
pub struct Reminder {
    pub minutes: i64,
    pub channels: Vec<ChannelReminder>,
    pub users: Vec<u64>,
}

impl Reminder {
    /// How long before a launch the reminder is sent, in seconds.
    pub fn get_duration(&self) -> (r: i64)
        requires
            -crate::durations::DURATION_MAX_SECS <= self.minutes * 60 <= crate::durations::DURATION_MAX_SECS,
        ensures
            r == self.minutes * 60,
    {
        self.minutes * 60
    }
}

} // verus!
