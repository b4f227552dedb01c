//! Launch data as the Launch Library API describes it, and the condensed form the
//! bot keeps in its launch cache. Instants are Unix timestamps in whole seconds and
//! durations are whole seconds.

use vstd::prelude::*;
use crate::durations::DURATION_MAX_SECS;
use crate::sorting::{SortKey, is_stable_sort_of, stable_sort_by_key};

verus! {

/// The status of a launch, numbered as the Launch Library numbers it.
#[derive(Debug, Clone, Copy, PartialEq, Eq, Structural)]
pub enum LaunchStatus {
    Go,
    Tbd,
    Success,
    Failure,
    Hold,
    InFlight,
    PartialFailure,
}

/// The label the bot shows for a status.
pub open spec fn status_label(s: LaunchStatus) -> Seq<char> {
    match s {
        LaunchStatus::Go => "Go"@,
        LaunchStatus::Tbd => "TBD"@,
        LaunchStatus::Failure => "Failure"@,
        LaunchStatus::Success => "Success"@,
        LaunchStatus::InFlight => "In Flight"@,
        LaunchStatus::Hold => "Hold"@,
        LaunchStatus::PartialFailure => "Partial Failure"@,
    }
}

/// The number the Launch Library gives a status.
pub open spec fn status_number(s: LaunchStatus) -> u8 {
    match s {
        LaunchStatus::Go => 1,
        LaunchStatus::Tbd => 2,
        LaunchStatus::Success => 3,
        LaunchStatus::Failure => 4,
        LaunchStatus::Hold => 5,
        LaunchStatus::InFlight => 6,
        LaunchStatus::PartialFailure => 7,
    }
}

impl LaunchStatus {
    /// The label of this status, e.g. "In Flight".
    pub fn as_str(&self) -> (r: &'static str)
        ensures
            r@ == status_label(*self),
    {
        match self {
            LaunchStatus::Go => "Go",
            LaunchStatus::Tbd => "TBD",
            LaunchStatus::Failure => "Failure",
            LaunchStatus::Success => "Success",
            LaunchStatus::InFlight => "In Flight",
            LaunchStatus::Hold => "Hold",
            LaunchStatus::PartialFailure => "Partial Failure",
        }
    }

    /// The Launch Library number of this status.
    pub fn to_number(&self) -> (r: u8)
        ensures
            r == status_number(*self),
    {
        match self {
            LaunchStatus::Go => 1,
            LaunchStatus::Tbd => 2,
            LaunchStatus::Success => 3,
            LaunchStatus::Failure => 4,
            LaunchStatus::Hold => 5,
            LaunchStatus::InFlight => 6,
            LaunchStatus::PartialFailure => 7,
        }
    }

    /// The status with a given Launch Library number; `None` for an unknown number.
    pub fn from_number(n: u8) -> (r: Option<LaunchStatus>)
        ensures
            match r {
                Some(s) => status_number(s) == n,
                None => n < 1 || n > 7,
            },
    {
        match n {
            1 => Some(LaunchStatus::Go),
            2 => Some(LaunchStatus::Tbd),
            3 => Some(LaunchStatus::Success),
            4 => Some(LaunchStatus::Failure),
            5 => Some(LaunchStatus::Hold),
            6 => Some(LaunchStatus::InFlight),
            7 => Some(LaunchStatus::PartialFailure),
            _ => None,
        }
    }

    /// Whether the status is `Go`.
    pub fn is_go(&self) -> (r: bool)
        ensures
            r == (*self == LaunchStatus::Go),
    {
        match self {
            LaunchStatus::Go => true,
            _ => false,
        }
    }
}

/// Distinct statuses have distinct Launch Library numbers, so the status read
/// back from a status's number is that status.
pub proof fn lemma_status_number_injective(a: LaunchStatus, b: LaunchStatus)
    requires
        status_number(a) == status_number(b),
    ensures
        a == b,
{
}

/// The names the Launch Library gives its statuses, by status number (1 to 7).
pub open spec fn launch_library_names() -> Seq<Seq<char>> {
    seq!["Go"@, "TBD"@, "Success"@, "Failure"@, "Hold"@, "In Flight"@, "Partial Failure"@]
}

/// The label shown for every status is the Launch Library's name for the
/// status's number.
pub proof fn lemma_status_label_is_library_name(s: LaunchStatus)
    ensures
        1 <= status_number(s) <= 7,
        status_label(s) == launch_library_names()[status_number(s) - 1],
{
}

/// A status and its name, as the Launch Library reports it.
#[derive(Debug, Clone)]
pub struct StatusMap {
    pub id: LaunchStatus,
    pub name: String,
}

/// A link to a video or webcast of a launch.
#[derive(Debug, Clone)]
pub struct VidURL {
    pub priority: i32,
    pub title: Option<String>,
    pub description: Option<String>,
    pub url: String,
}

impl SortKey for VidURL {
    open spec fn sort_key(&self) -> int {
        self.priority as int
    }

    fn key(&self) -> (k: i64) {
        self.priority as i64
    }
}

/// The rocket of a launch.
#[derive(Debug, Clone)]
pub struct RocketInfo {
    pub id: i32,
    pub configuration: RocketConfig,
}

/// A rocket configuration.
#[derive(Debug, Clone)]
pub struct RocketConfig {
    pub id: i32,
    pub name: String,
    pub family: String,
    pub full_name: String,
    pub variant: String,
}

/// A launch agency.
#[derive(Debug, Clone)]
pub struct AgencyInfo {
    pub id: i32,
    pub name: String,
    pub url: Option<String>,
    pub agency_type: Option<String>,
}

/// A launch site.
#[derive(Debug)]
pub struct LocationInfo {
    pub id: i32,
    pub pads: Option<Vec<PadInfo>>,
    pub name: String,
    pub country_code: String,
    pub total_launch_count: i32,
    pub total_landing_count: i32,
    pub map_image: Option<String>,
}

/// A launch pad.
#[derive(Debug)]
pub struct PadInfo {
    pub id: i32,
    pub name: String,
    pub latitude: Option<String>,
    pub longitude: Option<String>,
    pub agency_id: Option<i32>,
    pub location: LocationInfo,
    pub map_url: Option<String>,
    pub info_url: Option<String>,
    pub total_launch_count: i32,
}

/// The mission of a launch.
#[derive(Debug, Clone)]
pub struct MissionInfo {
    pub id: i32,
    pub name: String,
    pub description: String,
    pub mission_type: String,
}

/// A first stage booster.
#[derive(Debug, Clone)]
pub struct LauncherDetail {
    pub id: i32,
    pub serial_number: Option<String>,
    pub status: String,
    pub details: String,
    pub flight_proven: bool,
    pub image_url: Option<String>,
    pub successful_landings: i32,
    pub attempted_landings: i32,
    pub flights: String,
    pub last_launch_date: String,
    pub first_launch_date: String,
    pub launcher_config: LauncherConfigDetail,
}

/// A launcher configuration in detail.
#[derive(Debug, Clone)]
pub struct LauncherConfigDetail {
    pub id: i32,
    pub name: String,
    pub family: String,
    pub full_name: String,
    pub image_url: Option<String>,
    pub description: String,
    pub variant: String,
    pub length: i32,
    pub max_stage: Option<i32>,
    pub min_stage: Option<i32>,
    pub diameter: i32,
    pub info_url: Option<String>,
    pub wiki_url: Option<String>,
}

/// A launch as the Launch Library describes it.
#[derive(Debug)]
pub struct LaunchInfo {
    pub id: String,
    pub name: String,
    pub status: StatusMap,
    pub net: i64,
    pub window_start: i64,
    pub window_end: i64,
    pub pad: PadInfo,
    pub rocket: RocketInfo,
    pub mission: Option<MissionInfo>,
    pub launch_service_provider: Option<AgencyInfo>,
    pub vid_urls: Option<Vec<VidURL>>,
    pub image: Option<String>,
}

/// A page of upcoming launches from the Launch Library.
#[derive(Debug)]
pub struct LaunchContainer {
    pub results: Vec<LaunchInfo>,
}

/// A launch as the bot keeps it: `id` is its number in the bot's list, `ll_id`
/// the Launch Library's identifier.
#[derive(Debug, Clone)]
pub struct LaunchData {
    pub id: i32,
    pub ll_id: String,
    pub launch_name: String,
    pub status: LaunchStatus,
    pub payload: String,
    pub vid_urls: Vec<VidURL>,
    pub vehicle: String,
    pub location: String,
    pub rocket_img: Option<String>,
    pub net: i64,
    pub launch_window: i64,
    pub mission_type: String,
    pub mission_description: String,
    pub lsp: String,
}

impl SortKey for LaunchData {
    open spec fn sort_key(&self) -> int {
        self.net as int
    }

    fn key(&self) -> (k: i64) {
        self.net
    }
}

/// The name of the host that `url::Url` finds in a link: `Some(domain)` when the
/// link parses and its host is a domain name (not an IP address), `None` otherwise.
pub uninterp spec fn url_domain_of(link: Seq<char>) -> Option<Seq<char>>;

/// Parses a link with `url::Url::parse` and returns `Url::domain` of the result.
/// The contract only ties the result to the name [`url_domain_of`]; the parsing
/// rules themselves (the WHATWG URL standard) are left unstated.
#[verifier::external_body]
pub(crate) fn url_domain(link: &str) -> (r: Option<String>)
    ensures
        match r {
            Some(d) => url_domain_of(link@) == Some(d@),
            None => url_domain_of(link@) is None,
        },
{
    match url::Url::parse(link) {
        Ok(u) => match u.domain() {
            Some(d) => Some(d.to_string()),
            None => None,
        },
        Err(_) => None,
    }
}

/// What two links are compared by when duplicates are dropped: the link's domain,
/// else its title, else "Title Unknown".
pub open spec fn link_key(u: VidURL) -> Seq<char> {
    match url_domain_of(u.url@) {
        Some(d) => d,
        None => match u.title {
            Some(t) => t@,
            None => "Title Unknown"@,
        },
    }
}

/// Drops every link whose key equals that of the link just before it.
pub open spec fn dedup_links(s: Seq<VidURL>) -> Seq<VidURL>
    decreases s.len(),
{
    if s.len() == 0 {
        s
    } else if s.len() >= 2 && link_key(s.last()) == link_key(s[s.len() - 2]) {
        dedup_links(s.drop_last())
    } else {
        dedup_links(s.drop_last()).push(s.last())
    }
}

/// Computes [`link_key`].
fn link_key_of(u: &VidURL) -> (k: String)
    ensures
        k@ == link_key(*u),
{
    match url_domain(u.url.as_str()) {
        Some(d) => d,
        None => match &u.title {
            Some(t) => t.clone(),
            None => String::from_str("Title Unknown"),
        },
    }
}

/// Removes links whose key repeats that of the previous link (`dedup_by_key`).
pub fn dedup_links_by_key(v: Vec<VidURL>) -> (r: Vec<VidURL>)
    ensures
        r@ == dedup_links(v@),
{
    let ghost orig = v@;
    let mut input = v;
    let mut out: Vec<VidURL> = Vec::new();
    let mut prev: Option<String> = None;
    let ghost mut c: int = 0;
    assert(orig.skip(0) =~= orig);
    assert(orig.take(0) =~= Seq::<VidURL>::empty());
    while input.len() > 0
        invariant
            0 <= c <= orig.len(),
            input@ == orig.skip(c),
            out@ == dedup_links(orig.take(c)),
            match prev {
                Some(p) => c > 0 && p@ == link_key(orig[c - 1]),
                None => c == 0,
            },
        decreases input@.len(),
    {
        let x = input.remove(0);
        let k = link_key_of(&x);
        let keep = match &prev {
            Some(p) => !p.eq(&k),
            None => true,
        };
        proof {
            assert(x == orig[c]);
            assert(orig.take(c + 1).drop_last() =~= orig.take(c));
            assert(orig.take(c + 1).last() == x);
            if c > 0 {
                assert(orig.take(c + 1)[c - 1] == orig[c - 1]);
            }
            assert(input@ =~= orig.skip(c + 1));
        }
        if keep {
            out.push(x);
        }
        prev = Some(k);
        proof {
            c = c + 1;
        }
    }
    assert(orig.take(c) =~= orig);
    out
}

/// The links a condensed launch keeps: sorted by priority (stably), then with
/// repeated keys dropped.
pub open spec fn prepared_links(r: Seq<VidURL>, links: Seq<VidURL>) -> bool {
    exists|sorted: Seq<VidURL>| is_stable_sort_of(sorted, links) && r == dedup_links(sorted)
}

/// The text of an optional mission field, or a stand-in when there is no mission.
pub open spec fn mission_text(m: Option<MissionInfo>, pick: int, unknown: Seq<char>) -> Seq<char> {
    match m {
        Some(mi) => if pick == 0 {
            mi.name@
        } else if pick == 1 {
            mi.mission_type@
        } else {
            mi.description@
        },
        None => unknown,
    }
}

impl LaunchData {
    /// Condenses a Launch Library launch: the links are sorted by priority with
    /// repeats dropped, missing mission and provider details get stand-in texts,
    /// the launch window is its length in seconds, and the number is 0 until the
    /// launch is placed in a list.
    pub fn from_info(info: LaunchInfo) -> (r: LaunchData)
        requires
            -DURATION_MAX_SECS <= info.window_end - info.window_start <= DURATION_MAX_SECS,
        ensures
            r.id == 0,
            r.ll_id == info.id,
            r.launch_name == info.name,
            r.status == info.status.id,
            r.payload@ == mission_text(info.mission, 0, "payload unknown"@),
            r.mission_type@ == mission_text(info.mission, 1, "mission type unknown"@),
            r.mission_description@ == mission_text(info.mission, 2, "mission description unknown"@),
            match info.vid_urls {
                Some(links) => prepared_links(r.vid_urls@, links@),
                None => r.vid_urls@.len() == 0,
            },
            r.vehicle == info.rocket.configuration.full_name,
            r.location == info.pad.name,
            r.net == info.net,
            r.launch_window == info.window_end - info.window_start,
            r.rocket_img == info.image,
            r.lsp@ == match info.launch_service_provider {
                Some(a) => a.name@,
                None => "Unknown launch provider"@,
            },
    {
        let LaunchInfo {
            id,
            name,
            status,
            net,
            window_start,
            window_end,
            pad,
            rocket,
            mission,
            launch_service_provider,
            vid_urls,
            image,
        } = info;
        let links = match vid_urls {
            Some(urls) => {
                let sorted = stable_sort_by_key(urls);
                let deduped = dedup_links_by_key(sorted);
                deduped
            },
            None => Vec::new(),
        };
        let (payload, mission_type, mission_description) = match mission {
            Some(m) => (m.name, m.mission_type, m.description),
            None => (
                String::from_str("payload unknown"),
                String::from_str("mission type unknown"),
                String::from_str("mission description unknown"),
            ),
        };
        let lsp = match launch_service_provider {
            Some(a) => a.name,
            None => String::from_str("Unknown launch provider"),
        };
        LaunchData {
            id: 0,
            ll_id: id,
            launch_name: name,
            status: status.id,
            payload,
            vid_urls: links,
            vehicle: rocket.configuration.full_name,
            location: pad.name,
            rocket_img: image,
            net,
            launch_window: window_end - window_start,
            mission_type,
            mission_description,
            lsp,
        }
    }
}

/// An optional text field as the Launch Library sends it: an empty text means absent.
pub fn nonempty_text(s: Option<String>) -> (r: Option<String>)
    ensures
        match s {
            Some(t) => if t@.len() == 0 { r is None } else { r == Some(t) },
            None => r is None,
        },
{
    match s {
        Some(t) => if t.as_str().is_empty() { None } else { Some(t) },
        None => None,
    }
}

} // verus!
