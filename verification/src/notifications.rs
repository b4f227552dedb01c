//! The texts of the bot's notifications: launch reminders, scrubs and outcomes,
//! and the link lists shown with a launch.

use vstd::prelude::*;
use crate::durations::{duration_text, format_duration};
use crate::launches::{LaunchData, LaunchStatus, VidURL, status_label, url_domain, url_domain_of};
use crate::reminders::{
    ChannelReminder, GuildSettings, ReminderSettings, UserSettings, launch_passes, mentions_text,
    passes_filters,
};
use crate::text::{
    contains_seq, contains_str, i64_to_decimal, int_to_decimal, strip_leading,
    strip_leading_str, u64_to_decimal,
};

verus! {

/// A link as "[domain](link)" followed by a line break, with any leading "www."
/// dropped from the domain; the bare link when it has no domain.
pub open spec fn url_text(raw: Seq<char>) -> Seq<char> {
    match url_domain_of(raw) {
        Some(d) => "["@ + strip_leading(d, "www."@) + "]("@ + raw + ")\n"@,
        None => raw,
    }
}

/// Shows a link by its domain, as [`url_text`] describes.
pub fn format_url(rawlink: &str) -> (r: String)
    ensures
        r@ == url_text(rawlink@),
{
    match url_domain(rawlink) {
        Some(d) => {
            let domain = strip_leading_str(d.as_str(), "www.");
            let mut r = String::from_str("[");
            r.append(domain.as_str());
            r.append("](");
            r.append(rawlink);
            r.append(")\n");
            r
        },
        None => String::from_str(rawlink),
    }
}

/// The link shown as the place to watch a launch: the first link to youtube.com,
/// else the first link, if there is any link.
pub open spec fn live_link(links: Seq<VidURL>) -> Option<int> {
    if exists|i: int| 0 <= i < links.len() && contains_seq(#[trigger] links[i].url@, "youtube.com"@) {
        Some(
            choose|i: int|
                0 <= i < links.len() && contains_seq(#[trigger] links[i].url@, "youtube.com"@)
                    && forall|j: int| 0 <= j < i ==> !contains_seq(#[trigger] links[j].url@, "youtube.com"@),
        )
    } else if links.len() > 0 {
        Some(0)
    } else {
        None
    }
}

/// Finds the link [`live_link`] picks.
pub fn find_live_link(links: &Vec<VidURL>) -> (r: Option<usize>)
    ensures
        match r {
            Some(i) => live_link(links@) == Some(i as int),
            None => live_link(links@) is None,
        },
        r matches Some(i) ==> i < links@.len(),
{
    let mut i: usize = 0;
    while i < links.len()
        invariant
            i <= links@.len(),
            forall|j: int| 0 <= j < i ==> !contains_seq(#[trigger] links@[j].url@, "youtube.com"@),
        decreases links@.len() - i,
    {
        if contains_str(links[i].url.as_str(), "youtube.com") {
            proof {
                let c = choose|c: int|
                    0 <= c < links@.len() && contains_seq(#[trigger] links@[c].url@, "youtube.com"@)
                        && forall|j: int| 0 <= j < c ==> !contains_seq(#[trigger] links@[j].url@, "youtube.com"@);
                assert(c == i);
            }
            return Some(i);
        }
        i = i + 1;
    }
    if links.len() > 0 {
        Some(0)
    } else {
        None
    }
}

/// The body of a launch reminder.
pub open spec fn reminder_text(l: LaunchData) -> Seq<char> {
    let live = match live_link(l.vid_urls@) {
        Some(i) => "**Live at:** "@ + url_text(l.vid_urls@[i].url@),
        None => Seq::<char>::empty(),
    };
    "**Payload:** "@ + l.payload@ + "\n**Vehicle:** "@ + l.vehicle@ + "\n**NET:** <t:"@
        + int_to_decimal(l.net as int) + ">\n"@ + live
}

/// The body of a launch reminder, as [`reminder_text`] describes.
pub fn reminder_description(l: &LaunchData) -> (r: String)
    ensures
        r@ == reminder_text(*l),
{
    let mut r = String::from_str("**Payload:** ");
    r.append(l.payload.as_str());
    r.append("\n**Vehicle:** ");
    r.append(l.vehicle.as_str());
    r.append("\n**NET:** <t:");
    let net = i64_to_decimal(l.net);
    r.append(net.as_str());
    r.append(">\n");
    match find_live_link(&l.vid_urls) {
        Some(i) => {
            r.append("**Live at:** ");
            let link = format_url(l.vid_urls[i].url.as_str());
            r.append(link.as_str());
        },
        None => {},
    }
    r
}

/// The heading of a reminder: how long until the launch.
pub fn reminder_heading(diff: i64) -> (r: String)
    ensures
        r@ == duration_text(diff as int, false) + " till launch"@,
{
    let mut r = format_duration(diff, false);
    r.append(" till launch");
    r
}

/// " (TBD)" for a launch whose date is not settled.
pub open spec fn tbd_mark(s: LaunchStatus) -> Seq<char> {
    if s == LaunchStatus::Tbd { " (TBD)"@ } else { Seq::<char>::empty() }
}

/// The text announcing that a launch moved.
pub open spec fn scrub_text(old: LaunchData, new: LaunchData) -> Seq<char> {
    "The launch of "@ + new.payload@ + " on a **"@ + new.vehicle@ + "** is now scheduled for <t:"@
        + int_to_decimal(new.net as int) + ">"@ + tbd_mark(new.status) + " instead of <t:"@
        + int_to_decimal(old.net as int) + ">"@ + tbd_mark(old.status)
}

/// Builds the text announcing that a launch moved, as [`scrub_text`] describes.
pub fn scrub_message(old: &LaunchData, new: &LaunchData) -> (r: String)
    ensures
        r@ == scrub_text(*old, *new),
{
    let mut r = String::from_str("The launch of ");
    r.append(new.payload.as_str());
    r.append(" on a **");
    r.append(new.vehicle.as_str());
    r.append("** is now scheduled for <t:");
    let new_net = i64_to_decimal(new.net);
    r.append(new_net.as_str());
    r.append(">");
    if new.status == LaunchStatus::Tbd {
        r.append(" (TBD)");
    }
    r.append(" instead of <t:");
    let old_net = i64_to_decimal(old.net);
    r.append(old_net.as_str());
    r.append(">");
    if old.status == LaunchStatus::Tbd {
        r.append(" (TBD)");
    }
    r
}

/// The text announcing how a launch ended.
pub open spec fn outcome_text(l: LaunchData) -> Seq<char> {
    "The launch of "@ + l.payload@ + " on a "@ + l.vehicle@ + " has completed with a status of **"@
        + status_label(l.status) + "**!"@
}

/// Builds the text announcing how a launch ended, as [`outcome_text`] describes.
pub fn outcome_message(l: &LaunchData) -> (r: String)
    ensures
        r@ == outcome_text(*l),
{
    let mut r = String::from_str("The launch of ");
    r.append(l.payload.as_str());
    r.append(" on a ");
    r.append(l.vehicle.as_str());
    r.append(" has completed with a status of **");
    r.append(l.status.as_str());
    r.append("**!");
    r
}

/// The colour of an outcome notification.
#[derive(Debug, Clone, Copy, PartialEq, Eq, Structural)]
pub enum OutcomeColour {
    Green,
    Orange,
    Red,
}

/// Green for a success, orange for a partial failure, red otherwise.
pub fn outcome_colour(s: LaunchStatus) -> (r: OutcomeColour)
    ensures
        r == (if s == LaunchStatus::Success {
            OutcomeColour::Green
        } else if s == LaunchStatus::PartialFailure {
            OutcomeColour::Orange
        } else {
            OutcomeColour::Red
        }),
{
    match s {
        LaunchStatus::Success => OutcomeColour::Green,
        LaunchStatus::PartialFailure => OutcomeColour::Orange,
        _ => OutcomeColour::Red,
    }
}

/// One entry of a launch's link list: the quoted title (or "unknown url"), then
/// "[domain](link)", for a link with a domain; nothing otherwise.
pub open spec fn link_entry(u: VidURL) -> Seq<char> {
    match url_domain_of(u.url@) {
        Some(d) => "\""@ + (match u.title {
            Some(t) => t@,
            None => "unknown url"@,
        }) + "\"\n["@ + strip_leading(d, "www."@) + "]("@ + u.url@ + ")\n\n"@,
        None => Seq::<char>::empty(),
    }
}

/// The entries of a link list, concatenated.
pub open spec fn links_text(links: Seq<VidURL>) -> Seq<char>
    decreases links.len(),
{
    if links.len() == 0 {
        Seq::<char>::empty()
    } else {
        links_text(links.drop_last()) + link_entry(links.last())
    }
}

/// The link list of a launch; `None` when no link has a domain.
pub fn format_links(links: &Vec<VidURL>) -> (r: Option<String>)
    ensures
        match r {
            Some(t) => t@ == links_text(links@) && t@.len() > 0,
            None => links_text(links@).len() == 0,
        },
{
    let mut res = String::new();
    let mut i: usize = 0;
    while i < links.len()
        invariant
            i <= links@.len(),
            res@ == links_text(links@.take(i as int)),
        decreases links@.len() - i,
    {
        let u = &links[i];
        match url_domain(u.url.as_str()) {
            Some(d) => {
                let domain = strip_leading_str(d.as_str(), "www.");
                res.append("\"");
                match &u.title {
                    Some(t) => res.append(t.as_str()),
                    None => res.append("unknown url"),
                }
                res.append("\"\n[");
                res.append(domain.as_str());
                res.append("](");
                res.append(u.url.as_str());
                res.append(")\n\n");
            },
            None => {},
        }
        assert(links@.take(i + 1).drop_last() =~= links@.take(i as int));
        i = i + 1;
    }
    assert(links@.take(links@.len() as int) =~= links@);
    if res.as_str().is_empty() {
        None
    } else {
        Some(res)
    }
}

/// A reminder to post in a channel, with the roles to mention, if any.
#[derive(Debug, Clone)]
pub struct ChannelDelivery {
    pub channel: u64,
    pub mentions: Option<String>,
}

/// The channels that get a reminder of a launch, in order: those whose server's
/// settings let the launch through, each with its server's roles to mention.
pub open spec fn channel_plan(targets: Seq<(ChannelReminder, GuildSettings)>, l: LaunchData) -> Seq<(u64, Option<Seq<char>>)>
    decreases targets.len(),
{
    if targets.len() == 0 {
        Seq::empty()
    } else {
        let t = targets.last();
        let rest = channel_plan(targets.drop_last(), l);
        if launch_passes(t.1.filters@, t.1.allow_filters@, t.1.payload_filters@, l) {
            let m = mentions_text(t.1.mentions@);
            rest.push((t.0.channel, if m.len() == 0 { None } else { Some(m) }))
        } else {
            rest
        }
    }
}

/// The text mentioning all roles of a list.
fn roles_text(roles: &Vec<u64>) -> (r: String)
    ensures
        r@ == mentions_text(roles@),
{
    let mut text = String::new();
    let mut i: usize = 0;
    assert(roles@.take(0) =~= Seq::<u64>::empty());
    while i < roles.len()
        invariant
            i <= roles@.len(),
            text@ == mentions_text(roles@.take(i as int)),
        decreases roles@.len() - i,
    {
        text.append(" <@&");
        let id = u64_to_decimal(roles[i]);
        text.append(id.as_str());
        text.append(">");
        assert(roles@.take(i + 1).drop_last() =~= roles@.take(i as int));
        i = i + 1;
    }
    assert(roles@.take(roles@.len() as int) =~= roles@);
    text
}

/// The channels that get a reminder of a launch, as [`channel_plan`] says; each
/// channel comes with its server's settings.
pub fn channel_deliveries(targets: &Vec<(ChannelReminder, GuildSettings)>, l: &LaunchData) -> (r: Vec<ChannelDelivery>)
    ensures
        r@.map_values(|d: ChannelDelivery| (d.channel, match d.mentions {
            Some(m) => Some(m@),
            None => None,
        })) == channel_plan(targets@, *l),
{
    let ghost view = |d: ChannelDelivery| (d.channel, match d.mentions {
        Some(m) => Some(m@),
        None => None,
    });
    let mut r: Vec<ChannelDelivery> = Vec::new();
    let mut i: usize = 0;
    assert(targets@.take(0) =~= Seq::<(ChannelReminder, GuildSettings)>::empty());
    while i < targets.len()
        invariant
            i <= targets@.len(),
            view == (|d: ChannelDelivery| (d.channel, match d.mentions {
                Some(m) => Some(m@),
                None => None,
            })),
            r@.map_values(view) == channel_plan(targets@.take(i as int), *l),
        decreases targets@.len() - i,
    {
        let (c, settings) = (&targets[i].0, &targets[i].1);
        proof {
            assert(targets@.take(i + 1).drop_last() =~= targets@.take(i as int));
            assert(targets@.take(i + 1).last() == targets@[i as int]);
        }
        let ghost before = r@;
        if passes_filters(settings, l) {
            let m = roles_text(&settings.mentions);
            let mentions = if m.as_str().is_empty() { None } else { Some(m) };
            r.push(ChannelDelivery { channel: c.channel, mentions });
            assert(r@.map_values(view) =~= before.map_values(view).push(view(r@.last())));
        }
        i = i + 1;
    }
    assert(targets@.take(targets@.len() as int) =~= targets@);
    r
}

/// The users that get a reminder of a launch, in order: those whose settings let
/// the launch through.
pub open spec fn user_plan(targets: Seq<(u64, UserSettings)>, l: LaunchData) -> Seq<u64>
    decreases targets.len(),
{
    if targets.len() == 0 {
        Seq::empty()
    } else {
        let t = targets.last();
        let rest = user_plan(targets.drop_last(), l);
        if launch_passes(t.1.filters@, t.1.allow_filters@, t.1.payload_filters@, l) {
            rest.push(t.0)
        } else {
            rest
        }
    }
}

/// The users that get a reminder of a launch, as [`user_plan`] says; each user
/// comes with their settings.
pub fn user_deliveries(targets: &Vec<(u64, UserSettings)>, l: &LaunchData) -> (r: Vec<u64>)
    ensures
        r@ == user_plan(targets@, *l),
{
    let mut r: Vec<u64> = Vec::new();
    let mut i: usize = 0;
    assert(targets@.take(0) =~= Seq::<(u64, UserSettings)>::empty());
    while i < targets.len()
        invariant
            i <= targets@.len(),
            r@ == user_plan(targets@.take(i as int), *l),
        decreases targets@.len() - i,
    {
        proof {
            assert(targets@.take(i + 1).drop_last() =~= targets@.take(i as int));
            assert(targets@.take(i + 1).last() == targets@[i as int]);
        }
        if passes_filters(&targets[i].1, l) {
            r.push(targets[i].0);
        }
        i = i + 1;
    }
    assert(targets@.take(targets@.len() as int) =~= targets@);
    r
}

/// The channels that get a scrub or outcome notification of a launch, in order:
/// the notification channel of each server whose settings let the launch
/// through and that has one, with the roles to mention when the server wants them.
pub open spec fn guild_notification_plan(all: Seq<GuildSettings>, l: LaunchData) -> Seq<(u64, Option<Seq<char>>)>
    decreases all.len(),
{
    if all.len() == 0 {
        Seq::empty()
    } else {
        let s = all.last();
        let rest = guild_notification_plan(all.drop_last(), l);
        if launch_passes(s.filters@, s.allow_filters@, s.payload_filters@, l) && s.notifications_channel is Some {
            rest.push((
                s.notifications_channel->0,
                if s.mention_others && s.mentions@.len() > 0 {
                    Some(mentions_text(s.mentions@))
                } else {
                    None
                },
            ))
        } else {
            rest
        }
    }
}

/// The channels that get a scrub or outcome notification, as
/// [`guild_notification_plan`] says.
pub fn guild_notification_targets(all: &Vec<GuildSettings>, l: &LaunchData) -> (r: Vec<ChannelDelivery>)
    ensures
        r@.map_values(|d: ChannelDelivery| (d.channel, match d.mentions {
            Some(m) => Some(m@),
            None => None,
        })) == guild_notification_plan(all@, *l),
{
    let ghost view = |d: ChannelDelivery| (d.channel, match d.mentions {
        Some(m) => Some(m@),
        None => None,
    });
    let mut r: Vec<ChannelDelivery> = Vec::new();
    let mut i: usize = 0;
    assert(all@.take(0) =~= Seq::<GuildSettings>::empty());
    while i < all.len()
        invariant
            i <= all@.len(),
            view == (|d: ChannelDelivery| (d.channel, match d.mentions {
                Some(m) => Some(m@),
                None => None,
            })),
            r@.map_values(view) == guild_notification_plan(all@.take(i as int), *l),
        decreases all@.len() - i,
    {
        let settings = &all[i];
        proof {
            assert(all@.take(i + 1).drop_last() =~= all@.take(i as int));
            assert(all@.take(i + 1).last() == all@[i as int]);
        }
        let ghost before = r@;
        if passes_filters(settings, l) {
            match settings.notifications_channel {
                Some(c) => {
                    let mentions = crate::reminders::get_mentions(settings);
                    r.push(ChannelDelivery { channel: c, mentions });
                    assert(r@.map_values(view) =~= before.map_values(view).push(view(r@.last())));
                },
                None => {},
            }
        }
        i = i + 1;
    }
    assert(all@.take(all@.len() as int) =~= all@);
    r
}

/// The users that get a scrub or outcome notification of a launch, in order:
/// those whose settings let the launch through.
pub open spec fn user_notification_plan(all: Seq<UserSettings>, l: LaunchData) -> Seq<u64>
    decreases all.len(),
{
    if all.len() == 0 {
        Seq::empty()
    } else {
        let s = all.last();
        let rest = user_notification_plan(all.drop_last(), l);
        if launch_passes(s.filters@, s.allow_filters@, s.payload_filters@, l) {
            rest.push(s.user)
        } else {
            rest
        }
    }
}

/// The users that get a scrub or outcome notification, as
/// [`user_notification_plan`] says.
pub fn user_notification_targets(all: &Vec<UserSettings>, l: &LaunchData) -> (r: Vec<u64>)
    ensures
        r@ == user_notification_plan(all@, *l),
{
    let mut r: Vec<u64> = Vec::new();
    let mut i: usize = 0;
    assert(all@.take(0) =~= Seq::<UserSettings>::empty());
    while i < all.len()
        invariant
            i <= all@.len(),
            r@ == user_notification_plan(all@.take(i as int), *l),
        decreases all@.len() - i,
    {
        proof {
            assert(all@.take(i + 1).drop_last() =~= all@.take(i as int));
            assert(all@.take(i + 1).last() == all@[i as int]);
        }
        if passes_filters(&all[i], l) {
            r.push(all[i].user);
        }
        i = i + 1;
    }
    assert(all@.take(all@.len() as int) =~= all@);
    r
}

} // verus!
