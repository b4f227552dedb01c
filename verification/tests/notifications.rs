use okto::launches::{LaunchData, LaunchStatus, VidURL};
use okto::notifications::{
    channel_deliveries, find_live_link, format_links, format_url, guild_notification_targets, outcome_colour,
    outcome_message, reminder_description, reminder_heading, scrub_message, user_deliveries,
    user_notification_targets, OutcomeColour,
};
use okto::reminders::{ChannelReminder, GuildSettings, UserSettings};

fn link(url: &str, title: Option<&str>) -> VidURL {
    VidURL { priority: 0, title: title.map(|t| t.to_owned()), description: None, url: url.to_owned() }
}

fn launch(status: LaunchStatus, net: i64, links: Vec<VidURL>) -> LaunchData {
    LaunchData {
        id: 3,
        ll_id: "id".into(),
        launch_name: "Falcon 9 | Starlink".into(),
        status,
        payload: "Starlink Group 6-2".into(),
        vid_urls: links,
        vehicle: "Falcon 9 Block 5".into(),
        location: "LC-39A".into(),
        rocket_img: None,
        net,
        launch_window: 0,
        mission_type: String::new(),
        mission_description: String::new(),
        lsp: "SpaceX".into(),
    }
}

fn guild(filters: Vec<String>, mentions: Vec<u64>, mention_others: bool, channel: Option<u64>) -> GuildSettings {
    GuildSettings {
        guild: 1,
        filters,
        allow_filters: vec![],
        payload_filters: vec![],
        mentions,
        scrub_notifications: true,
        outcome_notifications: true,
        mention_others,
        notifications_channel: channel,
    }
}

#[test]
fn links_are_shown_by_domain() {
    assert_eq!(format_url("https://www.youtube.com/watch?v=1"), "[youtube.com](https://www.youtube.com/watch?v=1)\n");
    assert_eq!(format_url("not a link"), "not a link");
    let links = vec![link("https://www.youtube.com/watch?v=1", Some("Webcast")), link("https://spacex.com", None)];
    assert_eq!(
        format_links(&links).unwrap(),
        "\"Webcast\"\n[youtube.com](https://www.youtube.com/watch?v=1)\n\n\"unknown url\"\n[spacex.com](https://spacex.com)\n\n"
    );
    assert_eq!(format_links(&vec![link("nope", None)]), None);
}

#[test]
fn the_live_link_prefers_youtube() {
    let links = vec![link("https://spacex.com", None), link("https://youtube.com/x", None)];
    assert_eq!(find_live_link(&links), Some(1));
    assert_eq!(find_live_link(&vec![link("https://spacex.com", None)]), Some(0));
    assert_eq!(find_live_link(&vec![]), None);
}

#[test]
fn reminder_texts() {
    let l = launch(LaunchStatus::Go, 1635409251, vec![link("https://youtube.com/live", None)]);
    assert_eq!(
        reminder_description(&l),
        "**Payload:** Starlink Group 6-2\n**Vehicle:** Falcon 9 Block 5\n**NET:** <t:1635409251>\n**Live at:** [youtube.com](https://youtube.com/live)\n"
    );
    assert_eq!(reminder_heading(3600), "1 hour till launch");
}

#[test]
fn scrub_and_outcome_texts() {
    let old = launch(LaunchStatus::Go, 100, vec![]);
    let new = launch(LaunchStatus::Tbd, 200, vec![]);
    assert_eq!(
        scrub_message(&old, &new),
        "The launch of Starlink Group 6-2 on a **Falcon 9 Block 5** is now scheduled for <t:200> (TBD) instead of <t:100>"
    );
    let done = launch(LaunchStatus::PartialFailure, 100, vec![]);
    assert_eq!(
        outcome_message(&done),
        "The launch of Starlink Group 6-2 on a Falcon 9 Block 5 has completed with a status of **Partial Failure**!"
    );
    assert_eq!(outcome_colour(LaunchStatus::Success), OutcomeColour::Green);
    assert_eq!(outcome_colour(LaunchStatus::PartialFailure), OutcomeColour::Orange);
    assert_eq!(outcome_colour(LaunchStatus::Failure), OutcomeColour::Red);
}

#[test]
fn reminders_reach_the_channels_and_users_that_let_the_launch_through() {
    let l = launch(LaunchStatus::Go, 100, vec![]);
    let targets = vec![
        (ChannelReminder { guild: 1, channel: 10 }, guild(vec![], vec![5, 6], false, None)),
        (ChannelReminder { guild: 2, channel: 20 }, guild(vec!["spacex".into()], vec![], false, None)),
        (ChannelReminder { guild: 3, channel: 30 }, guild(vec![], vec![], false, None)),
    ];
    let d = channel_deliveries(&targets, &l);
    assert_eq!(d.len(), 2);
    assert_eq!(d[0].channel, 10);
    assert_eq!(d[0].mentions.as_deref(), Some(" <@&5> <@&6>"));
    assert_eq!(d[1].channel, 30);
    assert!(d[1].mentions.is_none());

    let user = |id: u64, filters: Vec<String>| UserSettings {
        user: id,
        filters,
        allow_filters: vec![],
        payload_filters: vec![],
        scrub_notifications: true,
        outcome_notifications: true,
    };
    let users = vec![(7, user(7, vec![])), (8, user(8, vec!["spacex".into()]))];
    assert_eq!(user_deliveries(&users, &l), vec![7]);
    assert_eq!(user_notification_targets(&vec![user(7, vec![]), user(9, vec![])], &l), vec![7, 9]);
}

#[test]
fn notifications_go_to_the_notification_channel() {
    let l = launch(LaunchStatus::Success, 100, vec![]);
    let all = vec![
        guild(vec![], vec![5], true, Some(11)),
        guild(vec![], vec![5], false, Some(12)),
        guild(vec![], vec![], true, None),
    ];
    let d = guild_notification_targets(&all, &l);
    assert_eq!(d.len(), 2);
    assert_eq!(d[0].channel, 11);
    assert_eq!(d[0].mentions.as_deref(), Some(" <@&5>"));
    assert_eq!(d[1].channel, 12);
    assert!(d[1].mentions.is_none());
}
