use okto::launches::{LaunchData, LaunchStatus};
use okto::reminders::{
    filter_from_string_input, passes_filters, regex_filter_to_string, GuildSettings, UserSettings,
};

fn launch(id: i32, name: &str, payload: &str, vehicle: &str, location: &str, lsp: &str) -> LaunchData {
    LaunchData {
        id,
        ll_id: String::new(),
        launch_name: name.into(),
        status: LaunchStatus::Go,
        payload: payload.into(),
        vid_urls: vec![],
        vehicle: vehicle.into(),
        location: location.into(),
        rocket_img: None,
        net: 1635409251,
        launch_window: 60,
        mission_type: String::new(),
        mission_description: String::new(),
        lsp: lsp.into(),
    }
}

fn create_fake_launches() -> Vec<LaunchData> {
    vec![
        launch(
            1,
            "Falcon 9 Block 5",
            "Starlink Group 6-2",
            "Falcon 9 Block 5",
            "Launch Complex 39A",
            "SpaceX",
        ),
        launch(2, "Atlas V 551", "STP-3", "Atlas V 551", "Space Launch Complex 41", "United Launch Alliance"),
    ]
}

fn settings(filters: Vec<String>, allow_filters: Vec<String>, payload_filters: Vec<String>) -> GuildSettings {
    GuildSettings {
        guild: 429307670730637312,
        filters,
        allow_filters,
        payload_filters,
        mentions: vec![],
        scrub_notifications: true,
        outcome_notifications: true,
        mention_others: true,
        notifications_channel: Some(429307774804033536),
    }
}

#[test]
fn no_filters() {
    let launches = create_fake_launches();
    let settings = settings(vec![], vec![], vec![]);

    assert!(passes_filters(&settings, &launches[0]));
    assert!(passes_filters(&settings, &launches[1]));
}

#[test]
fn block_filters() {
    let launches = create_fake_launches();
    let settings = settings(vec!["ula".into()], vec![], vec![]);

    assert!(passes_filters(&settings, &launches[0]));
    assert!(!passes_filters(&settings, &launches[1]));
}

#[test]
fn allow_filters() {
    let launches = create_fake_launches();
    let settings = settings(vec![], vec!["ula".into()], vec![]);

    assert!(!passes_filters(&settings, &launches[0]));
    assert!(passes_filters(&settings, &launches[1]));
}

#[test]
fn payload_filters() {
    let launches = create_fake_launches();
    let settings = settings(vec![], vec![], vec![r"(?im)\bstarlink\b".into()]);

    assert!(!passes_filters(&settings, &launches[0]));
    assert!(passes_filters(&settings, &launches[1]));
}

#[test]
fn a_pattern_that_does_not_compile_passes_nothing() {
    let launches = create_fake_launches();
    let settings = settings(vec![], vec![], vec!["(unclosed".into()]);

    assert!(!passes_filters(&settings, &launches[0]));
    assert!(!passes_filters(&settings, &launches[1]));
}

#[test]
fn user_settings_filter_the_same_way() {
    let launches = create_fake_launches();
    let user = UserSettings {
        user: 247745860979392512,
        filters: vec!["spacex".into()],
        allow_filters: vec![],
        payload_filters: vec![],
        scrub_notifications: false,
        outcome_notifications: false,
    };
    assert!(!passes_filters(&user, &launches[0]));
    assert!(passes_filters(&user, &launches[1]));
}

#[test]
fn utils_regex_to_string() {
    let regex1 = r"(?i)\bstarlink\b";
    let regex2 = r"(?i)\bfalcon (heavy|9)\b";

    assert_eq!(regex_filter_to_string(regex1), "starlink".to_owned());
    assert_eq!(regex_filter_to_string(regex2), r"(?i)\bfalcon (heavy|9)\b")
}

#[test]
fn reminders_regex_to_string() {
    let regex1 = r"(?i)\bstarlink\b";
    let regex2 = r"(?i)\bfalcon (heavy|9)\b";

    assert_eq!(regex_filter_to_string(regex1), "starlink".to_owned());
    assert_eq!(regex_filter_to_string(regex2), r"(?i)\bfalcon (heavy|9)\b")
}

#[test]
fn plain_words_become_word_patterns() {
    assert_eq!(filter_from_string_input("starlink".to_owned()), r"(?i)\bstarlink\b");
    assert_eq!(filter_from_string_input("falcon 9".to_owned()), "falcon 9");
    assert_eq!(regex_filter_to_string(&filter_from_string_input("GPS-III_5".to_owned())), "GPS-III_5");
}
