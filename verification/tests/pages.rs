use okto::pages::{
    agency_filters_description, agency_options, main_menu_entries, main_menu_title, mentions_description,
    menu_custom_id, notifications_channel_description, payload_filters_description, payload_options,
    reminders_description, toggle_description, MenuSection, Toggle,
};
use okto::reminders::{Reminder, State};

fn reminder(minutes: i64) -> Reminder {
    Reminder { minutes, channels: vec![], users: vec![] }
}

#[test]
fn the_reminders_page_lists_the_reminders() {
    assert_eq!(reminders_description(&vec![]), "No reminders have been set yet");
    assert_eq!(
        reminders_description(&vec![reminder(1440), reminder(90)]),
        "The following reminders have been set:\n- 1 day\n- 1 hour and 30 minutes"
    );
    assert_eq!(reminder(15).get_duration(), 900);
}

#[test]
fn agency_filters_are_listed_by_name() {
    assert_eq!(agency_filters_description(&vec![], false), "No agency filters have been set yet");
    assert_eq!(agency_filters_description(&vec![], true), "No agency allow filters have been set yet");
    assert_eq!(
        agency_filters_description(&vec!["ula".to_owned(), "nope".to_owned()], false),
        "The following agency filters have been set:\n`United Launch Alliance`\n`unknown agency`"
    );
    assert_eq!(
        agency_filters_description(&vec!["spacex".to_owned()], true),
        "The following agency allow filters have been set:\n`SpaceX`"
    );
}

#[test]
fn payload_filters_are_shown_as_words() {
    assert_eq!(payload_filters_description(&vec![]), "No payload filters have been added yet");
    assert_eq!(
        payload_filters_description(&vec![r"(?i)\bstarlink\b".to_owned(), "gps.*".to_owned()]),
        "The following payload filters have been added:\n`starlink`\n`gps.*`"
    );
    let opts = payload_options(&vec![r"(?i)\bstarlink\b".to_owned()]);
    assert_eq!(opts[0].key, r"(?i)\bstarlink\b");
    assert_eq!(opts[0].value, "starlink");
}

#[test]
fn agency_menus_offer_the_other_agencies() {
    let filters = vec!["ula".to_owned()];
    let selected = agency_options(&filters, true);
    assert_eq!(selected.len(), 1);
    assert_eq!(selected[0].value, "United Launch Alliance");
    let others = agency_options(&filters, false);
    assert!(others.iter().all(|o| o.key != "ula"));
    assert!(others.iter().any(|o| o.key == "spacex" && o.value == "SpaceX"));
}

#[test]
fn mentions_and_notification_channel_texts() {
    assert_eq!(mentions_description(false, &vec![]), "No role mentions have been set yet");
    assert_eq!(
        mentions_description(true, &vec!["Launch Fans".to_owned()]),
        "The following roles have been set to be mentioned:\n`Launch Fans`"
    );
    assert_eq!(
        notifications_channel_description(Some(42)),
        "\nScrub and outcome notifications will be posted in: <#42>"
    );
    assert_eq!(
        notifications_channel_description(None),
        "\n**warning:** no notifications channel has been set yet!"
    );
}

#[test]
fn toggles_show_their_state() {
    assert_eq!(
        toggle_description(Toggle::Mentions, State::On),
        "Toggle mentions for scrub and outcome notifications.\nThis is currently **ON**"
    );
    assert!(toggle_description(Toggle::Scrubs, State::Off).ends_with("**OFF**"));
}

#[test]
fn the_main_menu_depends_on_where_it_is_opened() {
    assert_eq!(main_menu_title(false, None), "Launch Reminder Settings for your DMs");
    assert_eq!(main_menu_title(true, Some("launches".to_owned())), "Launch Reminder Settings for #launches");
    assert_eq!(main_menu_title(true, None), "Launch Reminder Settings for guild channel");
    assert_eq!(
        main_menu_entries(false),
        vec![MenuSection::Reminders, MenuSection::Filters, MenuSection::Other]
    );
    assert_eq!(main_menu_entries(true).len(), 5);
    assert_eq!(menu_custom_id(247745860979392512, "add-filter"), "247745860979392512-add-filter");
}

#[test]
fn roles_that_are_gone_are_found() {
    assert_eq!(okto::pages::missing_roles(&vec![5, 7, 9, 7], &vec![9, 1]), vec![5, 7, 7]);
    assert_eq!(okto::pages::missing_roles(&vec![], &vec![9]), Vec::<u64>::new());
    assert_eq!(okto::pages::missing_roles(&vec![3], &vec![3]), Vec::<u64>::new());
}
