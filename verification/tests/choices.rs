use okto::choices::{
    agency_choice_write, channel_choice_write, channel_options, edits_offered, mention_choice_write,
    payload_choice_write, reminder_write, role_options, toggle_field_name, toggle_write, Edit, FilterList,
    SettingWrite,
};
use okto::pages::Toggle;
use okto::reminders::State;

#[test]
fn removing_is_offered_only_with_entries() {
    assert_eq!(edits_offered(true), vec![Edit::Add, Edit::Remove]);
    assert_eq!(edits_offered(false), vec![Edit::Add]);
}

#[test]
fn agency_choices_write_known_keys_only() {
    match agency_choice_write(FilterList::Allowed, Edit::Add, "spacex".to_owned()) {
        Some(SettingWrite::AddFilter(FilterList::Allowed, k)) => assert_eq!(k, "spacex"),
        other => panic!("unexpected {other:?}"),
    }
    match agency_choice_write(FilterList::Blocked, Edit::Remove, "ula".to_owned()) {
        Some(SettingWrite::RemoveFilter(FilterList::Blocked, k)) => assert_eq!(k, "ula"),
        other => panic!("unexpected {other:?}"),
    }
    assert!(agency_choice_write(FilterList::Blocked, Edit::Add, "nobody".to_owned()).is_none());
    assert_eq!(FilterList::Allowed.field(), "allow_filters");
    assert_eq!(FilterList::Payload.field(), "payload_filters");
}

#[test]
fn payload_choices_turn_words_into_patterns() {
    match payload_choice_write(Edit::Add, "starlink".to_owned()) {
        SettingWrite::AddFilter(FilterList::Payload, k) => assert_eq!(k, "(?i)\\bstarlink\\b"),
        other => panic!("unexpected {other:?}"),
    }
    match payload_choice_write(Edit::Remove, "(?i)\\bstarlink\\b".to_owned()) {
        SettingWrite::RemoveFilter(FilterList::Payload, k) => assert_eq!(k, "(?i)\\bstarlink\\b"),
        other => panic!("unexpected {other:?}"),
    }
}

#[test]
fn role_channel_reminder_and_toggle_writes() {
    assert!(matches!(mention_choice_write(Edit::Add, "42"), Some(SettingWrite::AddMention(42))));
    assert!(matches!(mention_choice_write(Edit::Remove, "42"), Some(SettingWrite::RemoveMention(42))));
    assert!(mention_choice_write(Edit::Add, "x").is_none());
    assert!(matches!(channel_choice_write("7"), Some(SettingWrite::SetNotificationChannel(7))));
    assert!(matches!(reminder_write(Edit::Add, 3600), Some(SettingWrite::AddReminder(60))));
    assert!(matches!(reminder_write(Edit::Remove, 90), Some(SettingWrite::RemoveReminder(1))));
    assert!(reminder_write(Edit::Add, 0).is_none());
    assert!(matches!(toggle_write(Toggle::Scrubs, State::On), SettingWrite::Switch(Toggle::Scrubs, false)));
    assert!(matches!(toggle_write(Toggle::Mentions, State::Off), SettingWrite::Switch(Toggle::Mentions, true)));
    assert_eq!(toggle_field_name(Toggle::Outcomes), "outcome_notifications");
}

#[test]
fn role_and_channel_menus() {
    let roles = vec![(1u64, "a".to_owned()), (2, "b".to_owned()), (3, "c".to_owned())];
    let add: Vec<String> = role_options(&roles, &vec![2], Edit::Add).into_iter().map(|o| o.key).collect();
    assert_eq!(add, vec!["1", "3"]);
    let remove: Vec<String> = role_options(&roles, &vec![2], Edit::Remove).into_iter().map(|o| o.value).collect();
    assert_eq!(remove, vec!["b"]);
    let many: Vec<(u64, String)> = (0..200).map(|i| (i, format!("c{i}"))).collect();
    assert_eq!(channel_options(&many).len(), 125);
    assert_eq!(channel_options(&many)[124].key, "124");
}
