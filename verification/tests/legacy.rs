use okto::legacy::{GuildSettings, LegacyChannel, LegacySetting, LegacyUser};

#[test]
fn set_reminder_times_are_listed_longest_first() {
    let user = LegacyUser {
        id: "1".into(),
        t_24h: Some("x".into()),
        t_12h: None,
        t_6h: None,
        t_3h: Some("x".into()),
        t_1h: None,
        t_30m: None,
        t_15m: Some("x".into()),
        t_5m: None,
        t_1m: Some("x".into()),
    };
    assert_eq!(user.to_vec(), vec!["24h", "3h", "15m", "1m"]);
    let channel = LegacyChannel {
        id: "2".into(),
        t_24h: None,
        t_12h: Some("x".into()),
        t_6h: Some("x".into()),
        t_3h: None,
        t_1h: Some("x".into()),
        t_30m: Some("x".into()),
        t_15m: None,
        t_5m: Some("x".into()),
        t_1m: None,
    };
    assert_eq!(channel.to_vec(), vec!["12h", "6h", "1h", "30m", "5m"]);
}

#[test]
fn legacy_prefixes_keep_their_server() {
    let s = GuildSettings::from(LegacySetting { id: "429307670730637312".into(), prefix: "!".into() });
    assert_eq!(s.guild, 429307670730637312);
    assert_eq!(s.prefix, "!");
    let plus = GuildSettings::from(LegacySetting { id: "+7".into(), prefix: ";".into() });
    assert_eq!(plus.guild, 7);
}
