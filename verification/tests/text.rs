use okto::text::{capitalize, contains_str, cutoff_on_last_dot, cutoff_position, get_date_epic_image, parse_u64, replace_all_str};

#[test]
fn capitalize_upper_cases_the_first_character() {
    assert_eq!(capitalize("launches"), "Launches");
    assert_eq!(capitalize(""), "");
    assert_eq!(capitalize("1st"), "1st");
    assert_eq!(capitalize("\u{e9}t\u{e9}"), "\u{c9}t\u{e9}");
}

#[test]
fn cutoff_ends_on_a_sentence() {
    assert_eq!(cutoff_on_last_dot("One. Two. Three four five", 12), "One. Two.");
    assert_eq!(cutoff_on_last_dot("no dots here at all", 5), "no do");
    assert_eq!(cutoff_on_last_dot("short.", 50), "short.");
}

#[test]
fn cutoff_position_is_the_byte_where_the_cut_falls() {
    assert_eq!(cutoff_position("One. Two. Three four five", 12), Some(9));
    assert_eq!(cutoff_position("no dots here at all", 5), Some(5));
    assert_eq!(cutoff_position("short.", 50), None);
}

#[test]
fn epic_dates_become_paths() {
    assert_eq!(get_date_epic_image("2019-05-30 00:31:45"), "2019/05/30");
    assert_eq!(get_date_epic_image("2020-01-02"), "2020/01/02");
}

#[test]
fn u64_parsing_follows_from_str() {
    assert_eq!(parse_u64("18446744073709551615"), Some(u64::MAX));
    assert_eq!(parse_u64("18446744073709551616"), None);
    assert_eq!(parse_u64("+12"), Some(12));
    assert_eq!(parse_u64("-12"), None);
    assert_eq!(parse_u64("+"), None);
    assert_eq!(parse_u64(""), None);
    assert_eq!(parse_u64("12a"), None);
}

#[test]
fn replacing_and_searching_text() {
    assert_eq!(replace_all_str("aXbXc", "X", "--"), "a--b--c");
    assert!(contains_str("watch on youtube.com now", "youtube.com"));
    assert!(!contains_str("vimeo", "youtube.com"));
}
