use okto::filters::FilterErrorType;
use okto::launches::{LaunchData, LaunchStatus};
use okto::listing::{
    filter_error_message, filters_info, general_info, launch_links, launch_title, launch_window_text, list_page,
    mission_description_text, next_launch_description, ListButton, PageButton,
};

fn launch(id: i32, status: LaunchStatus) -> LaunchData {
    LaunchData {
        id,
        ll_id: format!("ll-{id}"),
        launch_name: format!("Launch {id}"),
        status,
        payload: format!("Payload {id}"),
        vid_urls: vec![],
        vehicle: "Falcon 9 Block 5".into(),
        location: "LC-39A".into(),
        rocket_img: None,
        net: 1_700_000_000 + id as i64,
        launch_window: 3600,
        mission_type: String::new(),
        mission_description: String::new(),
        lsp: "SpaceX".into(),
    }
}

fn launches(n: i32) -> Vec<LaunchData> {
    (0..n).map(|i| launch(i, if i % 2 == 0 { LaunchStatus::Go } else { LaunchStatus::Tbd })).collect()
}

#[test]
fn the_first_page_of_all_launches() {
    let list = launches(25);
    let page = list_page(&list, 0, true);
    assert_eq!(page.fields.len(), 10);
    assert_eq!(page.fields[0].0, "0: Falcon 9 Block 5 - Go");
    assert_eq!(page.fields[1].0, "1: Falcon 9 Block 5 - TBD");
    assert_eq!(
        page.fields[0].1,
        "**Payload:** Payload 0\n**NET:** <t:1700000000>\n**Provider:** SpaceX\n**Location:** LC-39A"
    );
    assert!(page.description.contains("both certain and uncertain"));
    assert_eq!(
        page.buttons,
        vec![
            PageButton { button: ListButton::OnlyCertain, target: Some((0, false)) },
            PageButton { button: ListButton::Forward, target: Some((1, true)) },
            PageButton { button: ListButton::Last, target: Some((1, true)) },
            PageButton { button: ListButton::Exit, target: None },
        ]
    );
}

#[test]
fn the_last_page_of_certain_launches() {
    let list = launches(25);
    let page = list_page(&list, 1, false);
    assert_eq!(page.fields.len(), 3);
    assert_eq!(page.fields[0].0, "20: Falcon 9 Block 5 - Go");
    assert!(page.description.contains("upcoming launches that are certain"));
    assert_eq!(
        page.buttons,
        vec![
            PageButton { button: ListButton::First, target: Some((0, true)) },
            PageButton { button: ListButton::Back, target: Some((0, true)) },
            PageButton { button: ListButton::IncludeUncertain, target: Some((0, true)) },
            PageButton { button: ListButton::Exit, target: None },
        ]
    );
}

#[test]
fn no_certain_switch_without_certain_launches() {
    let list = vec![launch(0, LaunchStatus::Tbd)];
    let page = list_page(&list, 0, true);
    assert_eq!(page.buttons, vec![PageButton { button: ListButton::Exit, target: None }]);
}

#[test]
fn launch_texts() {
    let l = launch(7, LaunchStatus::Go);
    assert_eq!(launch_title(&l), "Falcon 9 Block 5\nStatus: Go");
    assert_eq!(launch_window_text(0), "unknown");
    assert_eq!(launch_window_text(5400), "1 hour and 30 minutes");
    assert_eq!(
        next_launch_description(&l),
        "**Payload:** Payload 7\n**NET:** <t:1700000007>\n**Provider:** SpaceX\n**Location:** LC-39A\n**Launch Window:** 1 hour"
    );
    assert_eq!(
        general_info(&l),
        "**Payload:** Payload 7\n**Provider:** SpaceX\n**Location:** LC-39A\n**Launch Window:** 1 hour"
    );
    assert_eq!(
        launch_links(7),
        "**My Source:** [The Space Devs](https://thespacedevs.com)\n**Rocket Watch:** [rocket.watch](https://rocket.watch/#id=7)\n**Go4Liftoff:** [go4liftoff.com](https://go4liftoff.com/#page=singleLaunch?filters=launchID=7)"
    );
}

#[test]
fn long_descriptions_are_cut_after_a_sentence() {
    assert_eq!(mission_description_text("Short one."), "Short one.");
    let sentence = "This is one sentence of the mission. ";
    let long: String = sentence.repeat(40);
    let cut = mission_description_text(&long);
    assert!(cut.ends_with(". ...\nlength is too long for discord"));
    assert!(cut.len() < 1024);
    let head = &cut[..cut.len() - " ...\nlength is too long for discord".len()];
    assert!(long.starts_with(head));
}

#[test]
fn filter_errors_name_the_filter() {
    assert_eq!(
        filter_error_message(FilterErrorType::Invalid, true),
        "This is not a valid filter, please take a look at those listed in `/filtersinfo`"
    );
    assert_eq!(
        filter_error_message(FilterErrorType::Lsp, true),
        "This launch provider does not have any upcoming launches listed as certain :("
    );
    assert_eq!(
        filter_error_message(FilterErrorType::Vehicle, false),
        "This launch vehicle does not have any upcoming launches :("
    );
}

#[test]
fn the_filter_lists_are_sorted() {
    let info = filters_info();
    let vehicles: Vec<&str> = info.vehicles.split(", ").collect();
    let mut sorted = vehicles.clone();
    sorted.sort();
    assert_eq!(vehicles, sorted);
    assert!(vehicles.contains(&"falcon"));
    assert!(info.agencies_first.starts_with("**"));
    assert!(info.agencies_first.contains("**blueorigin**: Blue Origin"));
    assert!(info.agencies_second.contains("**ula**: United Launch Alliance"));
    let first = info.agencies_first.lines().count();
    let second = info.agencies_second.lines().count();
    assert!(second == first || second == first + 1);
}

#[test]
fn shown_positions_pick_the_certain_launches() {
    let list = launches(5);
    assert_eq!(okto::listing::shown_positions(&list, false), vec![0, 2, 4]);
    assert_eq!(okto::listing::shown_positions(&list, true), vec![0, 1, 2, 3, 4]);
}

#[test]
fn certain_launches_and_lookup_by_number() {
    let list = launches(5);
    let ids: Vec<i32> = okto::listing::certain_launches(list.clone()).iter().map(|l| l.id).collect();
    assert_eq!(ids, vec![0, 2, 4]);
    assert_eq!(okto::listing::launch_by_number(&list, 3), Some(3));
    assert_eq!(okto::listing::launch_by_number(&list, 42), None);
}
