use okto::launches::{LaunchData, LaunchStatus};
use okto::sorting::stable_sort_by_key;
use okto::tracking::{plan_launch_update, ReminderTracker};

fn launch(ll_id: &str, net: i64, status: LaunchStatus) -> LaunchData {
    LaunchData {
        id: 0,
        ll_id: ll_id.to_owned(),
        launch_name: ll_id.to_owned(),
        status,
        payload: format!("payload of {ll_id}"),
        vid_urls: vec![],
        vehicle: "Electron".into(),
        location: "Mahia".into(),
        rocket_img: None,
        net,
        launch_window: 0,
        mission_type: String::new(),
        mission_description: String::new(),
        lsp: "Rocket Lab".into(),
    }
}

#[test]
fn fresh_launches_are_sorted_numbered_and_compared() {
    let old = vec![
        launch("a", 1000, LaunchStatus::Go),
        launch("b", 2000, LaunchStatus::Go),
        launch("c", 3000, LaunchStatus::InFlight),
    ];
    let new = vec![
        launch("b", 2200, LaunchStatus::Go),
        launch("a", 5000, LaunchStatus::Go),
        launch("c", 3000, LaunchStatus::Success),
        launch("d", 100, LaunchStatus::Tbd),
    ];
    let update = plan_launch_update(&old, new).unwrap();
    let ids: Vec<&str> = update.launches.iter().map(|l| l.ll_id.as_str()).collect();
    assert_eq!(ids, vec!["d", "b", "c", "a"]);
    let numbers: Vec<i32> = update.launches.iter().map(|l| l.id).collect();
    assert_eq!(numbers, vec![0, 1, 2, 3]);
    // "b" moved 200 s, within the margin; "a" moved 4000 s later.
    assert_eq!(update.scrubbed, vec![(0, 3)]);
    assert_eq!(update.finished, vec![2]);
}

#[test]
fn sorting_keeps_equal_dates_in_order() {
    let v = vec![launch("x", 5, LaunchStatus::Go), launch("y", 1, LaunchStatus::Go), launch("z", 5, LaunchStatus::Go)];
    let sorted = stable_sort_by_key(v);
    let ids: Vec<&str> = sorted.iter().map(|l| l.ll_id.as_str()).collect();
    assert_eq!(ids, vec!["y", "x", "z"]);
}

#[test]
fn reminders_are_looked_up_once_per_minute_count() {
    let launches = vec![launch("a", 10_000, LaunchStatus::Go), launch("b", 20_000, LaunchStatus::Tbd)];
    let mut tracker = ReminderTracker::new();
    let first = tracker.tick(&launches, 10_000 - 3600);
    assert!(first.refresh_launches);
    assert_eq!(first.lookups, vec![(0, 60)]);
    let again = tracker.tick(&launches, 10_000 - 3600 - 30);
    assert!(!again.refresh_launches);
    assert!(again.lookups.is_empty());
    let later = tracker.tick(&launches, 10_000 - 3600 + 60);
    assert_eq!(later.lookups, vec![(0, 59)]);
    assert_eq!(tracker.loop_count(), 3);
}
