use okto::filters::{agency_map, filter_launches, vehicle_map, FilterErrorType};
use okto::launches::{
    AgencyInfo, LaunchData, LaunchInfo, LaunchStatus, LocationInfo, MissionInfo, PadInfo, RocketConfig, RocketInfo,
    StatusMap, VidURL,
};

fn launch(id: i32, vehicle: &str, lsp: &str) -> LaunchData {
    LaunchData {
        id,
        ll_id: String::new(),
        launch_name: String::new(),
        status: LaunchStatus::Go,
        payload: String::new(),
        vid_urls: vec![],
        vehicle: vehicle.into(),
        location: String::new(),
        rocket_img: None,
        net: 0,
        launch_window: 0,
        mission_type: String::new(),
        mission_description: String::new(),
        lsp: lsp.into(),
    }
}

fn fake_list() -> Vec<LaunchData> {
    vec![
        launch(0, "Falcon 9 Block 5", "SpaceX"),
        launch(1, "Atlas V 551", "United Launch Alliance"),
        launch(2, "Electron", "Rocket Lab Ltd"),
    ]
}

#[test]
fn statuses_have_labels_and_numbers() {
    assert_eq!(LaunchStatus::InFlight.as_str(), "In Flight");
    assert_eq!(LaunchStatus::Tbd.as_str(), "TBD");
    assert_eq!(LaunchStatus::PartialFailure.to_number(), 7);
    for n in 1..=7u8 {
        assert_eq!(LaunchStatus::from_number(n).unwrap().to_number(), n);
    }
    assert_eq!(LaunchStatus::from_number(0), None);
    assert!(LaunchStatus::Go.is_go());
}

#[test]
fn the_filter_tables_are_complete() {
    let agencies = agency_map();
    assert_eq!(agencies.len(), 32);
    assert!(agencies.contains(&("ula", "United Launch Alliance")));
    let vehicles = vehicle_map();
    assert_eq!(vehicles.len(), 32);
    let falcon = vehicles.iter().find(|(k, _)| *k == "falcon").unwrap();
    assert!(falcon.1.contains(&"Falcon 9 Block 5"));
}

#[test]
fn launches_are_filtered_on_agency_or_vehicle() {
    let by_lsp = filter_launches(fake_list(), Some("SpaceX"), None).unwrap();
    assert_eq!(by_lsp.len(), 1);
    assert_eq!(by_lsp[0].id, 0);
    let by_rocket = filter_launches(fake_list(), None, Some("atlas5")).unwrap();
    assert_eq!(by_rocket.len(), 1);
    assert_eq!(by_rocket[0].id, 1);
    assert_eq!(filter_launches(fake_list(), None, None).unwrap().len(), 3);
    assert_eq!(filter_launches(fake_list(), Some("nasa"), None).unwrap_err(), FilterErrorType::Lsp);
    assert_eq!(filter_launches(fake_list(), None, Some("soyuz")).unwrap_err(), FilterErrorType::Vehicle);
    assert_eq!(filter_launches(fake_list(), Some("nope"), None).unwrap_err(), FilterErrorType::Invalid);
}

fn location() -> LocationInfo {
    LocationInfo {
        id: 1,
        pads: None,
        name: "Florida".into(),
        country_code: "USA".into(),
        total_launch_count: 0,
        total_landing_count: 0,
        map_image: None,
    }
}

fn info(mission: Option<MissionInfo>, links: Option<Vec<VidURL>>) -> LaunchInfo {
    LaunchInfo {
        id: "abc".into(),
        name: "Falcon 9 | Starlink".into(),
        status: StatusMap { id: LaunchStatus::Go, name: "Go for Launch".into() },
        net: 1000,
        window_start: 1000,
        window_end: 4600,
        pad: PadInfo {
            id: 2,
            name: "LC-39A".into(),
            latitude: None,
            longitude: None,
            agency_id: None,
            location: location(),
            map_url: None,
            info_url: None,
            total_launch_count: 0,
        },
        rocket: RocketInfo {
            id: 3,
            configuration: RocketConfig {
                id: 4,
                name: "Falcon 9".into(),
                family: "Falcon".into(),
                full_name: "Falcon 9 Block 5".into(),
                variant: "Block 5".into(),
            },
        },
        mission,
        launch_service_provider: Some(AgencyInfo { id: 5, name: "SpaceX".into(), url: None, agency_type: None }),
        vid_urls: links,
        image: None,
    }
}

fn vid(priority: i32, url: &str) -> VidURL {
    VidURL { priority, title: None, description: None, url: url.into() }
}

#[test]
fn launch_data_is_condensed_from_the_api() {
    let mission = MissionInfo {
        id: 1,
        name: "Starlink Group 6-2".into(),
        description: "Satellites".into(),
        mission_type: "Communications".into(),
    };
    let links = vec![
        vid(2, "https://www.youtube.com/watch?v=b"),
        vid(1, "https://www.youtube.com/watch?v=a"),
        vid(3, "https://spacex.com/launches"),
    ];
    let l = LaunchData::from_info(info(Some(mission), Some(links)));
    assert_eq!(l.payload, "Starlink Group 6-2");
    assert_eq!(l.mission_type, "Communications");
    assert_eq!(l.vehicle, "Falcon 9 Block 5");
    assert_eq!(l.location, "LC-39A");
    assert_eq!(l.launch_window, 3600);
    assert_eq!(l.lsp, "SpaceX");
    let urls: Vec<&str> = l.vid_urls.iter().map(|v| v.url.as_str()).collect();
    assert_eq!(urls, vec!["https://www.youtube.com/watch?v=a", "https://spacex.com/launches"]);

    let bare = LaunchData::from_info(info(None, None));
    assert_eq!(bare.payload, "payload unknown");
    assert_eq!(bare.mission_description, "mission description unknown");
    assert!(bare.vid_urls.is_empty());
}

#[test]
fn agency_keys_are_read_in_any_case() {
    assert_eq!(filter_launches(fake_list(), Some("SPACEX"), None).unwrap().len(), filter_launches(fake_list(), Some("spacex"), None).unwrap().len());
    assert_eq!(filter_launches(fake_list(), Some("NoSuchAgency"), None).unwrap_err(), FilterErrorType::Invalid);
}
