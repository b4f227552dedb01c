use okto::general::{epic_footer, epic_image_url, epic_opposite, people_in_space_text, people_in_space_title, PersonInSpace};
use okto::pictures::{
    biggest_image_url, exoplanet_choice, get_rover_camera_picture, rover_cameras, EPICImage, ExoplanetChoice,
    HubbleImage, HubbleImageSource, MarsRoverCamera, MarsRoverPicture, PictureDataCache,
};

fn file(width: u32, url: &str) -> HubbleImage {
    HubbleImage { width, file_url: url.to_owned() }
}

fn picture(id: i32, camera: &str) -> MarsRoverPicture {
    MarsRoverPicture {
        id,
        img_src: format!("https://mars.nasa.gov/{id}.jpg"),
        earth_date: "2021-01-01".into(),
        camera: MarsRoverCamera { id: 1, name: camera.to_owned(), rover_id: 5, full_name: camera.to_owned() },
    }
}

#[test]
fn the_first_wide_hubble_file_is_shown() {
    let src = HubbleImageSource {
        description: None,
        image_files: vec![
            file(100, "//imgsrc.hubblesite.org/hvi/uploads/small.jpg"),
            file(2000, "//imgsrc.hubblesite.org/hvi/uploads/large.jpg"),
            file(4000, "//imgsrc.hubblesite.org/hvi/uploads/huge.jpg"),
        ],
        name: "Pillars".into(),
    };
    assert_eq!(biggest_image_url(&src), "https://hubblesite.org/uploads/large.jpg");
    let narrow = HubbleImageSource {
        description: None,
        image_files: vec![file(100, "https://example.org/a.jpg"), file(150, "b")],
        name: "x".into(),
    };
    assert_eq!(biggest_image_url(&narrow), "https://example.org/a.jpg");
}

#[test]
fn rovers_have_their_cameras() {
    assert_eq!(rover_cameras("spirit").unwrap()[0], "NAVCAM");
    assert_eq!(rover_cameras("opportunity").unwrap().len(), 5);
    assert_eq!(rover_cameras("curiosity").unwrap()[0], "MAST");
    assert_eq!(rover_cameras("perseverance").unwrap().len(), 8);
    assert!(rover_cameras("sojourner").is_none());
}

#[test]
fn the_picture_comes_from_the_best_camera_that_took_one() {
    let list = vec![picture(1, "FHAZ"), picture(2, "CHEMCAM"), picture(3, "FHAZ"), picture(4, "MAHLI")];
    for _ in 0..20 {
        let i = get_rover_camera_picture("curiosity", &list).unwrap();
        assert_eq!(list[i].camera.name, "FHAZ");
    }
    let other = vec![picture(1, "UNKNOWN"), picture(2, "OTHER")];
    assert_eq!(get_rover_camera_picture("curiosity", &other), Some(0));
    assert_eq!(get_rover_camera_picture("spirit", &vec![]), None);
}

#[test]
fn the_exoplanet_command_picks_what_was_asked() {
    let cache = PictureDataCache {
        curiosity_mardi: vec![],
        exoplanets: vec!["Kepler-22 b".into(), "TRAPPIST-1 e".into()],
        host_stars: vec!["Kepler-22".into()],
    };
    match exoplanet_choice(&cache, Some("TRAPPIST-1 e".into()), Some("Kepler-22".into())) {
        Some(ExoplanetChoice::Star(s)) => assert_eq!(s, "Kepler-22"),
        _ => panic!("expected the star"),
    }
    match exoplanet_choice(&cache, Some("TRAPPIST-1 e".into()), None) {
        Some(ExoplanetChoice::Planet(p)) => assert_eq!(p, "TRAPPIST-1 e"),
        _ => panic!("expected the planet"),
    }
    assert!(matches!(exoplanet_choice(&cache, Some("Vulcan".into()), None), Some(ExoplanetChoice::NotFound)));
    match exoplanet_choice(&cache, None, None) {
        Some(ExoplanetChoice::Random(i)) => assert!(i < 2),
        _ => panic!("expected a random planet"),
    }
    let empty = PictureDataCache { curiosity_mardi: vec![], exoplanets: vec![], host_stars: vec![] };
    assert!(exoplanet_choice(&empty, None, None).is_none());
}

#[test]
fn earth_picture_texts() {
    let img = EPICImage { image: "epic_1b_20190530003145".into(), date: "2019-05-30 00:31:45".into() };
    assert_eq!(
        epic_image_url("natural", &img),
        "https://epic.gsfc.nasa.gov/archive/natural/2019/05/30/png/epic_1b_20190530003145.png"
    );
    assert_eq!(epic_opposite("natural"), "enhanced");
    assert_eq!(epic_opposite("enhanced"), "natural");
    assert_eq!(
        epic_footer("enhanced", &img),
        "Taken on: 2019-05-30 00:31:45\nRun this command again with the natural argument!"
    );
}

#[test]
fn people_in_space_texts() {
    let people = vec![
        PersonInSpace { name: "Jasmin Moghbeli".into(), craft: "ISS".into() },
        PersonInSpace { name: "Tang Hongbo".into(), craft: "Tiangong".into() },
    ];
    assert_eq!(people_in_space_text(&people), "Jasmin Moghbeli: ISS\nTang Hongbo: Tiangong\n");
    assert_eq!(people_in_space_title(2), "There are currently 2 people in space");
}

#[test]
fn every_picture_of_a_camera_is_a_candidate() {
    let list = vec![picture(1, "FHAZ"), picture(2, "MAST"), picture(3, "FHAZ"), picture(4, "NAVCAM")];
    assert_eq!(okto::pictures::pictures_with_camera(&list, "FHAZ"), vec![0, 2]);
    assert_eq!(okto::pictures::pictures_with_camera(&list, "RHAZ"), Vec::<usize>::new());
    assert_eq!(okto::pictures::positions_below(4), vec![0, 1, 2, 3]);
    assert_eq!(okto::pictures::positions_below(0), Vec::<usize>::new());
}
