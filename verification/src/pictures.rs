//! Space pictures: the data the picture services return, the Hubble image the bot
//! shows and the Mars rover picture it picks.

use vstd::prelude::*;
use rand::seq::SliceRandom;
use crate::text::{replace_all, replace_all_str, str_eq};

verus! {

/// An image of the Earth from the EPIC camera.
#[derive(Debug, Clone)]
pub struct EPICImage {
    pub image: String,
    pub date: String,
}

/// NASA's astronomy picture of the day.
#[derive(Debug, Clone)]
pub struct APODImage {
    pub explanation: Option<String>,
    pub title: String,
    pub url: String,
    pub date: String,
}

/// A camera of a Mars rover.
#[derive(Debug, Clone)]
pub struct MarsRoverCamera {
    pub id: u8,
    pub name: String,
    pub rover_id: u8,
    pub full_name: String,
}

/// A picture taken by a Mars rover.
#[derive(Debug, Clone)]
pub struct MarsRoverPicture {
    pub id: i32,
    pub img_src: String,
    pub earth_date: String,
    pub camera: MarsRoverCamera,
}

/// The pictures a Mars rover took on one day.
#[derive(Debug, Clone)]
pub struct MarsRoverPictureRes {
    pub photos: Vec<MarsRoverPicture>,
}

/// A file of a Hubble image, with its width in pixels.
#[derive(Debug, Clone)]
pub struct HubbleImage {
    pub width: u32,
    pub file_url: String,
}

/// A Hubble image and its files.
#[derive(Debug, Clone)]
pub struct HubbleImageSource {
    pub description: Option<String>,
    pub image_files: Vec<HubbleImage>,
    pub name: String,
}

/// Pictures and names kept at hand for the picture commands.
#[derive(Debug, Clone)]
pub struct PictureDataCache {
    pub curiosity_mardi: Vec<MarsRoverPicture>,
    pub exoplanets: Vec<String>,
    pub host_stars: Vec<String>,
}

/// The file shown of a Hubble image: the first one wider than 200 pixels, else
/// the first one.
pub open spec fn shown_hubble_file(files: Seq<HubbleImage>) -> int {
    if exists|i: int| 0 <= i < files.len() && (#[trigger] files[i]).width > 200 {
        choose|i: int|
            0 <= i < files.len() && (#[trigger] files[i]).width > 200 && forall|j: int|
                0 <= j < i ==> (#[trigger] files[j]).width <= 200
    } else {
        0
    }
}

/// The link to the Hubble image to show, as [`shown_hubble_file`] picks it, with
/// the old image host "//imgsrc.hubblesite.org/hvi" replaced by
/// "https://hubblesite.org". The image must have a file.
pub fn biggest_image_url(src: &HubbleImageSource) -> (r: String)
    requires
        src.image_files@.len() > 0,
    ensures
        r@ == replace_all(
            src.image_files@[shown_hubble_file(src.image_files@)].file_url@,
            "//imgsrc.hubblesite.org/hvi"@,
            "https://hubblesite.org"@,
        ),
{
    proof {
        reveal_strlit("//imgsrc.hubblesite.org/hvi");
    }
    let files = &src.image_files;
    let mut i: usize = 0;
    while i < files.len()
        invariant
            i <= files@.len(),
            files == &src.image_files,
            "//imgsrc.hubblesite.org/hvi"@.len() > 0,
            forall|j: int| 0 <= j < i ==> (#[trigger] files@[j]).width <= 200,
        decreases files@.len() - i,
    {
        if files[i].width > 200 {
            proof {
                let c = choose|c: int|
                    0 <= c < files@.len() && (#[trigger] files@[c]).width > 200 && forall|j: int|
                        0 <= j < c ==> (#[trigger] files@[j]).width <= 200;
                assert(c == i);
            }
            return replace_all_str(
                files[i].file_url.as_str(),
                "//imgsrc.hubblesite.org/hvi",
                "https://hubblesite.org",
            );
        }
        i = i + 1;
    }
    replace_all_str(files[0].file_url.as_str(), "//imgsrc.hubblesite.org/hvi", "https://hubblesite.org")
}

/// The cameras of a rover whose pictures are preferred, best first; `None` for an
/// unknown rover.
pub open spec fn rover_cameras_of(rover: Seq<char>) -> Option<Seq<&'static str>> {
    if rover == "spirit"@ || rover == "opportunity"@ {
        Some(seq!["NAVCAM", "PANCAM", "FHAZ", "RHAZ", "MINITES"])
    } else if rover == "curiosity"@ {
        Some(seq!["MAST", "FHAZ", "NAVCAM", "RHAZ", "MAHLI", "CHEMCAM"])
    } else if rover == "perseverance"@ {
        Some(
            seq![
                "MCZ_RIGHT",
                "MCZ_LEFT",
                "FRONT_HAZCAM_LEFT_A",
                "FRONT_HAZCAM_RIGHT_A",
                "NAVCAM_RIGHT",
                "NAVCAM_LEFT",
                "REAR_HAZCAM_LEFT",
                "REAR_HAZCAM_RIGHT",
            ],
        )
    } else {
        None
    }
}

/// The preferred cameras of a rover, as [`rover_cameras_of`] lists them.
pub fn rover_cameras(rover: &str) -> (r: Option<Vec<&'static str>>)
    ensures
        match r {
            Some(v) => rover_cameras_of(rover@) == Some(v@),
            None => rover_cameras_of(rover@) is None,
        },
{
    if str_eq(rover, "spirit") || str_eq(rover, "opportunity") {
        Some(vec!["NAVCAM", "PANCAM", "FHAZ", "RHAZ", "MINITES"])
    } else if str_eq(rover, "curiosity") {
        Some(vec!["MAST", "FHAZ", "NAVCAM", "RHAZ", "MAHLI", "CHEMCAM"])
    } else if str_eq(rover, "perseverance") {
        Some(
            vec![
                "MCZ_RIGHT",
                "MCZ_LEFT",
                "FRONT_HAZCAM_LEFT_A",
                "FRONT_HAZCAM_RIGHT_A",
                "NAVCAM_RIGHT",
                "NAVCAM_LEFT",
                "REAR_HAZCAM_LEFT",
                "REAR_HAZCAM_RIGHT",
            ],
        )
    } else {
        None
    }
}

/// Some picture was taken with camera `cam`.
pub open spec fn has_camera_picture(list: Seq<MarsRoverPicture>, cam: Seq<char>) -> bool {
    exists|i: int| 0 <= i < list.len() && (#[trigger] list[i]).camera.name@ == cam
}

/// The first of the preferred cameras that took some picture.
pub open spec fn first_camera_with_pictures(cams: Seq<&'static str>, list: Seq<MarsRoverPicture>) -> Option<int> {
    if exists|c: int| 0 <= c < cams.len() && has_camera_picture(list, (#[trigger] cams[c])@) {
        Some(
            choose|c: int|
                0 <= c < cams.len() && has_camera_picture(list, (#[trigger] cams[c])@) && forall|d: int|
                    0 <= d < c ==> !has_camera_picture(list, (#[trigger] cams[d])@),
        )
    } else {
        None
    }
}

/// The positions of the pictures taken with camera `cam`, in order.
pub open spec fn camera_positions(list: Seq<MarsRoverPicture>, cam: Seq<char>) -> Seq<int>
    decreases list.len(),
{
    if list.len() == 0 {
        Seq::<int>::empty()
    } else if list.last().camera.name@ == cam {
        camera_positions(list.drop_last(), cam).push(list.len() - 1)
    } else {
        camera_positions(list.drop_last(), cam)
    }
}

/// Every position [`camera_positions`] gives is of a picture of that camera, and
/// it gives none exactly when the camera took no picture.
proof fn lemma_camera_positions(list: Seq<MarsRoverPicture>, cam: Seq<char>)
    ensures
        forall|k: int| 0 <= k < camera_positions(list, cam).len() ==> 0 <= #[trigger] camera_positions(list, cam)[k] < list.len()
            && list[camera_positions(list, cam)[k]].camera.name@ == cam,
        camera_positions(list, cam).len() == 0 <==> !has_camera_picture(list, cam),
    decreases list.len(),
{
    if list.len() > 0 {
        let p = list.drop_last();
        lemma_camera_positions(p, cam);
        assert forall|k: int| 0 <= k < camera_positions(list, cam).len() implies 0 <= #[trigger] camera_positions(list, cam)[k] < list.len()
            && list[camera_positions(list, cam)[k]].camera.name@ == cam by {
            if k < camera_positions(p, cam).len() {
                assert(list[camera_positions(p, cam)[k]] == p[camera_positions(p, cam)[k]]);
            }
        }
        if has_camera_picture(list, cam) && list.last().camera.name@ != cam {
            let i = choose|i: int| 0 <= i < list.len() && (#[trigger] list[i]).camera.name@ == cam;
            assert(p[i] == list[i]);
            assert(has_camera_picture(p, cam));
        }
        if has_camera_picture(p, cam) {
            let i = choose|i: int| 0 <= i < p.len() && (#[trigger] p[i]).camera.name@ == cam;
            assert(list[i] == p[i]);
        }
        if list.last().camera.name@ == cam {
            assert(list[list.len() - 1].camera.name@ == cam);
        }
    }
}

/// The positions of the pictures taken with camera `cam`, as
/// [`camera_positions`] says: the candidates of a random pick.
pub fn pictures_with_camera(list: &Vec<MarsRoverPicture>, cam: &str) -> (r: Vec<usize>)
    ensures
        r@.map_values(|i: usize| i as int) == camera_positions(list@, cam@),
{
    let mut r: Vec<usize> = Vec::new();
    let mut i: usize = 0;
    while i < list.len()
        invariant
            i <= list@.len(),
            r@.map_values(|x: usize| x as int) == camera_positions(list@.take(i as int), cam@),
        decreases list@.len() - i,
    {
        let ghost before = r@;
        proof {
            let t = list@.take(i + 1);
            assert(t.drop_last() =~= list@.take(i as int));
            assert(t.last() == list@[i as int]);
        }
        if str_eq(list[i].camera.name.as_str(), cam) {
            r.push(i);
            assert(r@.map_values(|x: usize| x as int) =~= before.map_values(|x: usize| x as int).push(i as int));
        }
        i = i + 1;
    }
    assert(list@.take(list@.len() as int) =~= list@);
    r
}

/// The positions `0..n`, in order: the candidates of a random pick among `n`
/// entries.
pub fn positions_below(n: usize) -> (r: Vec<usize>)
    ensures
        r@.len() == n,
        forall|k: int| 0 <= k < n ==> #[trigger] r@[k] == k,
{
    let mut r: Vec<usize> = Vec::new();
    let mut i: usize = 0;
    while i < n
        invariant
            i <= n,
            r@.len() == i,
            forall|k: int| 0 <= k < i ==> #[trigger] r@[k] == k,
        decreases n - i,
    {
        r.push(i);
        i = i + 1;
    }
    r
}

/// Picks one of the given positions at random, with `rand`'s `SliceRandom::choose`
/// and the thread's random generator. `choose` gives `None` for an empty slice and
/// otherwise one of its elements; which one is left to chance and not stated.
#[verifier::external_body]
fn choose_position(positions: &Vec<usize>) -> (r: Option<usize>)
    ensures
        r is None <==> positions@.len() == 0,
        r is Some ==> positions@.contains(r->0),
{
    positions.as_slice().choose(&mut rand::thread_rng()).copied()
}

/// The picture to show among those a rover took: one taken at random with the
/// first preferred camera that took any, else the first picture, if there is one.
/// The rover must be known.
pub fn get_rover_camera_picture(rover: &str, list: &Vec<MarsRoverPicture>) -> (r: Option<usize>)
    requires
        rover_cameras_of(rover@) is Some,
    ensures
        match first_camera_with_pictures(rover_cameras_of(rover@)->0, list@) {
            Some(c) => r matches Some(i) && i < list@.len() && list@[i as int].camera.name@
                == rover_cameras_of(rover@)->0[c]@,
            None => r == (if list@.len() > 0 { Some(0usize) } else { None }),
        },
{
    let cams = match rover_cameras(rover) {
        Some(c) => c,
        None => {
            return None;
        },
    };
    let ghost cs = cams@;
    let mut c: usize = 0;
    while c < cams.len()
        invariant
            c <= cs.len(),
            cams@ == cs,
            cs == rover_cameras_of(rover@)->0,
            forall|d: int| 0 <= d < c ==> !has_camera_picture(list@, (#[trigger] cs[d])@),
        decreases cs.len() - c,
    {
        let cam = cams[c];
        let positions = pictures_with_camera(list, cam);
        proof {
            lemma_camera_positions(list@, cam@);
            assert forall|k: int| 0 <= k < positions@.len() implies (#[trigger] positions@[k]) < list@.len()
                && list@[positions@[k] as int].camera.name@ == cam@ by {
                assert(positions@.map_values(|x: usize| x as int)[k] == positions@[k] as int);
            }
        }
        match choose_position(&positions) {
            Some(p) => {
                proof {
                    let k = choose|k: int| 0 <= k < positions@.len() && positions@[k] == p;
                    assert(positions@[k] < list@.len());
                    assert(has_camera_picture(list@, cs[c as int]@));
                    let f = choose|f: int|
                        0 <= f < cs.len() && has_camera_picture(list@, (#[trigger] cs[f])@) && forall|d: int|
                            0 <= d < f ==> !has_camera_picture(list@, (#[trigger] cs[d])@);
                    assert(f == c);
                }
                return Some(p);
            },
            None => {
                proof {
                    assert(positions@.map_values(|x: usize| x as int).len() == 0);
                    assert(!has_camera_picture(list@, cam@));
                }
            },
        }
        c = c + 1;
    }
    if list.len() > 0 {
        Some(0)
    } else {
        None
    }
}

/// What the exoplanet command shows.
#[derive(Debug, Clone)]
pub enum ExoplanetChoice {
    /// The star asked for, which the archive lists.
    Star(String),
    /// The planet asked for, which the archive lists.
    Planet(String),
    /// A name was asked for that the archive does not list.
    NotFound,
    /// Nothing was asked for: the planet at this position of the cached list.
    Random(usize),
}

/// Some name of the list is `name`.
pub open spec fn listed(names: Seq<String>, name: Seq<char>) -> bool {
    exists|i: int| 0 <= i < names.len() && (#[trigger] names[i])@ == name
}

/// Whether some name of the list is `name`.
fn is_listed(names: &Vec<String>, name: &str) -> (r: bool)
    ensures
        r == listed(names@, name@),
{
    let mut i: usize = 0;
    while i < names.len()
        invariant
            i <= names@.len(),
            forall|j: int| 0 <= j < i ==> (#[trigger] names@[j])@ != name@,
        decreases names@.len() - i,
    {
        if str_eq(names[i].as_str(), name) {
            return true;
        }
        i = i + 1;
    }
    false
}

/// What the exoplanet command shows: a listed star asked for, else a listed planet
/// asked for; a name that is not listed is not found; with no name, a planet of
/// the list at random. `None` when a random planet is due and the list is empty.
pub fn exoplanet_choice(cache: &PictureDataCache, planet: Option<String>, star: Option<String>) -> (r: Option<
    ExoplanetChoice,
>)
    ensures
        star matches Some(s) && listed(cache.host_stars@, s@) ==> (r matches Some(ExoplanetChoice::Star(n)) && n@
            == star->0@),
        !(star matches Some(s) && listed(cache.host_stars@, s@)) && (planet matches Some(p) && listed(
            cache.exoplanets@,
            p@,
        )) ==> (r matches Some(ExoplanetChoice::Planet(n)) && n@ == planet->0@),
        !(star matches Some(s) && listed(cache.host_stars@, s@)) && !(planet matches Some(p) && listed(
            cache.exoplanets@,
            p@,
        )) && (planet is Some || star is Some) ==> r matches Some(ExoplanetChoice::NotFound),
        planet is None && star is None ==> match r {
            Some(ExoplanetChoice::Random(i)) => i < cache.exoplanets@.len(),
            None => cache.exoplanets@.len() == 0,
            _ => false,
        },
{
    let star_listed = match &star {
        Some(s) => is_listed(&cache.host_stars, s.as_str()),
        None => false,
    };
    if star_listed {
        return match star {
            Some(s) => Some(ExoplanetChoice::Star(s)),
            None => None,
        };
    }
    let planet_listed = match &planet {
        Some(p) => is_listed(&cache.exoplanets, p.as_str()),
        None => false,
    };
    if planet_listed {
        return match planet {
            Some(p) => Some(ExoplanetChoice::Planet(p)),
            None => None,
        };
    }
    if planet.is_some() || star.is_some() {
        return Some(ExoplanetChoice::NotFound);
    }
    let positions = positions_below(cache.exoplanets.len());
    match choose_position(&positions) {
        Some(p) => {
            proof {
                let k = choose|k: int| 0 <= k < positions@.len() && positions@[k] == p;
            }
            Some(ExoplanetChoice::Random(p))
        },
        None => None,
    }
}

} // verus!
