//! The launch agencies and launch vehicles users can filter on, and the filtering
//! of launch lists by them.

use vstd::prelude::*;
use crate::launches::LaunchData;
use crate::text::{ascii_lowercase, lowercase_mapping, str_eq, to_lowercase};

verus! {

/// The agency filters: a short key and the agency's full name as the Launch
/// Library spells it.
pub open spec fn agency_entries() -> Seq<(&'static str, &'static str)> {
    seq![
        ("blueorigin", "Blue Origin"),
        ("khsc", "Khrunichev State Research and Production Space Center"),
        ("spacex", "SpaceX"),
        ("virginorbit", "Virgin Orbit"),
        ("vector", "Vector"),
        ("isck", "ISC Kosmotras"),
        ("ils", "International Launch Services"),
        ("iai", "Israel Aerospace Industries"),
        ("nces", "National Center of Space Research"),
        ("kcst", "Korean Committee of Space Technology"),
        ("ula", "United Launch Alliance"),
        ("isro", "Indian Space Research Organization"),
        ("isa", "Israeli Space Agency"),
        ("jaxa", "Japan Aerospace Exploration Agency"),
        ("nasa", "National Aeronautics and Space Administration"),
        ("roscosmos", "Russian Federal Space Agency (ROSCOSMOS)"),
        ("mhi", "Mitsubishi Heavy Industries"),
        ("arianespace", "Arianespace"),
        ("eurockot", "Eurockot Launch Services"),
        ("rocketlab", "Rocket Lab Ltd"),
        ("relativity", "Relativity Space"),
        ("ngis", "Northrop Grumman Innovation Systems"),
        ("casc", "China Aerospace Science and Technology Corporation"),
        ("casic", "China Aerospace Science and Industry Corporation"),
        ("cnsa", "China National Space Administration"),
        ("galactic-energy", "Galactic Energy"),
        ("landspace", "LandSpace"),
        ("astra", "Astra Space"),
        ("firefly", "Firefly Aerospace"),
        ("abl", "ABL Space Systems"),
        ("expace", "ExPace"),
        ("rsf", "Russian Space Forces")
    ]
}

/// The vehicle filters: a short key and the names of the rocket configurations it
/// stands for.
pub open spec fn vehicle_entries() -> Seq<(&'static str, Seq<&'static str>)> {
    seq![
        ("electron", seq!["Electron"]),
        ("falcon", seq!["Falcon Heavy", "Falcon 9 Full Thrust", "Falcon 9 v1.1", "Falcon 9 Block 5"]),
        ("angara", seq!["Angara-1.2pp", "Angara A5/Briz-M", "Angara 1.2"]),
        ("astra", seq!["Astra Rocket 3"]),
        ("falconheavy", seq!["Falcon Heavy"]),
        ("soyuz", seq!["Soyuz 2.1B", "Soyuz-FG", "Soyuz 2.1A", "Soyuz STB/Fregat", "Soyuz 2-1v/Volga", "Soyuz 2.1B/Fregat", "Soyuz 2.1A/Volga", "Soyuz STA/Fregat", "Soyuz 2.1A/Fregat", "Soyuz STB/Fregat-MT", "Soyuz-FG/Fregat", "Soyuz-U2", "Soyuz 2.1B/Fregat-M"]),
        ("atlas5", seq!["Atlas V 551", "Atlas V 541", "Atlas V 531", "Atlas V 521", "Atlas V 511", "Atlas V 501", "Atlas V 401", "Atlas V 411", "Atlas V 421", "Atlas V 431"]),
        ("delta4", seq!["Delta IV Heavy", "Delta IV", "Delta IV M+(4,2)", "Delta IV M+(5,2)", "Delta IV M+(5,4)"]),
        ("delta2", seq!["Delta II 7320", "Delta II 7920H", "Delta II 7920-10", "Delta II 7420-10", "Delta II 7920-10C", "Delta II 7925-10C", "Delta II 7925", "Delta II 7925H-9.5", "Delta II 7925-9.5", "Delta II 7920H-10C", "Delta II 7420", "Delta II 7925-10L"]),
        ("minotaur", seq!["Minotaur I", "Minotaur V"]),
        ("pegasus", seq!["Pegasus XL"]),
        ("ariane5", seq!["Ariane 5 ES", "Ariane 5 ECA"]),
        ("h-iib", seq!["H-IIB"]),
        ("zenit", seq!["Zenit 3SL", "Zenit 3F", "Zenit 3SLB"]),
        ("pslv", seq!["PSLV", "PSLV XL", "PSLV-CA"]),
        ("rokot", seq!["Rokot", "Rokot / Briz-KM"]),
        ("gslv", seq!["GSLV"]),
        ("vega", seq!["VEGA"]),
        ("antares", seq!["Antares 110", "Antares 120", "Antares 130", "Antares 230"]),
        ("epsilon", seq!["Epsilon"]),
        ("proton", seq!["Proton-M/Briz-M"]),
        ("long-march2", seq!["Long March 2C", "Long March 2D", "Long March 2F", "Long March 2F/G", "Long March 2C/YZ-1S"]),
        ("long-march3", seq!["Long March 3B/E"]),
        ("long-march4", seq!["Long March 4B", "Long March 4C"]),
        ("long-march5", seq!["Long March 5", "Long March 5B"]),
        ("long-march6", seq!["Long March 6", "Long March 6A"]),
        ("long-march7", seq!["Long March 7", "Long March 7A"]),
        ("long-march8", seq!["Long March 8"]),
        ("long-march11", seq!["Long March 11"]),
        ("firefly", seq!["Firefly Alpha"]),
        ("starship", seq!["Starship"]),
        ("vulcan", seq!["Vulcan", "Vulcan VC6L", "Vulcan VC4L", "Vulcan VC2S"])
    ]
}

/// No two entries of `s` hold the same key.
pub open spec fn keys_distinct<T>(s: Seq<(&'static str, T)>) -> bool {
    forall|i: int, j: int| 0 <= i < j < s.len() ==> s[i].0@ != s[j].0@
}

/// The position of an agency key in the agency table, or -1.
spec fn agency_position(k: Seq<char>) -> int {
    if k == "blueorigin"@ {
        0
    } else if k == "khsc"@ {
        1
    } else if k == "spacex"@ {
        2
    } else if k == "virginorbit"@ {
        3
    } else if k == "vector"@ {
        4
    } else if k == "isck"@ {
        5
    } else if k == "ils"@ {
        6
    } else if k == "iai"@ {
        7
    } else if k == "nces"@ {
        8
    } else if k == "kcst"@ {
        9
    } else if k == "ula"@ {
        10
    } else if k == "isro"@ {
        11
    } else if k == "isa"@ {
        12
    } else if k == "jaxa"@ {
        13
    } else if k == "nasa"@ {
        14
    } else if k == "roscosmos"@ {
        15
    } else if k == "mhi"@ {
        16
    } else if k == "arianespace"@ {
        17
    } else if k == "eurockot"@ {
        18
    } else if k == "rocketlab"@ {
        19
    } else if k == "relativity"@ {
        20
    } else if k == "ngis"@ {
        21
    } else if k == "casc"@ {
        22
    } else if k == "casic"@ {
        23
    } else if k == "cnsa"@ {
        24
    } else if k == "galactic-energy"@ {
        25
    } else if k == "landspace"@ {
        26
    } else if k == "astra"@ {
        27
    } else if k == "firefly"@ {
        28
    } else if k == "abl"@ {
        29
    } else if k == "expace"@ {
        30
    } else if k == "rsf"@ {
        31
    } else {
        -1
    }
}

/// The keys of the agency table are pairwise distinct.
pub proof fn lemma_agency_keys_distinct()
    ensures
        keys_distinct(agency_entries()),
{
    reveal_strlit("abl");
    assert("abl"@ =~= seq!['a', 'b', 'l']);
    reveal_strlit("arianespace");
    assert("arianespace"@ =~= seq!['a', 'r', 'i', 'a', 'n', 'e', 's', 'p', 'a', 'c', 'e']);
    reveal_strlit("astra");
    assert("astra"@ =~= seq!['a', 's', 't', 'r', 'a']);
    reveal_strlit("blueorigin");
    assert("blueorigin"@ =~= seq!['b', 'l', 'u', 'e', 'o', 'r', 'i', 'g', 'i', 'n']);
    reveal_strlit("casc");
    assert("casc"@ =~= seq!['c', 'a', 's', 'c']);
    reveal_strlit("casic");
    assert("casic"@ =~= seq!['c', 'a', 's', 'i', 'c']);
    reveal_strlit("cnsa");
    assert("cnsa"@ =~= seq!['c', 'n', 's', 'a']);
    reveal_strlit("eurockot");
    assert("eurockot"@ =~= seq!['e', 'u', 'r', 'o', 'c', 'k', 'o', 't']);
    reveal_strlit("expace");
    assert("expace"@ =~= seq!['e', 'x', 'p', 'a', 'c', 'e']);
    reveal_strlit("firefly");
    assert("firefly"@ =~= seq!['f', 'i', 'r', 'e', 'f', 'l', 'y']);
    reveal_strlit("galactic-energy");
    assert("galactic-energy"@ =~= seq!['g', 'a', 'l', 'a', 'c', 't', 'i', 'c', '-', 'e', 'n', 'e', 'r', 'g', 'y']);
    reveal_strlit("iai");
    assert("iai"@ =~= seq!['i', 'a', 'i']);
    reveal_strlit("ils");
    assert("ils"@ =~= seq!['i', 'l', 's']);
    reveal_strlit("isa");
    assert("isa"@ =~= seq!['i', 's', 'a']);
    reveal_strlit("isck");
    assert("isck"@ =~= seq!['i', 's', 'c', 'k']);
    reveal_strlit("isro");
    assert("isro"@ =~= seq!['i', 's', 'r', 'o']);
    reveal_strlit("jaxa");
    assert("jaxa"@ =~= seq!['j', 'a', 'x', 'a']);
    reveal_strlit("kcst");
    assert("kcst"@ =~= seq!['k', 'c', 's', 't']);
    reveal_strlit("khsc");
    assert("khsc"@ =~= seq!['k', 'h', 's', 'c']);
    reveal_strlit("landspace");
    assert("landspace"@ =~= seq!['l', 'a', 'n', 'd', 's', 'p', 'a', 'c', 'e']);
    reveal_strlit("mhi");
    assert("mhi"@ =~= seq!['m', 'h', 'i']);
    reveal_strlit("nasa");
    assert("nasa"@ =~= seq!['n', 'a', 's', 'a']);
    reveal_strlit("nces");
    assert("nces"@ =~= seq!['n', 'c', 'e', 's']);
    reveal_strlit("ngis");
    assert("ngis"@ =~= seq!['n', 'g', 'i', 's']);
    reveal_strlit("relativity");
    assert("relativity"@ =~= seq!['r', 'e', 'l', 'a', 't', 'i', 'v', 'i', 't', 'y']);
    reveal_strlit("rocketlab");
    assert("rocketlab"@ =~= seq!['r', 'o', 'c', 'k', 'e', 't', 'l', 'a', 'b']);
    reveal_strlit("roscosmos");
    assert("roscosmos"@ =~= seq!['r', 'o', 's', 'c', 'o', 's', 'm', 'o', 's']);
    reveal_strlit("rsf");
    assert("rsf"@ =~= seq!['r', 's', 'f']);
    reveal_strlit("spacex");
    assert("spacex"@ =~= seq!['s', 'p', 'a', 'c', 'e', 'x']);
    reveal_strlit("ula");
    assert("ula"@ =~= seq!['u', 'l', 'a']);
    reveal_strlit("vector");
    assert("vector"@ =~= seq!['v', 'e', 'c', 't', 'o', 'r']);
    reveal_strlit("virginorbit");
    assert("virginorbit"@ =~= seq!['v', 'i', 'r', 'g', 'i', 'n', 'o', 'r', 'b', 'i', 't']);
    let e = agency_entries();
    assert forall|i: int| 0 <= i < e.len() implies #[trigger] agency_position(e[i].0@) == i by {
        if i == 0 {
            assert(e[0].0@ == "blueorigin"@);
        } else if i == 1 {
            assert(e[1].0@ == "khsc"@);
        } else if i == 2 {
            assert(e[2].0@ == "spacex"@);
        } else if i == 3 {
            assert(e[3].0@ == "virginorbit"@);
        } else if i == 4 {
            assert(e[4].0@ == "vector"@);
        } else if i == 5 {
            assert(e[5].0@ == "isck"@);
        } else if i == 6 {
            assert(e[6].0@ == "ils"@);
        } else if i == 7 {
            assert(e[7].0@ == "iai"@);
        } else if i == 8 {
            assert(e[8].0@ == "nces"@);
        } else if i == 9 {
            assert(e[9].0@ == "kcst"@);
        } else if i == 10 {
            assert(e[10].0@ == "ula"@);
        } else if i == 11 {
            assert(e[11].0@ == "isro"@);
        } else if i == 12 {
            assert(e[12].0@ == "isa"@);
        } else if i == 13 {
            assert(e[13].0@ == "jaxa"@);
        } else if i == 14 {
            assert(e[14].0@ == "nasa"@);
        } else if i == 15 {
            assert(e[15].0@ == "roscosmos"@);
        } else if i == 16 {
            assert(e[16].0@ == "mhi"@);
        } else if i == 17 {
            assert(e[17].0@ == "arianespace"@);
        } else if i == 18 {
            assert(e[18].0@ == "eurockot"@);
        } else if i == 19 {
            assert(e[19].0@ == "rocketlab"@);
        } else if i == 20 {
            assert(e[20].0@ == "relativity"@);
        } else if i == 21 {
            assert(e[21].0@ == "ngis"@);
        } else if i == 22 {
            assert(e[22].0@ == "casc"@);
        } else if i == 23 {
            assert(e[23].0@ == "casic"@);
        } else if i == 24 {
            assert(e[24].0@ == "cnsa"@);
        } else if i == 25 {
            assert(e[25].0@ == "galactic-energy"@);
        } else if i == 26 {
            assert(e[26].0@ == "landspace"@);
        } else if i == 27 {
            assert(e[27].0@ == "astra"@);
        } else if i == 28 {
            assert(e[28].0@ == "firefly"@);
        } else if i == 29 {
            assert(e[29].0@ == "abl"@);
        } else if i == 30 {
            assert(e[30].0@ == "expace"@);
        } else if i == 31 {
            assert(e[31].0@ == "rsf"@);
        }
    }
    assert forall|i: int, j: int| 0 <= i < j < e.len() implies e[i].0@ != e[j].0@ by {
        assert(agency_position(e[i].0@) == i);
        assert(agency_position(e[j].0@) == j);
    }
}

/// The position of a vehicle key in the vehicle table, or -1.
spec fn vehicle_position(k: Seq<char>) -> int {
    if k == "electron"@ {
        0
    } else if k == "falcon"@ {
        1
    } else if k == "angara"@ {
        2
    } else if k == "astra"@ {
        3
    } else if k == "falconheavy"@ {
        4
    } else if k == "soyuz"@ {
        5
    } else if k == "atlas5"@ {
        6
    } else if k == "delta4"@ {
        7
    } else if k == "delta2"@ {
        8
    } else if k == "minotaur"@ {
        9
    } else if k == "pegasus"@ {
        10
    } else if k == "ariane5"@ {
        11
    } else if k == "h-iib"@ {
        12
    } else if k == "zenit"@ {
        13
    } else if k == "pslv"@ {
        14
    } else if k == "rokot"@ {
        15
    } else if k == "gslv"@ {
        16
    } else if k == "vega"@ {
        17
    } else if k == "antares"@ {
        18
    } else if k == "epsilon"@ {
        19
    } else if k == "proton"@ {
        20
    } else if k == "long-march2"@ {
        21
    } else if k == "long-march3"@ {
        22
    } else if k == "long-march4"@ {
        23
    } else if k == "long-march5"@ {
        24
    } else if k == "long-march6"@ {
        25
    } else if k == "long-march7"@ {
        26
    } else if k == "long-march8"@ {
        27
    } else if k == "long-march11"@ {
        28
    } else if k == "firefly"@ {
        29
    } else if k == "starship"@ {
        30
    } else if k == "vulcan"@ {
        31
    } else {
        -1
    }
}

/// The keys of the vehicle table are pairwise distinct.
pub proof fn lemma_vehicle_keys_distinct()
    ensures
        keys_distinct(vehicle_entries()),
{
    reveal_strlit("angara");
    assert("angara"@ =~= seq!['a', 'n', 'g', 'a', 'r', 'a']);
    reveal_strlit("antares");
    assert("antares"@ =~= seq!['a', 'n', 't', 'a', 'r', 'e', 's']);
    reveal_strlit("ariane5");
    assert("ariane5"@ =~= seq!['a', 'r', 'i', 'a', 'n', 'e', '5']);
    reveal_strlit("astra");
    assert("astra"@ =~= seq!['a', 's', 't', 'r', 'a']);
    reveal_strlit("atlas5");
    assert("atlas5"@ =~= seq!['a', 't', 'l', 'a', 's', '5']);
    reveal_strlit("delta2");
    assert("delta2"@ =~= seq!['d', 'e', 'l', 't', 'a', '2']);
    reveal_strlit("delta4");
    assert("delta4"@ =~= seq!['d', 'e', 'l', 't', 'a', '4']);
    reveal_strlit("electron");
    assert("electron"@ =~= seq!['e', 'l', 'e', 'c', 't', 'r', 'o', 'n']);
    reveal_strlit("epsilon");
    assert("epsilon"@ =~= seq!['e', 'p', 's', 'i', 'l', 'o', 'n']);
    reveal_strlit("falcon");
    assert("falcon"@ =~= seq!['f', 'a', 'l', 'c', 'o', 'n']);
    reveal_strlit("falconheavy");
    assert("falconheavy"@ =~= seq!['f', 'a', 'l', 'c', 'o', 'n', 'h', 'e', 'a', 'v', 'y']);
    reveal_strlit("firefly");
    assert("firefly"@ =~= seq!['f', 'i', 'r', 'e', 'f', 'l', 'y']);
    reveal_strlit("gslv");
    assert("gslv"@ =~= seq!['g', 's', 'l', 'v']);
    reveal_strlit("h-iib");
    assert("h-iib"@ =~= seq!['h', '-', 'i', 'i', 'b']);
    reveal_strlit("long-march11");
    assert("long-march11"@ =~= seq!['l', 'o', 'n', 'g', '-', 'm', 'a', 'r', 'c', 'h', '1', '1']);
    reveal_strlit("long-march2");
    assert("long-march2"@ =~= seq!['l', 'o', 'n', 'g', '-', 'm', 'a', 'r', 'c', 'h', '2']);
    reveal_strlit("long-march3");
    assert("long-march3"@ =~= seq!['l', 'o', 'n', 'g', '-', 'm', 'a', 'r', 'c', 'h', '3']);
    reveal_strlit("long-march4");
    assert("long-march4"@ =~= seq!['l', 'o', 'n', 'g', '-', 'm', 'a', 'r', 'c', 'h', '4']);
    reveal_strlit("long-march5");
    assert("long-march5"@ =~= seq!['l', 'o', 'n', 'g', '-', 'm', 'a', 'r', 'c', 'h', '5']);
    reveal_strlit("long-march6");
    assert("long-march6"@ =~= seq!['l', 'o', 'n', 'g', '-', 'm', 'a', 'r', 'c', 'h', '6']);
    reveal_strlit("long-march7");
    assert("long-march7"@ =~= seq!['l', 'o', 'n', 'g', '-', 'm', 'a', 'r', 'c', 'h', '7']);
    reveal_strlit("long-march8");
    assert("long-march8"@ =~= seq!['l', 'o', 'n', 'g', '-', 'm', 'a', 'r', 'c', 'h', '8']);
    reveal_strlit("minotaur");
    assert("minotaur"@ =~= seq!['m', 'i', 'n', 'o', 't', 'a', 'u', 'r']);
    reveal_strlit("pegasus");
    assert("pegasus"@ =~= seq!['p', 'e', 'g', 'a', 's', 'u', 's']);
    reveal_strlit("proton");
    assert("proton"@ =~= seq!['p', 'r', 'o', 't', 'o', 'n']);
    reveal_strlit("pslv");
    assert("pslv"@ =~= seq!['p', 's', 'l', 'v']);
    reveal_strlit("rokot");
    assert("rokot"@ =~= seq!['r', 'o', 'k', 'o', 't']);
    reveal_strlit("soyuz");
    assert("soyuz"@ =~= seq!['s', 'o', 'y', 'u', 'z']);
    reveal_strlit("starship");
    assert("starship"@ =~= seq!['s', 't', 'a', 'r', 's', 'h', 'i', 'p']);
    reveal_strlit("vega");
    assert("vega"@ =~= seq!['v', 'e', 'g', 'a']);
    reveal_strlit("vulcan");
    assert("vulcan"@ =~= seq!['v', 'u', 'l', 'c', 'a', 'n']);
    reveal_strlit("zenit");
    assert("zenit"@ =~= seq!['z', 'e', 'n', 'i', 't']);
    let e = vehicle_entries();
    assert forall|i: int| 0 <= i < e.len() implies #[trigger] vehicle_position(e[i].0@) == i by {
        if i == 0 {
            assert(e[0].0@ == "electron"@);
        } else if i == 1 {
            assert(e[1].0@ == "falcon"@);
        } else if i == 2 {
            assert(e[2].0@ == "angara"@);
        } else if i == 3 {
            assert(e[3].0@ == "astra"@);
        } else if i == 4 {
            assert(e[4].0@ == "falconheavy"@);
        } else if i == 5 {
            assert(e[5].0@ == "soyuz"@);
        } else if i == 6 {
            assert(e[6].0@ == "atlas5"@);
        } else if i == 7 {
            assert(e[7].0@ == "delta4"@);
        } else if i == 8 {
            assert(e[8].0@ == "delta2"@);
        } else if i == 9 {
            assert(e[9].0@ == "minotaur"@);
        } else if i == 10 {
            assert(e[10].0@ == "pegasus"@);
        } else if i == 11 {
            assert(e[11].0@ == "ariane5"@);
        } else if i == 12 {
            assert(e[12].0@ == "h-iib"@);
        } else if i == 13 {
            assert(e[13].0@ == "zenit"@);
        } else if i == 14 {
            assert(e[14].0@ == "pslv"@);
        } else if i == 15 {
            assert(e[15].0@ == "rokot"@);
        } else if i == 16 {
            assert(e[16].0@ == "gslv"@);
        } else if i == 17 {
            assert(e[17].0@ == "vega"@);
        } else if i == 18 {
            assert(e[18].0@ == "antares"@);
        } else if i == 19 {
            assert(e[19].0@ == "epsilon"@);
        } else if i == 20 {
            assert(e[20].0@ == "proton"@);
        } else if i == 21 {
            assert(e[21].0@ == "long-march2"@);
        } else if i == 22 {
            assert(e[22].0@ == "long-march3"@);
        } else if i == 23 {
            assert(e[23].0@ == "long-march4"@);
        } else if i == 24 {
            assert(e[24].0@ == "long-march5"@);
        } else if i == 25 {
            assert(e[25].0@ == "long-march6"@);
        } else if i == 26 {
            assert(e[26].0@ == "long-march7"@);
        } else if i == 27 {
            assert(e[27].0@ == "long-march8"@);
        } else if i == 28 {
            assert(e[28].0@ == "long-march11"@);
        } else if i == 29 {
            assert(e[29].0@ == "firefly"@);
        } else if i == 30 {
            assert(e[30].0@ == "starship"@);
        } else if i == 31 {
            assert(e[31].0@ == "vulcan"@);
        }
    }
    assert forall|i: int, j: int| 0 <= i < j < e.len() implies e[i].0@ != e[j].0@ by {
        assert(vehicle_position(e[i].0@) == i);
        assert(vehicle_position(e[j].0@) == j);
    }
}

/// The agency table.
pub fn agency_map() -> (r: Vec<(&'static str, &'static str)>)
    ensures
        r@ == agency_entries(),
{
    let r = vec![
        ("blueorigin", "Blue Origin"),
        ("khsc", "Khrunichev State Research and Production Space Center"),
        ("spacex", "SpaceX"),
        ("virginorbit", "Virgin Orbit"),
        ("vector", "Vector"),
        ("isck", "ISC Kosmotras"),
        ("ils", "International Launch Services"),
        ("iai", "Israel Aerospace Industries"),
        ("nces", "National Center of Space Research"),
        ("kcst", "Korean Committee of Space Technology"),
        ("ula", "United Launch Alliance"),
        ("isro", "Indian Space Research Organization"),
        ("isa", "Israeli Space Agency"),
        ("jaxa", "Japan Aerospace Exploration Agency"),
        ("nasa", "National Aeronautics and Space Administration"),
        ("roscosmos", "Russian Federal Space Agency (ROSCOSMOS)"),
        ("mhi", "Mitsubishi Heavy Industries"),
        ("arianespace", "Arianespace"),
        ("eurockot", "Eurockot Launch Services"),
        ("rocketlab", "Rocket Lab Ltd"),
        ("relativity", "Relativity Space"),
        ("ngis", "Northrop Grumman Innovation Systems"),
        ("casc", "China Aerospace Science and Technology Corporation"),
        ("casic", "China Aerospace Science and Industry Corporation"),
        ("cnsa", "China National Space Administration"),
        ("galactic-energy", "Galactic Energy"),
        ("landspace", "LandSpace"),
        ("astra", "Astra Space"),
        ("firefly", "Firefly Aerospace"),
        ("abl", "ABL Space Systems"),
        ("expace", "ExPace"),
        ("rsf", "Russian Space Forces")
    ];
    assert(r@ =~= agency_entries());
    r
}

/// The vehicle table.
pub fn vehicle_map() -> (r: Vec<(&'static str, Vec<&'static str>)>)
    ensures
        r@.len() == vehicle_entries().len(),
        forall|i: int| 0 <= i < r@.len() ==> (#[trigger] r@[i]).0 == vehicle_entries()[i].0 && r@[i].1@ == vehicle_entries()[i].1,
{
    let mut r: Vec<(&'static str, Vec<&'static str>)> = Vec::new();
    r.push(("electron", vec!["Electron"]));
    r.push(("falcon", vec!["Falcon Heavy", "Falcon 9 Full Thrust", "Falcon 9 v1.1", "Falcon 9 Block 5"]));
    r.push(("angara", vec!["Angara-1.2pp", "Angara A5/Briz-M", "Angara 1.2"]));
    r.push(("astra", vec!["Astra Rocket 3"]));
    r.push(("falconheavy", vec!["Falcon Heavy"]));
    r.push(("soyuz", vec!["Soyuz 2.1B", "Soyuz-FG", "Soyuz 2.1A", "Soyuz STB/Fregat", "Soyuz 2-1v/Volga", "Soyuz 2.1B/Fregat", "Soyuz 2.1A/Volga", "Soyuz STA/Fregat", "Soyuz 2.1A/Fregat", "Soyuz STB/Fregat-MT", "Soyuz-FG/Fregat", "Soyuz-U2", "Soyuz 2.1B/Fregat-M"]));
    r.push(("atlas5", vec!["Atlas V 551", "Atlas V 541", "Atlas V 531", "Atlas V 521", "Atlas V 511", "Atlas V 501", "Atlas V 401", "Atlas V 411", "Atlas V 421", "Atlas V 431"]));
    r.push(("delta4", vec!["Delta IV Heavy", "Delta IV", "Delta IV M+(4,2)", "Delta IV M+(5,2)", "Delta IV M+(5,4)"]));
    r.push(("delta2", vec!["Delta II 7320", "Delta II 7920H", "Delta II 7920-10", "Delta II 7420-10", "Delta II 7920-10C", "Delta II 7925-10C", "Delta II 7925", "Delta II 7925H-9.5", "Delta II 7925-9.5", "Delta II 7920H-10C", "Delta II 7420", "Delta II 7925-10L"]));
    r.push(("minotaur", vec!["Minotaur I", "Minotaur V"]));
    r.push(("pegasus", vec!["Pegasus XL"]));
    r.push(("ariane5", vec!["Ariane 5 ES", "Ariane 5 ECA"]));
    r.push(("h-iib", vec!["H-IIB"]));
    r.push(("zenit", vec!["Zenit 3SL", "Zenit 3F", "Zenit 3SLB"]));
    r.push(("pslv", vec!["PSLV", "PSLV XL", "PSLV-CA"]));
    r.push(("rokot", vec!["Rokot", "Rokot / Briz-KM"]));
    r.push(("gslv", vec!["GSLV"]));
    r.push(("vega", vec!["VEGA"]));
    r.push(("antares", vec!["Antares 110", "Antares 120", "Antares 130", "Antares 230"]));
    r.push(("epsilon", vec!["Epsilon"]));
    r.push(("proton", vec!["Proton-M/Briz-M"]));
    r.push(("long-march2", vec!["Long March 2C", "Long March 2D", "Long March 2F", "Long March 2F/G", "Long March 2C/YZ-1S"]));
    r.push(("long-march3", vec!["Long March 3B/E"]));
    r.push(("long-march4", vec!["Long March 4B", "Long March 4C"]));
    r.push(("long-march5", vec!["Long March 5", "Long March 5B"]));
    r.push(("long-march6", vec!["Long March 6", "Long March 6A"]));
    r.push(("long-march7", vec!["Long March 7", "Long March 7A"]));
    r.push(("long-march8", vec!["Long March 8"]));
    r.push(("long-march11", vec!["Long March 11"]));
    r.push(("firefly", vec!["Firefly Alpha"]));
    r.push(("starship", vec!["Starship"]));
    r.push(("vulcan", vec!["Vulcan", "Vulcan VC6L", "Vulcan VC4L", "Vulcan VC2S"]));
    r
}

/// The value of the first entry of `t` whose key reads `key`.
pub open spec fn agency_lookup_in(t: Seq<(&'static str, &'static str)>, key: Seq<char>) -> Option<&'static str>
    decreases t.len(),
{
    if t.len() == 0 {
        None
    } else if t[0].0@ == key {
        Some(t[0].1)
    } else {
        agency_lookup_in(t.drop_first(), key)
    }
}

/// The full name of the agency with filter key `key`.
pub open spec fn agency_of(key: Seq<char>) -> Option<&'static str> {
    agency_lookup_in(agency_entries(), key)
}

/// The names of the first entry of `t` whose key reads `key`.
pub open spec fn vehicle_lookup_in(t: Seq<(&'static str, Seq<&'static str>)>, key: Seq<char>) -> Option<Seq<&'static str>>
    decreases t.len(),
{
    if t.len() == 0 {
        None
    } else if t[0].0@ == key {
        Some(t[0].1)
    } else {
        vehicle_lookup_in(t.drop_first(), key)
    }
}

/// The rocket configurations of the vehicle with filter key `key`.
pub open spec fn vehicles_of(key: Seq<char>) -> Option<Seq<&'static str>> {
    vehicle_lookup_in(vehicle_entries(), key)
}

/// Looks up the full name of an agency by its filter key.
pub fn agency_name(key: &str) -> (r: Option<&'static str>)
    ensures
        r == agency_of(key@),
{
    let table = agency_map();
    let mut i: usize = 0;
    assert(table@.skip(0) =~= table@);
    while i < table.len()
        invariant
            table@ == agency_entries(),
            i <= table@.len(),
            agency_lookup_in(table@.skip(i as int), key@) == agency_of(key@),
        decreases table@.len() - i,
    {
        let (k, v) = table[i];
        assert(table@.skip(i as int).drop_first() =~= table@.skip(i + 1));
        if str_eq(k, key) {
            return Some(v);
        }
        i = i + 1;
    }
    None
}

/// Whether `key` is a known agency filter key.
pub fn is_agency_key(key: &str) -> (r: bool)
    ensures
        r == (agency_of(key@) is Some),
{
    agency_name(key).is_some()
}

/// Looks up the rocket configurations of a vehicle by its filter key.
pub fn vehicle_names(key: &str) -> (r: Option<Vec<&'static str>>)
    ensures
        match r {
            Some(v) => vehicles_of(key@) == Some(v@),
            None => vehicles_of(key@) is None,
        },
{
    let mut table = vehicle_map();
    let ghost t = table@;
    assert(t.map_values(|e: (&'static str, Vec<&'static str>)| (e.0, e.1@)) =~= vehicle_entries());
    assert(vehicle_entries().skip(0) =~= vehicle_entries());
    let mut i: usize = 0;
    while i < table.len()
        invariant
            table@ == t,
            t.map_values(|e: (&'static str, Vec<&'static str>)| (e.0, e.1@)) == vehicle_entries(),
            i <= t.len(),
            vehicle_lookup_in(vehicle_entries().skip(i as int), key@) == vehicles_of(key@),
        decreases t.len() - i,
    {
        let k = table[i].0;
        assert(vehicle_entries().skip(i as int).drop_first() =~= vehicle_entries().skip(i + 1));
        assert(vehicle_entries()[i as int] == (t[i as int].0, t[i as int].1@));
        if str_eq(k, key) {
            let entry = table.remove(i);
            return Some(entry.1);
        }
        i = i + 1;
    }
    None
}

/// Why a launch list could not be filtered.
#[derive(Debug, Clone, Copy, PartialEq, Eq, Structural)]
pub enum FilterErrorType {
    /// The vehicle filter left no launches.
    Vehicle,
    /// The agency filter left no launches.
    Lsp,
    /// The filter key is not known.
    Invalid,
}

/// How an error names what was filtered on.
pub open spec fn filter_error_label(e: FilterErrorType) -> Seq<char> {
    match e {
        FilterErrorType::Vehicle => "launch vehicle"@,
        FilterErrorType::Lsp => "launch provider"@,
        FilterErrorType::Invalid => "invalid"@,
    }
}

impl FilterErrorType {
    /// What was filtered on, e.g. "launch provider".
    pub fn label(&self) -> (r: &'static str)
        ensures
            r@ == filter_error_label(*self),
    {
        match self {
            FilterErrorType::Vehicle => "launch vehicle",
            FilterErrorType::Lsp => "launch provider",
            FilterErrorType::Invalid => "invalid",
        }
    }
}

/// The launches operated by the agency named `name`.
pub open spec fn launches_by_agency(ls: Seq<LaunchData>, name: Seq<char>) -> Seq<LaunchData> {
    ls.filter(|l: LaunchData| l.lsp@ == name)
}

/// One of `names` reads `v`.
pub open spec fn names_contain(names: Seq<&'static str>, v: Seq<char>) -> bool {
    exists|i: int| 0 <= i < names.len() && (#[trigger] names[i])@ == v
}

/// The launches flown on one of the configurations `names`.
pub open spec fn launches_by_vehicle(ls: Seq<LaunchData>, names: Seq<&'static str>) -> Seq<LaunchData> {
    ls.filter(|l: LaunchData| names_contain(names, l.vehicle@))
}

/// The launches kept for an agency key (already lower-cased) or, without one, a
/// vehicle key: an unknown key is `Invalid`, a known key that keeps nothing is
/// `Lsp` or `Vehicle`; without either key the list is kept whole.
pub open spec fn launches_for_key(
    ls: Seq<LaunchData>,
    key: Option<Seq<char>>,
    rocket: Option<Seq<char>>,
) -> Result<Seq<LaunchData>, FilterErrorType> {
    match key {
        Some(k) => match agency_of(k) {
            Some(name) => {
                let f = launches_by_agency(ls, name@);
                if f.len() == 0 { Err(FilterErrorType::Lsp) } else { Ok(f) }
            },
            None => Err(FilterErrorType::Invalid),
        },
        None => match rocket {
            Some(rk) => match vehicles_of(rk) {
                Some(names) => {
                    let f = launches_by_vehicle(ls, names);
                    if f.len() == 0 { Err(FilterErrorType::Vehicle) } else { Ok(f) }
                },
                None => Err(FilterErrorType::Invalid),
            },
            None => Ok(ls),
        },
    }
}

/// The launches kept for an agency given in any case (it is lower-cased first) or,
/// without one, a vehicle key, as [`launches_for_key`] says.
pub open spec fn filtered_launches(
    ls: Seq<LaunchData>,
    lsp: Option<Seq<char>>,
    rocket: Option<Seq<char>>,
) -> Result<Seq<LaunchData>, FilterErrorType> {
    launches_for_key(
        ls,
        match lsp {
            Some(l) => Some(lowercase_mapping(l)),
            None => None,
        },
        rocket,
    )
}

/// Keeps the launches of the agency named `name`.
fn keep_agency(v: Vec<LaunchData>, name: &str) -> (r: Vec<LaunchData>)
    ensures
        r@ == launches_by_agency(v@, name@),
{
    let ghost orig = v@;
    let ghost pred = |l: LaunchData| l.lsp@ == name@;
    let mut input = v;
    let mut out: Vec<LaunchData> = Vec::new();
    let ghost mut c: int = 0;
    assert(orig.skip(0) =~= orig);
    assert(orig.take(0) =~= Seq::<LaunchData>::empty());
    while input.len() > 0
        invariant
            0 <= c <= orig.len(),
            input@ == orig.skip(c),
            out@ == orig.take(c).filter(pred),
            pred == (|l: LaunchData| l.lsp@ == name@),
        decreases input@.len(),
    {
        let x = input.remove(0);
        proof {
            assert(x == orig[c]);
            assert(input@ =~= orig.skip(c + 1));
            assert(orig.take(c + 1) =~= orig.take(c).push(x));
            orig.take(c).lemma_filter_push(x, pred);
        }
        if str_eq(x.lsp.as_str(), name) {
            out.push(x);
        }
        proof {
            c = c + 1;
        }
    }
    assert(orig.take(c) =~= orig);
    out
}

/// Whether one of `names` reads `v`.
fn names_contain_str(names: &Vec<&'static str>, v: &str) -> (r: bool)
    ensures
        r == names_contain(names@, v@),
{
    let mut i: usize = 0;
    while i < names.len()
        invariant
            i <= names@.len(),
            forall|j: int| 0 <= j < i ==> (#[trigger] names@[j])@ != v@,
        decreases names@.len() - i,
    {
        if str_eq(names[i], v) {
            return true;
        }
        i = i + 1;
    }
    false
}

/// Keeps the launches flown on one of the configurations `names`.
fn keep_vehicles(v: Vec<LaunchData>, names: &Vec<&'static str>) -> (r: Vec<LaunchData>)
    ensures
        r@ == launches_by_vehicle(v@, names@),
{
    let ghost orig = v@;
    let ghost pred = |l: LaunchData| names_contain(names@, l.vehicle@);
    let mut input = v;
    let mut out: Vec<LaunchData> = Vec::new();
    let ghost mut c: int = 0;
    assert(orig.skip(0) =~= orig);
    assert(orig.take(0) =~= Seq::<LaunchData>::empty());
    while input.len() > 0
        invariant
            0 <= c <= orig.len(),
            input@ == orig.skip(c),
            out@ == orig.take(c).filter(pred),
            pred == (|l: LaunchData| names_contain(names@, l.vehicle@)),
        decreases input@.len(),
    {
        let x = input.remove(0);
        proof {
            assert(x == orig[c]);
            assert(input@ =~= orig.skip(c + 1));
            assert(orig.take(c + 1) =~= orig.take(c).push(x));
            orig.take(c).lemma_filter_push(x, pred);
        }
        if names_contain_str(names, x.vehicle.as_str()) {
            out.push(x);
        }
        proof {
            c = c + 1;
        }
    }
    assert(orig.take(c) =~= orig);
    out
}

/// The characters of an optional text.
pub open spec fn opt_str_view(o: Option<&str>) -> Option<Seq<char>> {
    match o {
        Some(s) => Some(s@),
        None => None,
    }
}

/// Filters a launch list on an agency key or, without one, on a vehicle key, as
/// [`filtered_launches`] describes.
pub fn filter_launches(
    launches: Vec<LaunchData>,
    lsp: Option<&str>,
    rocket: Option<&str>,
) -> (r: Result<Vec<LaunchData>, FilterErrorType>)
    ensures
        match filtered_launches(launches@, opt_str_view(lsp), opt_str_view(rocket)) {
            Ok(f) => r matches Ok(x) && x@ == f,
            Err(e) => r == Err::<Vec<LaunchData>, FilterErrorType>(e),
        },
        lsp matches Some(l) ==> ((forall|i: int| 0 <= i < l@.len() ==> (#[trigger] l@[i] as u32) < 128) ==> match launches_for_key(launches@, Some(ascii_lowercase(l@)), opt_str_view(rocket)) {
            Ok(f) => r matches Ok(x) && x@ == f,
            Err(e) => r == Err::<Vec<LaunchData>, FilterErrorType>(e),
        }),
{
    match lsp {
        Some(l) => {
            let lower = to_lowercase(l);
            match agency_name(lower.as_str()) {
                Some(name) => {
                    let filtered = keep_agency(launches, name);
                    if filtered.len() == 0 {
                        Err(FilterErrorType::Lsp)
                    } else {
                        Ok(filtered)
                    }
                },
                None => Err(FilterErrorType::Invalid),
            }
        },
        None => match rocket {
            Some(rk) => match vehicle_names(rk) {
                Some(names) => {
                    let filtered = keep_vehicles(launches, &names);
                    if filtered.len() == 0 {
                        Err(FilterErrorType::Vehicle)
                    } else {
                        Ok(filtered)
                    }
                },
                None => Err(FilterErrorType::Invalid),
            },
            None => Ok(launches),
        },
    }
}

} // verus!
