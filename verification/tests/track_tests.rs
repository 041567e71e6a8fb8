use minigolf::map::{Ad, AdSize, MapError};
use minigolf::tile::{Special, TileCreationError};
use minigolf::track::{ParseError, Record, Settings, Track, TrackTypeFlags};

fn lines(text: &[&str]) -> Vec<String> {
    text.iter().map(|l| l.to_string()).collect()
}

fn fixture() -> Vec<String> {
    lines(&[
        "V 2",
        "A Tiikoni",
        "N Four Leaf Clover",
        "T CBA48DEBAAA,Ads:A2309B2208C4019",
        "C 1,4",
        "S fftf14",
        "I 25253,136852,2,19",
        "B Sprt,1087904871000",
        "R 14,2,8,2,14,19,39,36,143,85,574",
    ])
}

#[test]
fn test_from_filepath() {
    let result = Track::from_lines(&fixture());

    assert!(result.is_ok());

    let track = result.unwrap();

    assert_eq!(track.version, 2);
    assert_eq!(track.map.ads.len(), 3);
}

#[test]
fn track_fields_come_from_their_sections() {
    let track = Track::from_lines(&fixture()).unwrap();
    assert_eq!(track.version, 2);
    assert_eq!(track.author, "Tiikoni");
    assert_eq!(track.name, "Four Leaf Clover");
    assert_eq!(track.categories.bits(), TrackTypeFlags::BASIC | TrackTypeFlags::HOLEINONE);
    assert_eq!(track.categories.bits(), 0b1001);
    assert_eq!(
        track.settings,
        Settings {
            mines_visible: false,
            magnets_visible: false,
            teleport_colors: true,
            illusion_wall_shadows: false,
            min_players: 1,
            max_players: 4,
        }
    );
    // R comes after I: the last one wins
    assert_eq!(track.ratings, vec![14, 2, 8, 2, 14, 19, 39, 36, 143, 85, 574]);
    assert!(track.stroke_info.is_empty());
    assert_eq!(track.map.tiles.len(), 1225);
    assert_eq!(track.map.tiles[49].special, Some(Special::Hole));
    assert_eq!(track.map.tiles[50].special, None);
    assert_eq!(track.map.ads[0], Ad { size: AdSize::Small, x: 23, y: 9 });
    assert_eq!(track.record.name, "Sprt");
    assert_eq!(
        track.record.timestamp,
        chrono::DateTime::from_timestamp(1087904871000, 0).unwrap().naive_utc()
    );
    assert_eq!(track.record.timestamp.and_utc().timestamp(), 1087904871000);
}

#[test]
fn empty_track() {
    let track = Track::from_lines(&Vec::new()).unwrap();
    assert_eq!(track.version, 0);
    assert_eq!(track.author, "");
    assert_eq!(track.name, "");
    assert_eq!(track.categories, TrackTypeFlags::empty());
    assert_eq!(track.settings, Settings::default());
    assert!(track.settings.magnets_visible);
    assert_eq!((track.settings.min_players, track.settings.max_players), (4, 1));
    assert!(track.ratings.is_empty() && track.stroke_info.is_empty());
    assert!(track.map.tiles.is_empty() && track.map.ads.is_empty());
    assert_eq!(track.record.name, "");
    assert_eq!(track.record.timestamp, chrono::NaiveDateTime::default());
    assert_eq!(track.record.timestamp.and_utc().timestamp(), 0);
    // empty lines are skipped
    let track = Track::from_lines(&lines(&["", "V 7", "", ""])).unwrap();
    assert_eq!(track.version, 7);
}

fn fails(text: &[&str]) -> ParseError {
    Track::from_lines(&lines(text)).unwrap_err()
}

fn is_invalid_format(e: ParseError) -> bool {
    matches!(e, ParseError::InvalidFormat)
}

#[test]
fn malformed_lines_fail_the_track() {
    // no space
    assert!(is_invalid_format(fails(&["V"])));
    assert!(is_invalid_format(fails(&["V2"])));
    // an unknown section
    assert!(is_invalid_format(fails(&["X 1"])));
    assert!(is_invalid_format(fails(&["v 1"])));
    assert!(is_invalid_format(fails(&["VV 1"])));
    // a line that starts with the space
    assert!(is_invalid_format(fails(&[" V 1"])));
    // a version that is no number
    assert!(is_invalid_format(fails(&["V two"])));
    assert!(is_invalid_format(fails(&["V "])));
    assert!(is_invalid_format(fails(&["V 2 "])));
    assert!(is_invalid_format(fails(&["V  2"])));
    assert!(is_invalid_format(fails(&["V 2147483648"])));
    // a later line cannot repair an earlier one
    assert!(is_invalid_format(fails(&["A someone", "Q", "V 2"])));
}

#[test]
fn version_is_a_signed_number() {
    let version = |s: &str| Track::from_lines(&lines(&[s])).unwrap().version;
    assert_eq!(version("V 2147483647"), i32::MAX);
    assert_eq!(version("V -2147483648"), i32::MIN);
    assert_eq!(version("V +12"), 12);
    assert_eq!(version("V -0"), 0);
    assert_eq!(version("V 0000000000000000000012"), 12);
    assert!(is_invalid_format(fails(&["V -2147483649"])));
    assert!(is_invalid_format(fails(&["V +"])));
    assert!(is_invalid_format(fails(&["V -"])));
    assert!(is_invalid_format(fails(&["V --1"])));
    assert!(is_invalid_format(fails(&["V 1_000"])));
    assert!(is_invalid_format(fails(&["V ١٢"])));
}

#[test]
fn names_keep_their_spaces() {
    let track = Track::from_lines(&lines(&["A  two  words ", "N "])).unwrap();
    assert_eq!(track.author, " two  words ");
    assert_eq!(track.name, "");
}

#[test]
fn categories() {
    let bits = |s: &str| Track::from_lines(&lines(&[s])).unwrap().categories.bits();
    assert_eq!(bits("C 1"), 0b000001);
    assert_eq!(bits("C 2"), 0b000010);
    assert_eq!(bits("C 3"), 0b000100);
    assert_eq!(bits("C 4"), 0b001000);
    assert_eq!(bits("C 5"), 0b010000);
    assert_eq!(bits("C 6"), 0b100000);
    assert_eq!(bits("C 1,2,3,4,5,6"), 0b111111);
    assert_eq!(bits("C 6,6,1"), 0b100001);
    assert!(is_invalid_format(fails(&["C 0"])));
    assert!(is_invalid_format(fails(&["C 7"])));
    assert!(is_invalid_format(fails(&["C 1,7"])));
    assert!(is_invalid_format(fails(&["C 1,,2"])));
    assert!(is_invalid_format(fails(&["C 1,"])));
    assert!(is_invalid_format(fails(&["C "])));
    assert!(is_invalid_format(fails(&["C x"])));
    assert!(is_invalid_format(fails(&["C -1"])));
    assert_eq!(TrackTypeFlags::from_i32(3).unwrap().bits(), TrackTypeFlags::MODERN);
    assert_eq!(TrackTypeFlags::from_i64(5).unwrap().bits(), TrackTypeFlags::SHORT);
    assert_eq!(TrackTypeFlags::from_u64(6).unwrap().bits(), TrackTypeFlags::LONG);
    assert_eq!(TrackTypeFlags::from_u64(2).unwrap().bits(), TrackTypeFlags::TRADITIONAL);
    assert_eq!(TrackTypeFlags::from_i64(0), None);
    assert_eq!(TrackTypeFlags::from_u64(u64::MAX), None);
    assert_eq!(TrackTypeFlags::from_codes(&[]), Some(TrackTypeFlags::empty()));
    assert_eq!(TrackTypeFlags::from_codes(&[1, 9]), None);
    let both = TrackTypeFlags::from_codes(&[1, 6]).unwrap();
    assert!(both.contains(TrackTypeFlags::from_i32(6).unwrap()));
    assert!(!both.contains(TrackTypeFlags::from_i32(2).unwrap()));
    assert_eq!(both.union(TrackTypeFlags::from_i32(2).unwrap()).bits(), 0b100011);
}

#[test]
fn settings() {
    let s = Settings::from_str("tftf29").unwrap();
    assert_eq!(
        s,
        Settings {
            mines_visible: true,
            magnets_visible: false,
            teleport_colors: true,
            illusion_wall_shadows: false,
            min_players: 2,
            max_players: 9,
        }
    );
    // anything but `t` is false
    let s = Settings::from_str("TxYt00").unwrap();
    assert!(!s.mines_visible && !s.magnets_visible && !s.teleport_colors);
    assert!(s.illusion_wall_shadows);
    assert!(is_invalid_format(Settings::from_str("tftf2").unwrap_err()));
    assert!(is_invalid_format(Settings::from_str("tftf299").unwrap_err()));
    assert!(is_invalid_format(Settings::from_str("").unwrap_err()));
    assert!(is_invalid_format(Settings::from_str("tftfx9").unwrap_err()));
    assert!(is_invalid_format(Settings::from_str("tftf2x").unwrap_err()));
    assert!(is_invalid_format(Settings::from_str("tftf+9").unwrap_err()));
    assert!(is_invalid_format(Settings::from_str("tftf2-").unwrap_err()));
    // six characters, not six bytes
    assert!(Settings::from_str("éééé14").is_ok());
    let parsed: Settings = "ffff14".parse().unwrap();
    assert_eq!((parsed.min_players, parsed.max_players), (1, 4));
    assert!(is_invalid_format(fails(&["S tftf"])));
    let track = Track::from_lines(&lines(&["S tttt12"])).unwrap();
    assert!(track.settings.mines_visible && track.settings.magnets_visible);
}

#[test]
fn ratings_must_be_numbers() {
    let ratings = |s: &str| Track::from_lines(&lines(&[s])).unwrap().ratings;
    assert_eq!(ratings("R 1,2,3"), vec![1, 2, 3]);
    assert_eq!(ratings("I 1,2,3"), vec![1, 2, 3]);
    assert_eq!(ratings("R 5"), vec![5]);
    assert_eq!(ratings("R -5,+7,0012,0"), vec![-5, 7, 12, 0]);
    assert_eq!(ratings("R 2147483647,-2147483648"), vec![i32::MAX, i32::MIN]);
    // a field that is no number fails the track
    assert!(is_invalid_format(fails(&["R 1,x,3"])));
    assert!(is_invalid_format(fails(&["I 1,x,3"])));
    assert!(is_invalid_format(fails(&["R "])));
    assert!(is_invalid_format(fails(&["R ,"])));
    assert!(is_invalid_format(fails(&["R 1,,3"])));
    assert!(is_invalid_format(fails(&["R 1,2,"])));
    assert!(is_invalid_format(fails(&["R ,1"])));
    assert!(is_invalid_format(fails(&["R 1, 4"])));
    assert!(is_invalid_format(fails(&["R 1.5"])));
    assert!(is_invalid_format(fails(&["R 2147483648"])));
    assert!(is_invalid_format(fails(&["I 99999999999"])));
    assert!(is_invalid_format(fails(&["R 1,2", "I 3,x"])));
    // both sections write the same list: the last one wins
    let track = Track::from_lines(&lines(&["R 1,2", "I 3"])).unwrap();
    assert_eq!(track.ratings, vec![3]);
    let track = Track::from_lines(&lines(&["I 3", "R 1,2"])).unwrap();
    assert_eq!(track.ratings, vec![1, 2]);
}

#[test]
fn best_record() {
    let track = Track::from_lines(&lines(&["B Name With Space,0"])).unwrap();
    assert_eq!(track.record.name, "Name With Space");
    assert_eq!(track.record.timestamp, chrono::NaiveDateTime::default());
    let track = Track::from_lines(&lines(&["B x,-86400"])).unwrap();
    assert_eq!(track.record.timestamp.and_utc().timestamp(), -86400);
    assert_eq!(track.record.timestamp.to_string(), "1969-12-31 00:00:00");
    let track = Track::from_lines(&lines(&["B ,1431648000"])).unwrap();
    assert_eq!(track.record.name, "");
    assert_eq!(track.record.timestamp.to_string(), "2015-05-15 00:00:00");
    // no comma, no number, or a number that is no timestamp
    assert!(is_invalid_format(fails(&["B name"])));
    assert!(is_invalid_format(fails(&["B name,"])));
    assert!(is_invalid_format(fails(&["B name,soon"])));
    assert!(is_invalid_format(fails(&["B name,1,2"])));
    assert!(is_invalid_format(fails(&["B name,9223372036854775807"])));
    assert!(is_invalid_format(fails(&["B name,-9223372036854775808"])));
    assert!(is_invalid_format(fails(&["B name,9223372036854775808"])));
    let found = chrono::DateTime::from_timestamp(5, 0).map(|t| t.naive_utc());
    let record = Record::from_lookup("me".to_string(), found).unwrap();
    assert_eq!(record.name, "me");
    assert_eq!(record.timestamp.and_utc().timestamp(), 5);
    assert!(is_invalid_format(Record::from_lookup("me".to_string(), None).unwrap_err()));
}

#[test]
fn map_errors_are_passed_on() {
    assert!(matches!(fails(&["T D"]), ParseError::MapError(MapError::OutOfBounds)));
    assert!(matches!(fails(&["T J"]), ParseError::MapError(MapError::Unexpected('J'))));
    assert!(matches!(fails(&["T B"]), ParseError::MapError(MapError::UnexpectedEol)));
    assert!(matches!(
        fails(&["T AAA"]),
        ParseError::MapError(MapError::TileCreationError(TileCreationError::InvalidSpecial(0)))
    ));
    assert!(matches!(fails(&["T CBA,Ads:A1x00"]), ParseError::MapError(MapError::ParseIntError)));
    let track = Track::from_lines(&lines(&["T "])).unwrap();
    assert_eq!(track.map.tiles.len(), 1225);
}

#[test]
fn lines_apply_one_by_one() {
    let track = Track::new();
    let track = track.apply_line("V 3").unwrap();
    let track = track.apply_line("").unwrap();
    let track = track.apply_line("N name").unwrap();
    assert_eq!(track.version, 3);
    assert_eq!(track.name, "name");
    assert!(is_invalid_format(track.apply_line("nonsense").unwrap_err()));
}
