//! Track records: the line-oriented text that describes one course.
//!
//! Every non-empty line is a section letter, one space and the section's data.
//! The sections are `V` version, `A` author, `N` name, `C` categories, `S`
//! settings, `T` the map, `R` and `I` ratings, `B` the best record. A line that
//! is anything else fails the whole track.

use crate::map::{parsed_map, Ad, MapError, TrackMap};
use crate::text::{
    chars_string, index_of_char, parse_i32, parse_i64, parsed_int, split_fields, split_from,
    split_pair, str_chars,
};
use crate::tile::Tile;
use chrono::NaiveDateTime;
use std::str::FromStr;
use vstd::prelude::*;
use vstd::slice::slice_subrange;

verus! {

/// A calendar timestamp without a time zone, as the `chrono` crate holds it.
#[verifier::external_type_specification]
#[verifier::external_body]
pub struct ExNaiveDateTime(chrono::NaiveDateTime);

/// The error type of the standard I/O traits.
#[verifier::external_type_specification]
#[verifier::external_body]
pub struct ExIoError(std::io::Error);

/// The calendar timestamp that lies `secs` seconds after the start of 1970,
/// or `None` where the calendar type cannot represent it.
pub uninterp spec fn datetime_of_timestamp(secs: i64) -> Option<NaiveDateTime>;

/// `NaiveDateTime::from_timestamp_opt` with no nanoseconds: the timestamp for a
/// number of seconds since the start of 1970, which depends on that number
/// alone.
#[verifier::external_body]
#[allow(deprecated)]
fn datetime_from_timestamp(secs: i64) -> (r: Option<NaiveDateTime>)
    ensures
        r == datetime_of_timestamp(secs),
{
    NaiveDateTime::from_timestamp_opt(secs, 0)
}

/// `NaiveDateTime::default`: midnight at the start of 1970, the timestamp of
/// zero seconds.
#[verifier::external_body]
fn default_datetime() -> (r: NaiveDateTime)
    ensures
        datetime_of_timestamp(0) == Some(r),
{
    NaiveDateTime::default()
}

/// The best result played on a track.
#[derive(Debug)]
pub struct Record {
    pub name: String,
    pub timestamp: NaiveDateTime,
}

/// One course with its description.
#[derive(Debug)]
pub struct Track {
    pub version: i32,
    pub author: String,
    pub name: String,
    pub categories: TrackTypeFlags,
    pub settings: Settings,
    pub ratings: Vec<i32>,
    pub stroke_info: Vec<i32>,
    pub map: TrackMap,
    pub record: Record,
}

/// Why a track could not be read.
#[derive(Debug)]
pub enum ParseError {
    /// The source of the lines failed.
    IOError(std::io::Error),
    /// A line is not a section of the format, or its data is malformed.
    InvalidFormat,
    /// The map section is malformed.
    MapError(MapError),
}

/// The categories of a track, one bit each.
#[derive(Debug, PartialEq, Eq, Structural, Copy, Clone)]
pub struct TrackTypeFlags {
    pub bits: u32,
}

/// The display and player settings of a track.
#[derive(Debug, PartialEq, Eq, Structural, Copy, Clone)]
pub struct Settings {
    pub magnets_visible: bool,
    pub mines_visible: bool,
    pub teleport_colors: bool,
    pub illusion_wall_shadows: bool,
    pub max_players: i32,
    pub min_players: i32,
}

/// What a track holds, with strings and lists as sequences.
#[verifier::ext_equal]
pub struct TrackView {
    pub version: i32,
    pub author: Seq<char>,
    pub name: Seq<char>,
    pub categories: u32,
    pub settings: Settings,
    pub ratings: Seq<i32>,
    pub stroke_info: Seq<i32>,
    pub tiles: Seq<Tile>,
    pub ads: Seq<Ad>,
    pub record_name: Seq<char>,
    pub record_timestamp: NaiveDateTime,
}

/// The bit of the category with the given code, for the codes 1 to 6.
pub open spec fn category_bit(code: int) -> Option<u32> {
    if code == 1 {
        Some(TrackTypeFlags::BASIC)
    } else if code == 2 {
        Some(TrackTypeFlags::TRADITIONAL)
    } else if code == 3 {
        Some(TrackTypeFlags::MODERN)
    } else if code == 4 {
        Some(TrackTypeFlags::HOLEINONE)
    } else if code == 5 {
        Some(TrackTypeFlags::SHORT)
    } else if code == 6 {
        Some(TrackTypeFlags::LONG)
    } else {
        None
    }
}

/// The bits of all the categories in `codes` together; `None` when one of the
/// codes names no category.
pub open spec fn category_bits(codes: Seq<i32>) -> Option<u32>
    decreases codes.len(),
{
    if codes.len() == 0 {
        Some(0u32)
    } else {
        match (category_bits(codes.drop_last()), category_bit(codes.last() as int)) {
            (Some(bits), Some(bit)) => Some(bits | bit),
            _ => None,
        }
    }
}

/// The number that a list field writes, if it writes one.
pub open spec fn field_value(field: Seq<char>) -> Option<i32> {
    match parsed_int(field, i32::MIN as int, i32::MAX as int) {
        Some(v) => Some(v as i32),
        None => None,
    }
}

/// Every field writes a number.
pub open spec fn all_numbers(fields: Seq<Seq<char>>) -> bool {
    forall|i: int| 0 <= i < fields.len() ==> (#[trigger] field_value(fields[i])) is Some
}

/// The numbers that the fields write, in order.
pub open spec fn field_values(fields: Seq<Seq<char>>) -> Seq<i32> {
    fields.map_values(|field: Seq<char>| field_value(field)->0)
}

/// The numbers of a comma-separated list; `None` where one of its fields is
/// no number. The empty string is one empty field, and so no list.
pub open spec fn int_list(data: Seq<char>) -> Option<Seq<i32>> {
    let fields = split_fields(data, ',');
    if all_numbers(fields) {
        Some(field_values(fields))
    } else {
        None
    }
}

/// The settings that a settings string describes: four flags, set by `t`, then
/// one digit each for the least and the greatest number of players, in the
/// order mines, magnets, teleport colours, wall shadows, minimum, maximum.
pub open spec fn parsed_settings(s: Seq<char>) -> Option<Settings> {
    if s.len() != 6 {
        None
    } else {
        match (
            parsed_int(s.subrange(4, 5), i32::MIN as int, i32::MAX as int),
            parsed_int(s.subrange(5, 6), i32::MIN as int, i32::MAX as int),
        ) {
            (Some(min), Some(max)) => Some(
                Settings {
                    mines_visible: s[0] == 't',
                    magnets_visible: s[1] == 't',
                    teleport_colors: s[2] == 't',
                    illusion_wall_shadows: s[3] == 't',
                    min_players: min as i32,
                    max_players: max as i32,
                },
            ),
            _ => None,
        }
    }
}

/// The track that results from a record line: its name, and the timestamp
/// found for its number of seconds. Without a timestamp the line is malformed.
pub open spec fn with_record(
    track: TrackView,
    name: Seq<char>,
    found: Option<NaiveDateTime>,
) -> Result<TrackView, ParseError> {
    match found {
        Some(timestamp) => Ok(TrackView { record_name: name, record_timestamp: timestamp, ..track }),
        None => Err(ParseError::InvalidFormat),
    }
}

/// The track after a section with the given letter and data.
pub open spec fn applied_section(track: TrackView, section: Seq<char>, data: Seq<char>) -> Result<
    TrackView,
    ParseError,
> {
    if section == seq!['V'] {
        match parsed_int(data, i32::MIN as int, i32::MAX as int) {
            Some(version) => Ok(TrackView { version: version as i32, ..track }),
            None => Err(ParseError::InvalidFormat),
        }
    } else if section == seq!['A'] {
        Ok(TrackView { author: data, ..track })
    } else if section == seq!['N'] {
        Ok(TrackView { name: data, ..track })
    } else if section == seq!['C'] {
        match int_list(data) {
            Some(codes) => match category_bits(codes) {
                Some(bits) => Ok(TrackView { categories: bits, ..track }),
                None => Err(ParseError::InvalidFormat),
            },
            None => Err(ParseError::InvalidFormat),
        }
    } else if section == seq!['S'] {
        match parsed_settings(data) {
            Some(settings) => Ok(TrackView { settings, ..track }),
            None => Err(ParseError::InvalidFormat),
        }
    } else if section == seq!['T'] {
        match parsed_map(data) {
            Ok((tiles, ads)) => Ok(TrackView { tiles, ads, ..track }),
            Err(e) => Err(ParseError::MapError(e)),
        }
    } else if section == seq!['R'] || section == seq!['I'] {
        match int_list(data) {
            Some(ratings) => Ok(TrackView { ratings, ..track }),
            None => Err(ParseError::InvalidFormat),
        }
    } else if section == seq!['B'] {
        match split_pair(data, ',') {
            Some((name, seconds)) => match parsed_int(seconds, i64::MIN as int, i64::MAX as int) {
                Some(secs) => with_record(track, name, datetime_of_timestamp(secs as i64)),
                None => Err(ParseError::InvalidFormat),
            },
            None => Err(ParseError::InvalidFormat),
        }
    } else {
        Err(ParseError::InvalidFormat)
    }
}

/// The track after one line. An empty line changes nothing; any other line is
/// cut at its first space into section and data.
pub open spec fn applied_line(track: TrackView, line: Seq<char>) -> Result<TrackView, ParseError> {
    if line.len() == 0 {
        Ok(track)
    } else {
        match split_pair(line, ' ') {
            Some((section, data)) => applied_section(track, section, data),
            None => Err(ParseError::InvalidFormat),
        }
    }
}

/// The track after the first `n` of the given lines, or the error of the first
/// line that fails.
pub open spec fn applied_lines(track: TrackView, lines: Seq<Seq<char>>, n: int) -> Result<
    TrackView,
    ParseError,
>
    decreases n,
{
    if n <= 0 {
        Ok(track)
    } else {
        match applied_lines(track, lines, n - 1) {
            Ok(t) => applied_line(t, lines[n - 1]),
            Err(e) => Err(e),
        }
    }
}

/// The track before any line is read: version 0, no names, no categories, the
/// default settings, no ratings, a map without tiles, and a record without a
/// name at the start of 1970.
pub open spec fn initial_track() -> TrackView {
    TrackView {
        version: 0,
        author: Seq::empty(),
        name: Seq::empty(),
        categories: 0,
        settings: Settings::initial(),
        ratings: Seq::empty(),
        stroke_info: Seq::empty(),
        tiles: Seq::empty(),
        ads: Seq::empty(),
        record_name: Seq::empty(),
        record_timestamp: datetime_of_timestamp(0)->0,
    }
}

/// The track that the given lines describe, or the error of the first line
/// that fails.
pub open spec fn parsed_track(lines: Seq<Seq<char>>) -> Result<TrackView, ParseError> {
    applied_lines(initial_track(), lines, lines.len() as int)
}

impl TrackTypeFlags {
    pub const BASIC: u32 = 0b00000001;

    pub const HOLEINONE: u32 = 0b00001000;

    pub const LONG: u32 = 0b00100000;

    pub const MODERN: u32 = 0b00000100;

    pub const SHORT: u32 = 0b00010000;

    pub const TRADITIONAL: u32 = 0b00000010;

    /// No category.
    pub fn empty() -> (flags: TrackTypeFlags)
        ensures
            flags.bits == 0,
    {
        TrackTypeFlags { bits: 0 }
    }

    pub fn bits(&self) -> (bits: u32)
        ensures
            bits == self.bits,
    {
        self.bits
    }

    /// The categories of both.
    pub fn union(self, other: TrackTypeFlags) -> (flags: TrackTypeFlags)
        ensures
            flags.bits == self.bits | other.bits,
    {
        TrackTypeFlags { bits: self.bits | other.bits }
    }

    /// Tells whether every category of `other` is among these.
    pub fn contains(&self, other: TrackTypeFlags) -> (b: bool)
        ensures
            b == (self.bits & other.bits == other.bits),
    {
        self.bits & other.bits == other.bits
    }

    /// The single category with the given code.
    pub fn from_i64(n: i64) -> (r: Option<TrackTypeFlags>)
        ensures
            match r {
                Some(flags) => category_bit(n as int) == Some(flags.bits),
                None => category_bit(n as int) is None,
            },
    {
        match n {
            1 => Some(TrackTypeFlags { bits: TrackTypeFlags::BASIC }),
            2 => Some(TrackTypeFlags { bits: TrackTypeFlags::TRADITIONAL }),
            3 => Some(TrackTypeFlags { bits: TrackTypeFlags::MODERN }),
            4 => Some(TrackTypeFlags { bits: TrackTypeFlags::HOLEINONE }),
            5 => Some(TrackTypeFlags { bits: TrackTypeFlags::SHORT }),
            6 => Some(TrackTypeFlags { bits: TrackTypeFlags::LONG }),
            _ => None,
        }
    }

    /// The single category with the given code. A code too large for a signed
    /// 64-bit integer names none.
    pub fn from_u64(n: u64) -> (r: Option<TrackTypeFlags>)
        ensures
            match r {
                Some(flags) => category_bit(n as int) == Some(flags.bits),
                None => category_bit(n as int) is None,
            },
    {
        if n <= 6 {
            TrackTypeFlags::from_i64(n as i64)
        } else {
            None
        }
    }

    /// The single category with the given code.
    pub fn from_i32(n: i32) -> (r: Option<TrackTypeFlags>)
        ensures
            match r {
                Some(flags) => category_bit(n as int) == Some(flags.bits),
                None => category_bit(n as int) is None,
            },
    {
        TrackTypeFlags::from_i64(n as i64)
    }

    /// The categories with the given codes together, if each names one.
    pub fn from_codes(codes: &[i32]) -> (r: Option<TrackTypeFlags>)
        ensures
            match r {
                Some(flags) => category_bits(codes@) == Some(flags.bits),
                None => category_bits(codes@) is None,
            },
    {
        let mut flags = TrackTypeFlags::empty();
        let mut i: usize = 0;
        assert(codes@.take(0) =~= Seq::<i32>::empty());
        while i < codes.len()
            invariant
                i <= codes.len(),
                category_bits(codes@.take(i as int)) == Some(flags.bits),
            decreases codes.len() - i,
        {
            assert(codes@.take(i + 1).drop_last() =~= codes@.take(i as int));
            match TrackTypeFlags::from_i32(codes[i]) {
                Some(category) => {
                    flags = flags.union(category);
                },
                None => {
                    proof {
                        lemma_category_bits_prefix(codes@, i + 1);
                    }
                    return None;
                },
            }
            i += 1;
        }
        assert(codes@.take(i as int) =~= codes@);
        Some(flags)
    }
}

/// Where a prefix of a list of codes names no set of categories, neither does
/// the list.
pub proof fn lemma_category_bits_prefix(codes: Seq<i32>, k: int)
    requires
        0 <= k <= codes.len(),
        category_bits(codes.take(k)) is None,
    ensures
        category_bits(codes) is None,
    decreases codes.len(),
{
    if k < codes.len() {
        assert(codes.drop_last().take(k) =~= codes.take(k));
        lemma_category_bits_prefix(codes.drop_last(), k);
    } else {
        assert(codes.take(k) =~= codes);
    }
}

impl Settings {
    /// The settings of a track that says nothing about them.
    pub open spec fn initial() -> Settings {
        Settings {
            magnets_visible: true,
            mines_visible: false,
            teleport_colors: false,
            illusion_wall_shadows: false,
            max_players: 1,
            min_players: 4,
        }
    }

    /// Reads a settings string.
    pub fn from_str(s: &str) -> (r: Result<Settings, ParseError>)
        ensures
            match r {
                Ok(settings) => parsed_settings(s@) == Some(settings),
                Err(e) => parsed_settings(s@) is None && e is InvalidFormat,
            },
    {
        let chars = str_chars(s);
        Settings::from_chars(chars.as_slice())
    }

    /// Reads a settings string given as characters.
    pub fn from_chars(chars: &[char]) -> (r: Result<Settings, ParseError>)
        ensures
            match r {
                Ok(settings) => parsed_settings(chars@) == Some(settings),
                Err(e) => parsed_settings(chars@) is None && e is InvalidFormat,
            },
    {
        let mut settings = Settings::default();
        if chars.len() != 6 {
            return Err(ParseError::InvalidFormat);
        }
        settings.mines_visible = chars[0] == 't';
        settings.magnets_visible = chars[1] == 't';
        settings.teleport_colors = chars[2] == 't';
        settings.illusion_wall_shadows = chars[3] == 't';
        settings.min_players = match parse_i32(slice_subrange(chars, 4, 5)) {
            Some(n) => n,
            None => {
                return Err(ParseError::InvalidFormat);
            },
        };
        settings.max_players = match parse_i32(slice_subrange(chars, 5, 6)) {
            Some(n) => n,
            None => {
                return Err(ParseError::InvalidFormat);
            },
        };
        Ok(settings)
    }
}

impl Default for Settings {
    fn default() -> (settings: Settings)
        ensures
            settings == Settings::initial(),
    {
        Settings {
            magnets_visible: true,
            mines_visible: false,
            teleport_colors: false,
            illusion_wall_shadows: false,
            max_players: 1,
            min_players: 4,
        }
    }
}

impl FromStr for Settings {
    type Err = ParseError;

    /// Reads a settings string: the settings that it describes, or
    /// `InvalidFormat` where it describes none.
    fn from_str(s: &str) -> (r: Result<Self, Self::Err>)
        ensures
            match r {
                Ok(settings) => parsed_settings(s@) == Some(settings),
                Err(e) => parsed_settings(s@) is None && e is InvalidFormat,
            },
    {
        Settings::from_str(s)
    }
}

/// Reads a comma-separated list of numbers; `None` where a field is no
/// number.
pub fn parse_int_list(data: &[char]) -> (r: Option<Vec<i32>>)
    ensures
        match r {
            Some(list) => int_list(data@) == Some(list@),
            None => int_list(data@) is None,
        },
{
    let n = data.len();
    let mut list: Vec<i32> = Vec::new();
    let mut from: usize = 0;
    let ghost mut done: Seq<Seq<char>> = Seq::empty();
    assert(done + split_from(data@, ',', 0) =~= split_fields(data@, ','));
    assert(list@ =~= field_values(done));
    loop
        invariant_except_break
            n == data.len(),
            from <= n,
            split_fields(data@, ',') == done + split_from(data@, ',', from as int),
            all_numbers(done),
            list@ == field_values(done),
        ensures
            split_fields(data@, ',') == done,
            all_numbers(done),
            list@ == field_values(done),
        decreases n - from,
    {
        let i = index_of_char(data, ',', from);
        let field = slice_subrange(data, from, i);
        let ghost rest = split_from(data@, ',', from as int);
        assert(rest[0] == field@);
        let value = match parse_i32(field) {
            Some(v) => v,
            None => {
                assert(split_fields(data@, ',')[done.len() as int] == field@);
                assert(field_value(split_fields(data@, ',')[done.len() as int]) is None);
                return None;
            },
        };
        list.push(value);
        proof {
            let longer = done.push(field@);
            assert(list@ =~= field_values(longer));
            assert forall|k: int| 0 <= k < longer.len() implies (#[trigger] field_value(
                longer[k],
            )) is Some by {
                if k < done.len() {
                    assert(longer[k] == done[k]);
                }
            }
            if i < n {
                assert(longer + split_from(data@, ',', i + 1) =~= done + rest);
            } else {
                assert(longer =~= done + rest);
            }
            done = longer;
        }
        if i < n {
            from = i + 1;
        } else {
            break ;
        }
    }
    Some(list)
}

impl Record {
    /// The record with the given name and the timestamp found for its number
    /// of seconds; without a timestamp the record is malformed.
    pub fn from_lookup(name: String, found: Option<NaiveDateTime>) -> (r: Result<Record, ParseError>)
        ensures
            match found {
                Some(timestamp) => r matches Ok(record) && record.name@ == name@
                    && record.timestamp == timestamp,
                None => r matches Err(e) && e is InvalidFormat,
            },
    {
        match found {
            Some(timestamp) => Ok(Record { name, timestamp }),
            None => Err(ParseError::InvalidFormat),
        }
    }
}

impl View for Track {
    type V = TrackView;

    open spec fn view(&self) -> TrackView {
        TrackView {
            version: self.version,
            author: self.author@,
            name: self.name@,
            categories: self.categories.bits,
            settings: self.settings,
            ratings: self.ratings@,
            stroke_info: self.stroke_info@,
            tiles: self.map.tiles@,
            ads: self.map.ads@,
            record_name: self.record.name@,
            record_timestamp: self.record.timestamp,
        }
    }
}

impl Track {
    /// The track before any line is read.
    pub fn new() -> (track: Track)
        ensures
            track@ == initial_track(),
    {
        let track = Track {
            version: 0,
            author: String::new(),
            name: String::new(),
            categories: TrackTypeFlags::empty(),
            settings: Settings::default(),
            ratings: Vec::new(),
            stroke_info: Vec::new(),
            map: TrackMap::default(),
            record: Record { name: String::new(), timestamp: default_datetime() },
        };
        assert(track@ =~~= initial_track());
        track
    }

    /// Reads one line into the track. The line comes without its line ending.
    pub fn apply_line(self, line: &str) -> (r: Result<Track, ParseError>)
        ensures
            match r {
                Ok(track) => applied_line(self@, line@) == Ok::<TrackView, ParseError>(track@),
                Err(e) => applied_line(self@, line@) == Err::<TrackView, ParseError>(e),
            },
    {
        let chars = str_chars(line);
        let all = chars.as_slice();
        let n = all.len();
        if n == 0 {
            return Ok(self);
        }
        let space = index_of_char(all, ' ', 0);
        if space >= n {
            return Err(ParseError::InvalidFormat);
        }
        let section = slice_subrange(all, 0, space);
        let data = slice_subrange(all, space + 1, n);
        assert(section@ =~= line@.take(space as int));
        assert(data@ =~= line@.skip(space + 1));
        self.apply_section(section, data)
    }

    /// Reads one section into the track.
    pub fn apply_section(self, section: &[char], data: &[char]) -> (r: Result<Track, ParseError>)
        ensures
            match r {
                Ok(track) => applied_section(self@, section@, data@) == Ok::<TrackView, ParseError>(
                    track@,
                ),
                Err(e) => applied_section(self@, section@, data@) == Err::<TrackView, ParseError>(
                    e,
                ),
            },
    {
        let mut track = self;
        if section.len() != 1 {
            assert(section@ != seq!['V'] && section@ != seq!['A'] && section@ != seq!['N']
                && section@ != seq!['C'] && section@ != seq!['S'] && section@ != seq!['T']
                && section@ != seq!['R'] && section@ != seq!['I'] && section@ != seq!['B']);
            return Err(ParseError::InvalidFormat);
        }
        let letter = section[0];
        assert(section@ =~= seq![letter]);
        assert(forall|c: char| seq![c] == seq![letter] ==> seq![c][0] == seq![letter][0]);
        match letter {
            'V' => {
                track.version = match parse_i32(data) {
                    Some(version) => version,
                    None => {
                        return Err(ParseError::InvalidFormat);
                    },
                };
            },
            'A' => {
                track.author = chars_string(data);
            },
            'N' => {
                track.name = chars_string(data);
            },
            'C' => {
                let categories = match parse_int_list(data) {
                    Some(codes) => codes,
                    None => {
                        return Err(ParseError::InvalidFormat);
                    },
                };
                track.categories = match TrackTypeFlags::from_codes(categories.as_slice()) {
                    Some(flags) => flags,
                    None => {
                        return Err(ParseError::InvalidFormat);
                    },
                };
            },
            'S' => {
                track.settings = match Settings::from_chars(data) {
                    Ok(settings) => settings,
                    Err(_) => {
                        return Err(ParseError::InvalidFormat);
                    },
                };
            },
            'T' => {
                track.map = match TrackMap::from_chars(data) {
                    Ok(map) => map,
                    Err(e) => {
                        return Err(ParseError::MapError(e));
                    },
                };
            },
            'R' | 'I' => {
                track.ratings = match parse_int_list(data) {
                    Some(ratings) => ratings,
                    None => {
                        return Err(ParseError::InvalidFormat);
                    },
                };
            },
            'B' => {
                let n = data.len();
                let comma = index_of_char(data, ',', 0);
                if comma >= n {
                    return Err(ParseError::InvalidFormat);
                }
                let name = slice_subrange(data, 0, comma);
                let seconds = slice_subrange(data, comma + 1, n);
                assert(name@ =~= data@.take(comma as int));
                assert(seconds@ =~= data@.skip(comma + 1));
                let timestamp = match parse_i64(seconds) {
                    Some(secs) => secs,
                    None => {
                        return Err(ParseError::InvalidFormat);
                    },
                };
                let found = datetime_from_timestamp(timestamp);
                track.record = match Record::from_lookup(chars_string(name), found) {
                    Ok(record) => record,
                    Err(e) => {
                        return Err(e);
                    },
                };
            },
            _ => {
                return Err(ParseError::InvalidFormat);
            },
        }
        Ok(track)
    }

    /// Reads a whole track from its lines, in order. The first line that fails
    /// ends the reading with its error.
    pub fn from_lines(lines: &Vec<String>) -> (r: Result<Track, ParseError>)
        ensures
            match r {
                Ok(track) => parsed_track(lines@.map_values(|line: String| line@)) == Ok::<
                    TrackView,
                    ParseError,
                >(track@),
                Err(e) => parsed_track(lines@.map_values(|line: String| line@)) == Err::<
                    TrackView,
                    ParseError,
                >(e),
            },
    {
        let mut track = Track::new();
        let ghost texts = lines@.map_values(|line: String| line@);
        let mut i: usize = 0;
        while i < lines.len()
            invariant
                i <= lines.len(),
                texts == lines@.map_values(|line: String| line@),
                applied_lines(initial_track(), texts, i as int) == Ok::<TrackView, ParseError>(
                    track@,
                ),
            decreases lines.len() - i,
        {
            track = match track.apply_line(lines[i].as_str()) {
                Ok(track) => track,
                Err(e) => {
                    proof {
                        lemma_applied_lines_error(initial_track(), texts, i + 1, texts.len() as int);
                    }
                    return Err(e);
                },
            };
            i += 1;
        }
        Ok(track)
    }
}

/// Once a line has failed, the lines after it change nothing.
pub proof fn lemma_applied_lines_error(track: TrackView, lines: Seq<Seq<char>>, k: int, n: int)
    requires
        0 <= k <= n,
        applied_lines(track, lines, k) is Err,
    ensures
        applied_lines(track, lines, n) == applied_lines(track, lines, k),
    decreases n - k,
{
    if k < n {
        lemma_applied_lines_error(track, lines, k, n - 1);
    }
}

} // verus!
