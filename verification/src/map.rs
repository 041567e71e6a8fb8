//! The course grid, its text format and the advertisement overlay.
//!
//! A map is written as a run-length compressed stream of tile tokens, followed
//! by the separator `,Ads:` and the advertisements, five characters each.
//!
//! The tile stream fills the grid row by row. A token is either an inline tile
//! (`A` or `C` with two code characters, `B` with three) or one of the letters
//! `D` to `I`, which copies a tile decoded earlier, a fixed number of rows up
//! and columns left.

use crate::rle::{compress_chars, compressed, decompress_chars, decompressed, digit_free};
use crate::text::{
    chars_string, find_pattern, index_of_pattern, lemma_find_pattern, numeral_value,
    parse_magnitude, str_chars,
};
use crate::tile::{Tile, TileCreationError};
use crate::vector2d::Vector2D;
use vstd::pervasive::VecAdditionalExecFns;
use vstd::prelude::*;
use vstd::slice::slice_subrange;

verus! {

/// The grid of tiles, row by row, and the advertisements laid over it.
#[derive(Debug)]
pub struct TrackMap {
    pub tiles: Vec<Tile>,
    pub ads: Vec<Ad>,
}

/// The four advertisement formats, in wire order.
#[derive(Debug, PartialEq, Eq, Structural, Copy, Clone)]
pub enum AdSize {
    Small,
    Medium,
    Large,
    Full,
}

/// An advertisement region with the position of its top-left tile.
#[derive(Debug, PartialEq, Eq, Structural, Copy, Clone)]
pub struct Ad {
    pub size: AdSize,
    pub x: i32,
    pub y: i32,
}

/// Why a map or its advertisements could not be read.
#[derive(Debug, PartialEq, Eq, Structural, Copy, Clone)]
pub enum MapError {
    /// A copy token points outside the grid, or a coordinate does.
    OutOfBounds,
    /// A character that the format has no use for at this place.
    Unexpected(char),
    /// The input ended inside a token.
    UnexpectedEol,
    /// The fields of an inline tile do not make a tile.
    TileCreationError(TileCreationError),
    /// A coordinate of an advertisement is not two digits.
    ParseIntError,
}

/// The code of a letter: `A` to `Z` are 0 to 25, `a` to `z` are 26 to 51.
pub open spec fn char_code(c: char) -> Option<int> {
    if 'a' <= c <= 'z' {
        Some(c as int - 'a' as int + 26)
    } else if 'A' <= c <= 'Z' {
        Some(c as int - 'A' as int)
    } else {
        None
    }
}

/// How far back a copy token reaches, as `(rows, columns)`; `(0, 0)` for any
/// other character.
pub open spec fn copy_offset(c: char) -> (int, int) {
    if c == 'D' {
        (0, 1)
    } else if c == 'E' {
        (1, 0)
    } else if c == 'F' {
        (1, 1)
    } else if c == 'G' {
        (0, 2)
    } else if c == 'H' {
        (2, 0)
    } else if c == 'I' {
        (2, 2)
    } else {
        (0, 0)
    }
}

/// Every tile has exactly one of special and shape.
pub open spec fn all_valid(tiles: Seq<Tile>) -> bool {
    forall|i: int| 0 <= i < tiles.len() ==> (#[trigger] tiles[i]).is_valid()
}

/// The grid before anything is decoded: blank tiles throughout.
pub open spec fn blank_grid() -> Seq<Tile> {
    Seq::new(TrackMap::cells() as nat, |i: int| Tile::blank())
}

/// The inline tile whose token starts at `pos` and has `extra` code characters
/// after the token letter, and the position behind the token.
///
/// All characters of the token are fetched before any is looked at, so a
/// token cut short is an unexpected end of input whatever it holds. The
/// foreground of a two-character tile is 0.
pub open spec fn inline_tile(s: Seq<char>, pos: int, extra: int) -> Result<(Tile, int), MapError> {
    if pos + extra >= s.len() {
        Err(MapError::UnexpectedEol)
    } else {
        let a = s[pos + 1];
        let b = s[pos + 2];
        if char_code(a) is None {
            Err(MapError::Unexpected(a))
        } else if char_code(b) is None {
            Err(MapError::Unexpected(b))
        } else if extra == 3 && char_code(s[pos + 3]) is None {
            Err(MapError::Unexpected(s[pos + 3]))
        } else {
            let foreground = if extra == 3 {
                char_code(s[pos + 3])->0
            } else {
                0
            };
            match Tile::spec_from_fields(
                char_code(s[pos])->0,
                char_code(a)->0,
                char_code(b)->0,
                foreground,
            ) {
                Ok(tile) => Ok((tile, pos + 1 + extra)),
                Err(e) => Err(MapError::TileCreationError(e)),
            }
        }
    }
}

/// The tile for cell number `cell` that the token at `pos` gives, and the
/// position behind the token; `tiles` is the grid as decoded so far.
pub open spec fn decode_token(s: Seq<char>, pos: int, tiles: Seq<Tile>, cell: int) -> Result<
    (Tile, int),
    MapError,
> {
    let cur = s[pos];
    if cur == 'A' || cur == 'C' {
        inline_tile(s, pos, 2)
    } else if cur == 'B' {
        inline_tile(s, pos, 3)
    } else if 'D' <= cur <= 'I' {
        let (rows, columns) = copy_offset(cur);
        let x = cell % (TrackMap::WIDTH as int);
        let y = cell / (TrackMap::WIDTH as int);
        if y < rows || x < columns {
            Err(MapError::OutOfBounds)
        } else {
            Ok((tiles[(y - rows) * TrackMap::WIDTH + (x - columns)], pos + 1))
        }
    } else {
        Err(MapError::Unexpected(cur))
    }
}

/// The grid after decoding on from position `pos` of `s` into cell `cell`.
/// Decoding stops without error when the cells or the characters run out
/// between two tokens.
pub open spec fn decode_from(s: Seq<char>, pos: int, tiles: Seq<Tile>, cell: int) -> Result<
    Seq<Tile>,
    MapError,
>
    decreases TrackMap::cells() - cell,
{
    if cell >= TrackMap::cells() || pos >= s.len() || pos < 0 || cell < 0 {
        Ok(tiles)
    } else {
        match decode_token(s, pos, tiles, cell) {
            Err(e) => Err(e),
            Ok((tile, next)) => decode_from(s, next, tiles.update(cell, tile), cell + 1),
        }
    }
}

/// The grid that a decompressed tile stream describes.
pub open spec fn decoded_tiles(s: Seq<char>) -> Result<Seq<Tile>, MapError> {
    decode_from(s, 0, blank_grid(), 0)
}

/// The advertisement format with the given ordinal.
pub open spec fn ad_size_of(code: int) -> Option<AdSize> {
    if code == 0 {
        Some(AdSize::Small)
    } else if code == 1 {
        Some(AdSize::Medium)
    } else if code == 2 {
        Some(AdSize::Large)
    } else if code == 3 {
        Some(AdSize::Full)
    } else {
        None
    }
}

/// The advertisement that one chunk describes: a size letter, then two digits
/// for x and two for y; a sign does not stand for a digit. A chunk is 5
/// characters, or fewer at the end of the input.
pub open spec fn parsed_ad(chunk: Seq<char>) -> Result<Ad, MapError>
    recommends
        1 <= chunk.len() <= 5,
{
    let first = chunk[0];
    if char_code(first) is None {
        Err(MapError::Unexpected(first))
    } else if chunk.len() != 5 {
        Err(MapError::UnexpectedEol)
    } else if ad_size_of(char_code(first)->0) is None {
        Err(MapError::Unexpected(first))
    } else {
        match numeral_value(chunk.subrange(1, 3), i32::MAX as int) {
            None => Err(MapError::ParseIntError),
            Some(x) => match numeral_value(chunk.subrange(3, 5), i32::MAX as int) {
                None => Err(MapError::ParseIntError),
                Some(y) => Ok(Ad { size: ad_size_of(char_code(first)->0)->0, x: x as i32, y: y as i32 }),
            },
        }
    }
}

/// The end of the chunk that starts at `from`.
pub open spec fn chunk_end(s: Seq<char>, from: int) -> int {
    if from + 5 <= s.len() {
        from + 5
    } else {
        s.len() as int
    }
}

/// The advertisements written in `s` from index `from` on, or the error of the
/// first chunk that is malformed.
pub open spec fn parsed_ads_from(s: Seq<char>, from: int) -> Result<Seq<Ad>, MapError>
    decreases s.len() - from,
{
    if from >= s.len() || from < 0 {
        Ok(Seq::empty())
    } else {
        match parsed_ad(s.subrange(from, chunk_end(s, from))) {
            Err(e) => Err(e),
            Ok(ad) => match parsed_ads_from(s, from + 5) {
                Err(e) => Err(e),
                Ok(rest) => Ok(seq![ad] + rest),
            },
        }
    }
}

/// The advertisements that an ad stream describes.
pub open spec fn parsed_ads(s: Seq<char>) -> Result<Seq<Ad>, MapError> {
    parsed_ads_from(s, 0)
}

/// The separator between the tile stream and the ad stream.
pub open spec fn ads_separator() -> Seq<char> {
    seq![',', 'A', 'd', 's', ':']
}

/// The compressed tile stream of a map string: what stands before the first
/// separator, or all of it.
pub open spec fn map_part(s: Seq<char>) -> Seq<char> {
    s.take(find_pattern(s, ads_separator(), 0))
}

/// The ad stream of a map string: what stands between the first separator and
/// the second, or the end; empty when there is no separator.
pub open spec fn ads_part(s: Seq<char>) -> Seq<char> {
    let i = find_pattern(s, ads_separator(), 0);
    if 0 <= i < s.len() {
        let rest = s.skip(i + 5);
        rest.take(find_pattern(rest, ads_separator(), 0))
    } else {
        Seq::empty()
    }
}

/// What a map string describes: the grid and the advertisements. An error in
/// the tile stream comes before one in the ad stream.
pub open spec fn parsed_map(s: Seq<char>) -> Result<(Seq<Tile>, Seq<Ad>), MapError> {
    match decoded_tiles(decompressed(map_part(s))) {
        Err(e) => Err(e),
        Ok(tiles) => match parsed_ads(ads_part(s)) {
            Err(e) => Err(e),
            Ok(ads) => Ok((tiles, ads)),
        },
    }
}

impl AdSize {
    /// Width and height of the format in tiles.
    pub open spec fn footprint(self) -> (int, int) {
        match self {
            AdSize::Small => (3, 2),
            AdSize::Medium => (5, 3),
            AdSize::Large => (8, 5),
            AdSize::Full => (49, 25),
        }
    }

    pub fn get_ad_size(size: &Self) -> (v: Vector2D<i32>)
        ensures
            (v.x as int, v.y as int) == size.footprint(),
    {
        match size {
            AdSize::Small => Vector2D { x: 3, y: 2 },
            AdSize::Medium => Vector2D { x: 5, y: 3 },
            AdSize::Large => Vector2D { x: 8, y: 5 },
            AdSize::Full => Vector2D { x: 49, y: 25 },
        }
    }

    /// The format with the given ordinal.
    pub fn from_i32(code: i32) -> (r: Option<AdSize>)
        ensures
            r == ad_size_of(code as int),
    {
        match code {
            0 => Some(AdSize::Small),
            1 => Some(AdSize::Medium),
            2 => Some(AdSize::Large),
            3 => Some(AdSize::Full),
            _ => None,
        }
    }
}

impl Ad {
    /// Reads one chunk of an ad stream.
    pub fn from_chunk(chunk: &[char]) -> (r: Result<Ad, MapError>)
        requires
            1 <= chunk.len() <= 5,
        ensures
            r == parsed_ad(chunk@),
    {
        let first = chunk[0];
        let ad_code = match TrackMap::char_to_code(first) {
            Some(code) => code,
            None => {
                return Err(MapError::Unexpected(first));
            },
        };
        if chunk.len() != 5 {
            return Err(MapError::UnexpectedEol);
        }
        let size = match AdSize::from_i32(ad_code) {
            Some(size) => size,
            None => {
                return Err(MapError::Unexpected(first));
            },
        };
        let x = match parse_magnitude(slice_subrange(chunk, 1, 3), 0x7fff_ffff) {
            Some(x) => x as i32,
            None => {
                return Err(MapError::ParseIntError);
            },
        };
        let y = match parse_magnitude(slice_subrange(chunk, 3, 5), 0x7fff_ffff) {
            Some(y) => y as i32,
            None => {
                return Err(MapError::ParseIntError);
            },
        };
        Ok(Ad { size, x, y })
    }

    /// Reads an ad stream: chunks of five characters, one advertisement each.
    pub fn from_string(input: &str) -> (r: Result<Vec<Ad>, MapError>)
        ensures
            match r {
                Ok(ads) => parsed_ads(input@) == Ok::<Seq<Ad>, MapError>(ads@),
                Err(e) => parsed_ads(input@) == Err::<Seq<Ad>, MapError>(e),
            },
    {
        let chars = str_chars(input);
        Ad::from_chars(chars.as_slice())
    }

    /// Reads an ad stream given as characters.
    pub fn from_chars(input: &[char]) -> (r: Result<Vec<Ad>, MapError>)
        ensures
            match r {
                Ok(ads) => parsed_ads(input@) == Ok::<Seq<Ad>, MapError>(ads@),
                Err(e) => parsed_ads(input@) == Err::<Seq<Ad>, MapError>(e),
            },
    {
        let n = input.len();
        let mut ads: Vec<Ad> = Vec::new();
        let mut from: usize = 0;
        while from < n
            invariant
                n == input.len(),
                from <= n,
                parsed_ads(input@) == match parsed_ads_from(input@, from as int) {
                    Ok(rest) => Ok::<Seq<Ad>, MapError>(ads@ + rest),
                    Err(e) => Err(e),
                },
            decreases n - from,
        {
            let end = if n - from >= 5 {
                from + 5
            } else {
                n
            };
            let ad = match Ad::from_chunk(slice_subrange(input, from, end)) {
                Ok(ad) => ad,
                Err(e) => {
                    return Err(e);
                },
            };
            proof {
                match parsed_ads_from(input@, from + 5) {
                    Ok(rest) => {
                        assert(ads@.push(ad) + rest =~= ads@ + (seq![ad] + rest));
                    },
                    Err(_) => {},
                }
            }
            ads.push(ad);
            from = end;
        }
        assert(ads@ + Seq::<Ad>::empty() =~= ads@);
        Ok(ads)
    }
}

impl TrackMap {
    pub const HEIGHT: usize = 25;

    pub const TILESIZE: usize = 15;

    pub const WIDTH: usize = 49;

    /// Number of tiles in a grid.
    pub open spec fn cells() -> int {
        TrackMap::WIDTH * TrackMap::HEIGHT
    }

    /// The grid is complete: one tile for each cell.
    pub open spec fn wf(&self) -> bool {
        self.tiles@.len() == TrackMap::cells()
    }

    /// The tile at column `x` of row `y`, for a position on the grid.
    pub open spec fn tile_at(&self, x: int, y: int) -> Tile
        recommends
            0 <= x < TrackMap::WIDTH,
            0 <= y < TrackMap::HEIGHT,
    {
        self.tiles@[y * TrackMap::WIDTH + x]
    }

    /// A complete grid of blank tiles, without advertisements.
    pub fn new() -> (map: TrackMap)
        ensures
            map.wf(),
            all_valid(map.tiles@),
            map.tiles@ == blank_grid(),
            map.ads@.len() == 0,
    {
        let mut tiles: Vec<Tile> = Vec::new();
        let mut i: usize = 0;
        while i < TrackMap::WIDTH * TrackMap::HEIGHT
            invariant
                i <= TrackMap::cells(),
                tiles@.len() == i,
                forall|j: int| 0 <= j < i ==> tiles@[j] == Tile::blank(),
            decreases TrackMap::cells() - i,
        {
            tiles.push(Tile::default());
            i += 1;
        }
        assert(tiles@ =~= blank_grid());
        TrackMap { tiles, ads: Vec::new() }
    }

    /// Reads a map string: the compressed tile stream, then the separator and
    /// the ad stream if there are any.
    pub fn from_string(input: &str) -> (r: Result<TrackMap, MapError>)
        ensures
            match r {
                Ok(map) => map.wf() && all_valid(map.tiles@) && parsed_map(input@) == Ok::<
                    (Seq<Tile>, Seq<Ad>),
                    MapError,
                >((map.tiles@, map.ads@)),
                Err(e) => parsed_map(input@) == Err::<(Seq<Tile>, Seq<Ad>), MapError>(e),
            },
    {
        let chars = str_chars(input);
        TrackMap::from_chars(chars.as_slice())
    }

    /// Reads a map string given as characters.
    pub fn from_chars(input: &[char]) -> (r: Result<TrackMap, MapError>)
        ensures
            match r {
                Ok(map) => map.wf() && all_valid(map.tiles@) && parsed_map(input@) == Ok::<
                    (Seq<Tile>, Seq<Ad>),
                    MapError,
                >((map.tiles@, map.ads@)),
                Err(e) => parsed_map(input@) == Err::<(Seq<Tile>, Seq<Ad>), MapError>(e),
            },
    {
        let separator: [char; 5] = [',', 'A', 'd', 's', ':'];
        assert(separator@ =~= ads_separator());
        let n = input.len();
        let i = index_of_pattern(input, separator.as_slice(), 0);
        let map_chars = slice_subrange(input, 0, i);
        assert(map_chars@ =~= map_part(input@));
        let decompressed = decompress_chars(map_chars);
        let mut map = match TrackMap::decode_chars(decompressed.as_slice()) {
            Ok(map) => map,
            Err(e) => {
                return Err(e);
            },
        };
        let ads = if i < n {
            proof {
                lemma_find_pattern(input@, ads_separator(), 0);
            }
            let rest = slice_subrange(input, i + 5, n);
            assert(rest@ =~= input@.skip(i + 5));
            let j = index_of_pattern(rest, separator.as_slice(), 0);
            let ad_chars = slice_subrange(rest, 0, j);
            assert(ad_chars@ =~= ads_part(input@));
            Ad::from_chars(ad_chars)
        } else {
            let ad_chars = slice_subrange(input, 0, 0);
            assert(ad_chars@ =~= ads_part(input@));
            Ad::from_chars(ad_chars)
        };
        match ads {
            Ok(ads) => {
                map.ads = ads;
                Ok(map)
            },
            Err(e) => Err(e),
        }
    }

    /// Expands run-length compressed text: a character is repeated as often as
    /// the digits before it say, once when there are none.
    pub fn decompress(input: &str) -> (output: String)
        ensures
            output@ == decompressed(input@),
    {
        let chars = str_chars(input);
        let out = decompress_chars(chars.as_slice());
        chars_string(out.as_slice())
    }

    /// Compresses text: each run of equal characters becomes its length, when
    /// above one, and the character.
    pub fn compress(input: &str) -> (output: String)
        ensures
            output@ == compressed(input@),
            digit_free(input@) ==> decompressed(output@) == input@,
    {
        let chars = str_chars(input);
        let out = compress_chars(chars.as_slice());
        chars_string(out.as_slice())
    }

    /// Puts `tile` at column `x` of row `y`; refuses a position off the grid
    /// and then leaves the map as it is.
    pub fn set_tile(&mut self, x: usize, y: usize, tile: Tile) -> (r: Result<(), MapError>)
        requires
            old(self).wf(),
        ensures
            final(self).wf(),
            final(self).ads == old(self).ads,
            x < TrackMap::WIDTH && y < TrackMap::HEIGHT ==> r is Ok && final(self).tiles@ == old(
                self,
            ).tiles@.update(y * TrackMap::WIDTH + x, tile),
            !(x < TrackMap::WIDTH && y < TrackMap::HEIGHT) ==> r == Err::<(), MapError>(
                MapError::OutOfBounds,
            ) && final(self).tiles@ == old(self).tiles@,
    {
        if x < TrackMap::WIDTH && y < TrackMap::HEIGHT {
            self.tiles.set(y * TrackMap::WIDTH + x, tile);
            Ok(())
        } else {
            Err(MapError::OutOfBounds)
        }
    }

    /// The tile at column `x` of row `y`, or `None` off the grid.
    pub fn get_tile(&self, x: usize, y: usize) -> (r: Option<Tile>)
        requires
            self.wf(),
        ensures
            r == if x < TrackMap::WIDTH && y < TrackMap::HEIGHT {
                Some(self.tile_at(x as int, y as int))
            } else {
                None
            },
    {
        if x < TrackMap::WIDTH && y < TrackMap::HEIGHT {
            Some(self.tiles[y * TrackMap::WIDTH + x])
        } else {
            None
        }
    }

    /// Column and row of the cell with the given number.
    pub fn index_to_xy(index: usize) -> (xy: (usize, usize))
        ensures
            xy.0 == index % TrackMap::WIDTH,
            xy.1 == index / TrackMap::WIDTH,
            index == xy.1 * TrackMap::WIDTH + xy.0,
    {
        let y = index / (TrackMap::WIDTH);
        let x = index % (TrackMap::WIDTH);
        (x, y)
    }

    /// Number of the cell at column `x` of row `y`.
    pub fn xy_to_index(x: usize, y: usize) -> (index: usize)
        requires
            y * TrackMap::WIDTH + x <= usize::MAX,
        ensures
            index == y * TrackMap::WIDTH + x,
    {
        y * TrackMap::WIDTH + x
    }

    /// Decodes a decompressed tile stream into a grid without advertisements.
    pub fn decode(s: String) -> (r: Result<TrackMap, MapError>)
        ensures
            match r {
                Ok(map) => map.wf() && all_valid(map.tiles@) && map.ads@.len() == 0
                    && decoded_tiles(s@) == Ok::<Seq<Tile>, MapError>(map.tiles@),
                Err(e) => decoded_tiles(s@) == Err::<Seq<Tile>, MapError>(e),
            },
    {
        let chars = str_chars(s.as_str());
        TrackMap::decode_chars(chars.as_slice())
    }

    /// Decodes a tile stream given as characters.
    pub fn decode_chars(s: &[char]) -> (r: Result<TrackMap, MapError>)
        ensures
            match r {
                Ok(map) => map.wf() && all_valid(map.tiles@) && map.ads@.len() == 0
                    && decoded_tiles(s@) == Ok::<Seq<Tile>, MapError>(map.tiles@),
                Err(e) => decoded_tiles(s@) == Err::<Seq<Tile>, MapError>(e),
            },
    {
        let mut map = TrackMap::new();
        let n = s.len();
        let mut pos: usize = 0;
        let mut cell: usize = 0;
        while cell < TrackMap::WIDTH * TrackMap::HEIGHT && pos < n
            invariant
                n == s.len(),
                pos <= n,
                cell <= TrackMap::cells(),
                map.wf(),
                all_valid(map.tiles@),
                map.ads@.len() == 0,
                decoded_tiles(s@) == decode_from(s@, pos as int, map.tiles@, cell as int),
            decreases TrackMap::cells() - cell,
        {
            let (x, y) = TrackMap::index_to_xy(cell);
            let (tile, next) = match TrackMap::read_token(s, pos, &map, x, y) {
                Ok(found) => found,
                Err(e) => {
                    return Err(e);
                },
            };
            match map.set_tile(x, y, tile) {
                Ok(()) => {},
                Err(e) => {
                    return Err(e);
                },
            }
            pos = next;
            cell += 1;
        }
        Ok(map)
    }

    /// Reads the token at `pos` for the cell at column `x` of row `y`.
    fn read_token(s: &[char], pos: usize, map: &TrackMap, x: usize, y: usize) -> (r: Result<
        (Tile, usize),
        MapError,
    >)
        requires
            pos < s.len(),
            map.wf(),
            x < TrackMap::WIDTH,
            y < TrackMap::HEIGHT,
        ensures
            match r {
                Ok((tile, next)) => decode_token(s@, pos as int, map.tiles@, y * TrackMap::WIDTH + x)
                    == Ok::<(Tile, int), MapError>((tile, next as int)) && pos < next <= s.len() && (
                all_valid(map.tiles@) ==> tile.is_valid()),
                Err(e) => decode_token(s@, pos as int, map.tiles@, y * TrackMap::WIDTH + x) == Err::<
                    (Tile, int),
                    MapError,
                >(e),
            },
    {
        let cur = s[pos];
        if cur == 'A' || cur == 'C' {
            TrackMap::read_inline(s, pos, 2)
        } else if cur == 'B' {
            TrackMap::read_inline(s, pos, 3)
        } else if cur >= 'D' && cur <= 'I' {
            let (offset_y, offset_x) = TrackMap::get_offset(cur);
            if y < offset_y || x < offset_x {
                return Err(MapError::OutOfBounds);
            }
            let new_y = y - offset_y;
            let new_x = x - offset_x;
            assert((y * TrackMap::WIDTH + x) % (TrackMap::WIDTH as int) == x && (y
                * TrackMap::WIDTH + x) / (TrackMap::WIDTH as int) == y);
            match map.get_tile(new_x, new_y) {
                Some(tile) => Ok((tile, pos + 1)),
                None => Err(MapError::OutOfBounds),
            }
        } else {
            Err(MapError::Unexpected(cur))
        }
    }

    /// Reads an inline tile: the token letter at `pos` and `extra` code
    /// characters.
    fn read_inline(s: &[char], pos: usize, extra: usize) -> (r: Result<(Tile, usize), MapError>)
        requires
            pos < s.len(),
            extra == 2 || extra == 3,
            char_code(s@[pos as int]) is Some,
        ensures
            match r {
                Ok((tile, next)) => inline_tile(s@, pos as int, extra as int) == Ok::<
                    (Tile, int),
                    MapError,
                >((tile, next as int)) && pos < next <= s.len() && tile.is_valid(),
                Err(e) => inline_tile(s@, pos as int, extra as int) == Err::<(Tile, int), MapError>(
                    e,
                ),
            },
    {
        if s.len() - pos <= extra {
            return Err(MapError::UnexpectedEol);
        }
        let a = s[pos + 1];
        let b = s[pos + 2];
        let a_code = match TrackMap::char_to_code(a) {
            Some(code) => code,
            None => {
                return Err(MapError::Unexpected(a));
            },
        };
        let b_code = match TrackMap::char_to_code(b) {
            Some(code) => code,
            None => {
                return Err(MapError::Unexpected(b));
            },
        };
        let c_code = if extra == 3 {
            let c = s[pos + 3];
            match TrackMap::char_to_code(c) {
                Some(code) => code,
                None => {
                    return Err(MapError::Unexpected(c));
                },
            }
        } else {
            0
        };
        let cur = match TrackMap::char_to_code(s[pos]) {
            Some(code) => code,
            None => {
                return Err(MapError::Unexpected(b));
            },
        };
        match Tile::from_i32s(cur, a_code, b_code, c_code) {
            Ok(tile) => Ok((tile, pos + 1 + extra)),
            Err(e) => Err(MapError::TileCreationError(e)),
        }
    }

    /// The code of a letter, `None` for any other character.
    pub fn char_to_code(c: char) -> (r: Option<i32>)
        ensures
            match r {
                Some(code) => char_code(c) == Some(code as int) && 0 <= code <= 51,
                None => char_code(c) is None,
            },
    {
        if c >= 'a' && c <= 'z' {
            Some((c as u32 - 'a' as u32) as i32 + 26)
        } else if c >= 'A' && c <= 'Z' {
            Some((c as u32 - 'A' as u32) as i32)
        } else {
            None
        }
    }

    /// How far back a copy token reaches, as `(rows, columns)`.
    pub fn get_offset(cur: char) -> (offset: (usize, usize))
        ensures
            (offset.0 as int, offset.1 as int) == copy_offset(cur),
            offset.0 <= 2,
            offset.1 <= 2,
    {
        match cur {
            'D' => (0, 1),
            'E' => (1, 0),
            'F' => (1, 1),
            'G' => (0, 2),
            'H' => (2, 0),
            'I' => (2, 2),
            _ => (0, 0),
        }
    }
}

impl Default for TrackMap {
    /// The map of a track that has none: no tiles and no advertisements.
    fn default() -> (map: TrackMap)
        ensures
            map.tiles@.len() == 0,
            map.ads@.len() == 0,
    {
        TrackMap { tiles: Vec::new(), ads: Vec::new() }
    }
}

/// A copy token in the first column that reaches to the left fails as out of
/// bounds, and so does one in the first row that reaches up; in particular `D`
/// fails on every cell with x = 0.
pub proof fn lemma_copy_out_of_bounds(s: Seq<char>, pos: int, tiles: Seq<Tile>, cell: int)
    requires
        0 <= pos < s.len(),
        0 <= cell < TrackMap::cells(),
        'D' <= s[pos] <= 'I',
    ensures
        decode_token(s, pos, tiles, cell) == Err::<(Tile, int), MapError>(MapError::OutOfBounds)
            <==> (cell / 49 < copy_offset(s[pos]).0 || cell % 49 < copy_offset(s[pos]).1),
        s[pos] == 'D' && cell % 49 == 0 ==> decode_token(s, pos, tiles, cell) == Err::<
            (Tile, int),
            MapError,
        >(MapError::OutOfBounds),
{
}

/// A token that is read gives a valid tile, provided the tiles decoded so far
/// are valid, and moves on in the stream. A copy token takes its tile from a
/// cell that comes before the one it fills.
pub proof fn lemma_token_read(s: Seq<char>, pos: int, tiles: Seq<Tile>, cell: int)
    requires
        0 <= pos < s.len(),
        0 <= cell < TrackMap::cells(),
        tiles.len() == TrackMap::cells(),
        all_valid(tiles),
        decode_token(s, pos, tiles, cell) is Ok,
    ensures
        decode_token(s, pos, tiles, cell)->Ok_0.0.is_valid(),
        pos < decode_token(s, pos, tiles, cell)->Ok_0.1 <= s.len(),
        'D' <= s[pos] <= 'I' ==> exists|source: int|
            0 <= source < cell && decode_token(s, pos, tiles, cell)->Ok_0.0 == tiles[source],
{
    let cur = s[pos];
    if 'D' <= cur <= 'I' {
        let (rows, columns) = copy_offset(cur);
        let x = cell % 49;
        let y = cell / 49;
        let source = (y - rows) * 49 + (x - columns);
        assert(0 <= source < cell);
        assert(decode_token(s, pos, tiles, cell)->Ok_0.0 == tiles[source]);
    }
}

/// Decoding keeps the grid complete and its tiles valid, and leaves the cells
/// that were filled before untouched.
pub proof fn lemma_decode_keeps_grid(s: Seq<char>, pos: int, tiles: Seq<Tile>, cell: int)
    requires
        0 <= pos,
        0 <= cell,
        tiles.len() == TrackMap::cells(),
        all_valid(tiles),
        decode_from(s, pos, tiles, cell) is Ok,
    ensures
        decode_from(s, pos, tiles, cell)->Ok_0.len() == TrackMap::cells(),
        all_valid(decode_from(s, pos, tiles, cell)->Ok_0),
        forall|i: int|
            0 <= i < cell && i < TrackMap::cells() ==> decode_from(s, pos, tiles, cell)->Ok_0[i]
                == tiles[i],
    decreases TrackMap::cells() - cell,
{
    if cell < TrackMap::cells() && pos < s.len() {
        lemma_token_read(s, pos, tiles, cell);
        let (tile, next) = decode_token(s, pos, tiles, cell)->Ok_0;
        let updated = tiles.update(cell, tile);
        lemma_decode_keeps_grid(s, next, updated, cell + 1);
        let out = decode_from(s, pos, tiles, cell)->Ok_0;
        assert forall|i: int| 0 <= i < cell implies out[i] == tiles[i] by {
            assert(out[i] == updated[i]);
        }
    }
}

/// Every tile of a decoded grid has exactly one of special and shape, and the
/// grid is complete.
pub proof fn lemma_decoded_tiles_valid(s: Seq<char>)
    requires
        decoded_tiles(s) is Ok,
    ensures
        decoded_tiles(s)->Ok_0.len() == TrackMap::cells(),
        all_valid(decoded_tiles(s)->Ok_0),
{
    lemma_decode_keeps_grid(s, 0, blank_grid(), 0);
}

/// A stream whose token for some cell fails makes the whole decoding fail with
/// that error, however the stream goes on.
pub proof fn lemma_decode_fails_at(s: Seq<char>, pos: int, tiles: Seq<Tile>, cell: int)
    requires
        0 <= pos < s.len(),
        0 <= cell < TrackMap::cells(),
        decode_token(s, pos, tiles, cell) is Err,
    ensures
        decode_from(s, pos, tiles, cell) == Err::<Seq<Tile>, MapError>(
            decode_token(s, pos, tiles, cell)->Err_0,
        ),
{
}

/// The letters `A` to `Z` have the codes 0 to 25 and `a` to `z` the codes 26
/// to 51; no other character has a code.
pub proof fn lemma_char_code(c: char)
    ensures
        char_code('A') == Some(0int),
        char_code('Z') == Some(25int),
        char_code('a') == Some(26int),
        char_code('z') == Some(51int),
        char_code(c) is Some <==> ('A' <= c <= 'Z' || 'a' <= c <= 'z'),
        char_code(c) matches Some(code) ==> 0 <= code <= 51,
{
}

} // verus!
