//! The course at the resolution of single units, as the physics reads it.
//!
//! Every tile covers 15 by 15 units. Which of a tile's materials a unit shows
//! is decided by the sprite of the tile's shape or special: a sheet of masks,
//! one per ordinal, that say for each unit of a tile whether the sprite covers
//! it.

use crate::array2diter::{lemma_position_of_cell, Array2DRangeIterator};
use crate::map::TrackMap;
use crate::tile::{
    lemma_shape_ordinal_roundtrip, lemma_special_ordinal_roundtrip, Element, Shape, Special, Tile,
};
use image::DynamicImage;
use image::GenericImageView;
use image::Pixel;
use vstd::prelude::*;

verus! {

/// An image of the `image` crate, decoded and held in memory.
#[verifier::external_type_specification]
#[verifier::external_body]
pub struct ExDynamicImage(image::DynamicImage);

/// The error type of the `image` crate.
#[verifier::external_type_specification]
#[verifier::external_body]
pub struct ExImageError(image::ImageError);

/// The alpha value of every pixel of an image, row by row from the top:
/// `image_alpha(image)[y][x]`.
pub uninterp spec fn image_alpha(image: DynamicImage) -> Seq<Seq<u8>>;

/// The width of an image in pixels.
pub uninterp spec fn image_width(image: DynamicImage) -> nat;

/// `GenericImageView::dimensions` of an image: its width and height. There
/// are as many rows of pixels as the height says, each as long as the width.
#[verifier::external_body]
fn image_dimensions(image: &DynamicImage) -> (d: (u32, u32))
    ensures
        d.0 == image_width(*image),
        d.1 == image_alpha(*image).len(),
        forall|y: int| 0 <= y < d.1 ==> (#[trigger] image_alpha(*image)[y]).len() == d.0,
{
    image.dimensions()
}

/// `GenericImageView::get_pixel` of an image, of whose colour the alpha
/// channel is taken. The position must lie within the image.
#[verifier::external_body]
fn pixel_alpha(image: &DynamicImage, x: u32, y: u32) -> (alpha: u8)
    requires
        x < image_width(*image),
        y < image_alpha(*image).len(),
    ensures
        alpha == image_alpha(*image)[y as int][x as int],
{
    image.get_pixel(x, y).to_rgba()[3]
}

/// The course unit by unit, row by row.
pub struct GameMap {
    pub tiles: Vec<GameMapTile>,
}

/// What one unit of the course shows.
#[derive(Debug, PartialEq, Eq, Structural, Copy, Clone)]
pub enum GameMapTile {
    Special(Special),
    Element(Element),
}

/// Why sprites could not be loaded.
#[derive(Debug)]
pub enum AssetError {
    /// The image could not be read.
    ImageError(image::ImageError),
    /// A pixel position does not fit the image's coordinates.
    TryFromIntError(std::num::TryFromIntError),
}

/// A sheet of sprites: for each, the mask of the units it covers, row by row.
pub struct Asset {
    sprites: Vec<Vec<bool>>,
}

/// The two sheets that the course needs.
pub struct Assets {
    specials: Asset,
    shapes: Asset,
}

/// Units in the mask of one sprite.
pub open spec fn mask_len() -> int {
    TrackMap::TILESIZE * TrackMap::TILESIZE
}

/// The mask of sprite number `i` on a sheet with the given alpha values: the
/// sprites stand side by side in the top rows, and a unit is covered where the
/// pixel is not fully transparent.
pub open spec fn sprite_mask(alpha: Seq<Seq<u8>>, i: int) -> Seq<bool> {
    Seq::new(mask_len() as nat, |p: int| alpha[p / 15][i * 15 + p % 15] != 0)
}

/// The image is large enough to hold `len` sprites.
pub open spec fn holds_sprites(image: DynamicImage, len: int) -> bool {
    len > 0 ==> image_width(image) >= len * 15 && image_alpha(image).len() >= 15
}

/// What a unit of a tile shows, given whether the sprite of the tile's shape
/// and that of its special cover the unit.
///
/// A tile without a special shows its foreground where the shape covers the
/// unit and its background elsewhere. Of the specials, fake holes, teleport
/// exits and repelling magnets show the background; breakable blocks fill the
/// tile; an attracting magnet fills it except over water, acid and swamp,
/// which show through; every other special shows where its sprite covers the
/// unit, and the background elsewhere.
pub open spec fn unit_of_tile(tile: Tile, shape_covers: bool, special_covers: bool) -> GameMapTile {
    match tile.special {
        None => if shape_covers {
            GameMapTile::Element(tile.foreground)
        } else {
            GameMapTile::Element(tile.background)
        },
        Some(special) => if special == Special::FakeHole || special == Special::RedTeleportExit
            || special == Special::BlueTeleportExit || special == Special::GreenTeleportExit
            || special == Special::YellowTeleportExit || special == Special::MagnetRepel {
            GameMapTile::Element(tile.background)
        } else if special == Special::HalfBreakable || special == Special::QuaterBreakable
            || special == Special::FullBreakable || special == Special::ThreeQuaterBreakable {
            GameMapTile::Special(special)
        } else if special == Special::MagnetAttract {
            if tile.background == Element::Acid || tile.background == Element::Water
                || tile.background == Element::AcidSwamp || tile.background
                == Element::WaterSwamp {
                GameMapTile::Element(tile.background)
            } else {
                GameMapTile::Special(special)
            }
        } else if special_covers {
            GameMapTile::Special(special)
        } else {
            GameMapTile::Element(tile.background)
        },
    }
}

impl Asset {
    /// The masks of the sheet, one per sprite.
    pub closed spec fn masks(&self) -> Seq<Seq<bool>> {
        Seq::new(self.sprites@.len(), |i: int| self.sprites@[i]@)
    }

    /// Every mask has one entry for each unit of a tile.
    pub open spec fn wf(&self) -> bool {
        forall|i: int| 0 <= i < self.masks().len() ==> (#[trigger] self.masks()[i]).len() == mask_len()
    }

    /// Whether sprite `i` covers the unit at column `x` of row `y`.
    pub open spec fn covers(&self, i: int, x: int, y: int) -> bool {
        self.masks()[i][y * 15 + x]
    }

    /// A sheet with the given masks.
    pub fn from_sprites(sprites: Vec<Vec<bool>>) -> (asset: Asset)
        ensures
            asset.masks() == Seq::new(sprites@.len(), |i: int| sprites@[i]@),
    {
        Asset { sprites }
    }

    /// Reads the first `len` sprites off an image.
    pub fn from_image(image: &DynamicImage, len: usize) -> (r: Result<Asset, AssetError>)
        requires
            holds_sprites(*image, len as int),
        ensures
            r matches Ok(asset) && asset.wf() && asset.masks() == Seq::new(
                len as nat,
                |i: int| sprite_mask(image_alpha(*image), i),
            ),
    {
        let mut sprites: Vec<Vec<bool>> = Vec::new();
        let dimensions = image_dimensions(image);
        let ghost alpha = image_alpha(*image);
        let mut i: usize = 0;
        while i < len
            invariant
                i <= len,
                holds_sprites(*image, len as int),
                alpha == image_alpha(*image),
                dimensions.0 == image_width(*image),
                dimensions.1 == alpha.len(),
                forall|y: int| 0 <= y < dimensions.1 ==> (#[trigger] alpha[y]).len() == dimensions.0,
                sprites@.len() == i,
                forall|k: int| 0 <= k < i ==> (#[trigger] sprites@[k])@ == sprite_mask(alpha, k),
            decreases len - i,
        {
            let mut sprite: Vec<bool> = Vec::new();
            let mut y: usize = 0;
            while y < TrackMap::TILESIZE
                invariant
                    i < len,
                    y <= 15,
                    holds_sprites(*image, len as int),
                    alpha == image_alpha(*image),
                    dimensions.0 == image_width(*image),
                    dimensions.1 == alpha.len(),
                    sprite@.len() == y * 15,
                    forall|p: int|
                        0 <= p < sprite@.len() ==> #[trigger] sprite@[p] == (alpha[p / 15][i * 15 + p
                            % 15] != 0),
                decreases 15 - y,
            {
                let mut x: usize = 0;
                while x < TrackMap::TILESIZE
                    invariant
                        i < len,
                        y < 15,
                        x <= 15,
                        holds_sprites(*image, len as int),
                        alpha == image_alpha(*image),
                        dimensions.0 == image_width(*image),
                        dimensions.1 == alpha.len(),
                        sprite@.len() == y * 15 + x,
                        forall|p: int|
                            0 <= p < sprite@.len() ==> #[trigger] sprite@[p] == (alpha[p / 15][i * 15
                                + p % 15] != 0),
                    decreases 15 - x,
                {
                    let x_pos: u32 = match u32::try_from(i * TrackMap::TILESIZE + x) {
                        Ok(x_pos) => x_pos,
                        Err(e) => {
                            return Err(AssetError::TryFromIntError(e));
                        },
                    };
                    let y_pos: u32 = match u32::try_from(y) {
                        Ok(y_pos) => y_pos,
                        Err(e) => {
                            return Err(AssetError::TryFromIntError(e));
                        },
                    };
                    let alpha_value = pixel_alpha(image, x_pos, y_pos);
                    sprite.push(alpha_value != 0);
                    x += 1;
                }
                y += 1;
            }
            assert(sprite@ =~= sprite_mask(alpha, i as int));
            sprites.push(sprite);
            i += 1;
        }
        let asset = Asset { sprites };
        assert(asset.masks() =~= Seq::new(len as nat, |i: int| sprite_mask(alpha, i)));
        Ok(asset)
    }

    /// Reads the first `len` sprites off an image, where the image is large
    /// enough to hold them: `len` sprites side by side, one tile high. `None`
    /// where it is not.
    pub fn from_image_checked(image: &DynamicImage, len: usize) -> (r: Option<
        Result<Asset, AssetError>,
    >)
        ensures
            r is Some <==> holds_sprites(*image, len as int),
            r matches Some(loaded) ==> loaded matches Ok(asset) && asset.wf() && asset.masks()
                == Seq::new(len as nat, |i: int| sprite_mask(image_alpha(*image), i)),
    {
        let (width, height) = image_dimensions(image);
        let fits = len == 0 || (height >= 15 && len <= (width / 15) as usize);
        if fits {
            Some(Asset::from_image(image, len))
        } else {
            None
        }
    }

    /// The mask of sprite `i`, or `None` where the sheet has no such sprite.
    pub fn get(&self, i: usize) -> (r: Option<Vec<bool>>)
        ensures
            match r {
                Some(mask) => i < self.masks().len() && mask@ == self.masks()[i as int],
                None => i >= self.masks().len(),
            },
    {
        if i < self.sprites.len() {
            let mask = self.sprites[i].clone();
            assert(mask@ =~= self.sprites@[i as int]@);
            Some(mask)
        } else {
            None
        }
    }

    /// Whether sprite `i` covers the unit at column `x` of row `y`.
    pub fn get_bool_xy(&self, i: usize, x: usize, y: usize) -> (b: bool)
        requires
            i < self.masks().len(),
            y * 15 + x < self.masks()[i as int].len(),
        ensures
            b == self.covers(i as int, x as int, y as int),
    {
        let sprite = &self.sprites[i];
        let len = sprite.len();
        assert(len == self.masks()[i as int].len());
        let pix = y * TrackMap::TILESIZE + x;
        sprite[pix]
    }
}

impl Assets {
    /// Number of sprites on each sheet: one for each special, and one for each
    /// shape.
    pub const SPRITES: usize = 28;

    /// The sheet of the specials.
    pub closed spec fn special_sprites(&self) -> Asset {
        self.specials
    }

    /// The sheet of the shapes.
    pub closed spec fn shape_sprites(&self) -> Asset {
        self.shapes
    }

    /// Both sheets are complete: a mask for every special and every shape.
    pub open spec fn wf(&self) -> bool {
        &&& self.special_sprites().wf()
        &&& self.shape_sprites().wf()
        &&& self.special_sprites().masks().len() >= Assets::SPRITES
        &&& self.shape_sprites().masks().len() >= Assets::SPRITES
    }

    /// Puts the two sheets together.
    pub fn new(specials: Asset, shapes: Asset) -> (assets: Assets)
        ensures
            assets.special_sprites() == specials,
            assets.shape_sprites() == shapes,
    {
        Assets { specials, shapes }
    }
}

impl GameMap {
    pub const HEIGHT: usize = 375;

    pub const WIDTH: usize = 735;

    /// Number of units of the course.
    pub open spec fn units() -> int {
        GameMap::WIDTH * GameMap::HEIGHT
    }

    /// The course is complete: one entry for each unit.
    pub open spec fn wf(&self) -> bool {
        self.tiles@.len() == GameMap::units()
    }

    /// What the unit at column `x` of row `y` within `tile` shows.
    pub open spec fn unit_shown(tile: Tile, assets: Assets, x: int, y: int) -> GameMapTile
        recommends
            tile.is_populated(),
    {
        unit_of_tile(
            tile,
            tile.shape is Some && assets.shape_sprites().covers(tile.shape->0.ordinal(), x, y),
            tile.special is Some && assets.special_sprites().covers(
                tile.special->0.ordinal(),
                x,
                y,
            ),
        )
    }

    /// What the unit at column `x` of row `y` within `tile` shows.
    pub fn maptile_from_tile(tile: &Tile, assets: &Assets, x: usize, y: usize) -> (r: GameMapTile)
        requires
            tile.is_populated(),
            assets.wf(),
            x < TrackMap::TILESIZE,
            y < TrackMap::TILESIZE,
        ensures
            r == GameMap::unit_shown(*tile, *assets, x as int, y as int),
    {
        match tile.special {
            None => {
                let shape = match tile.shape {
                    Some(shape) => shape,
                    None => Shape::Blank,
                };
                proof {
                    lemma_shape_ordinal_roundtrip(shape);
                }
                let i = shape.to_i32() as usize;
                match assets.shapes.get_bool_xy(i, x, y) {
                    true => GameMapTile::Element(tile.foreground),
                    false => GameMapTile::Element(tile.background),
                }
            },
            Some(special) => {
                match special {
                    //These will use background tile in friction calcs and etc
                    Special::FakeHole
                    | Special::RedTeleportExit
                    | Special::BlueTeleportExit
                    | Special::GreenTeleportExit
                    | Special::YellowTeleportExit
                    | Special::MagnetRepel => GameMapTile::Element(tile.background),
                    //Breakable blocks have big hitbox
                    Special::HalfBreakable
                    | Special::QuaterBreakable
                    | Special::FullBreakable
                    | Special::ThreeQuaterBreakable => GameMapTile::Special(special),
                    Special::MagnetAttract => match tile.background {
                        Element::Acid
                        | Element::Water
                        | Element::AcidSwamp
                        | Element::WaterSwamp => GameMapTile::Element(tile.background),
                        _ => GameMapTile::Special(special),
                    },
                    //In all other cases use shape
                    _ => {
                        proof {
                            lemma_special_ordinal_roundtrip(special);
                        }
                        let i = special.to_i32() as usize;
                        match assets.specials.get_bool_xy(i, x, y) {
                            true => GameMapTile::Special(special),
                            false => GameMapTile::Element(tile.background),
                        }
                    },
                }
            },
        }
    }

    /// Lays out the whole course unit by unit.
    pub fn from_map(map: &TrackMap, assets: &Assets) -> (game: GameMap)
        requires
            map.wf(),
            forall|i: int| 0 <= i < map.tiles@.len() ==> (#[trigger] map.tiles@[i]).is_populated(),
            assets.wf(),
        ensures
            game.wf(),
            forall|x: int, y: int|
                0 <= x < GameMap::WIDTH && 0 <= y < GameMap::HEIGHT ==> #[trigger] game.unit_at(x, y)
                    == GameMap::unit_shown(map.tile_at(x / 15, y / 15), *assets, x % 15, y % 15),
    {
        let mut tiles: Vec<GameMapTile> = Vec::new();
        let mut it = Array2DRangeIterator::<usize>::new(
            0..GameMap::WIDTH * GameMap::HEIGHT,
            GameMap::WIDTH,
        );
        loop
            invariant_except_break
                it.wf(),
                it.start() == 0,
                it.length() == GameMap::units(),
                it.columns() == GameMap::WIDTH,
                it.row() <= GameMap::HEIGHT,
                tiles@.len() == it.position(),
                tiles@.len() <= GameMap::units(),
                map.wf(),
                forall|i: int|
                    0 <= i < map.tiles@.len() ==> (#[trigger] map.tiles@[i]).is_populated(),
                assets.wf(),
                forall|x: int, y: int|
                    0 <= x < GameMap::WIDTH && 0 <= y < GameMap::HEIGHT && y * GameMap::WIDTH + x
                        < tiles@.len() ==> #[trigger] tiles@[y * GameMap::WIDTH + x]
                        == GameMap::unit_shown(map.tile_at(x / 15, y / 15), *assets, x % 15, y % 15),
            ensures
                tiles@.len() == GameMap::units(),
                forall|x: int, y: int|
                    0 <= x < GameMap::WIDTH && 0 <= y < GameMap::HEIGHT ==> #[trigger] tiles@[y
                        * GameMap::WIDTH + x] == GameMap::unit_shown(
                        map.tile_at(x / 15, y / 15),
                        *assets,
                        x % 15,
                        y % 15,
                    ),
            decreases GameMap::units() - it.position(),
        {
            let ghost before = tiles@;
            match it.next() {
                Some((_, x, y)) => {
                    if let Some(tile) = map.get_tile(x / TrackMap::TILESIZE, y / TrackMap::TILESIZE) {
                        tiles.push(
                            GameMap::maptile_from_tile(
                                &tile,
                                assets,
                                x % TrackMap::TILESIZE,
                                y % TrackMap::TILESIZE,
                            ),
                        );
                    }
                    proof {
                        assert forall|x2: int, y2: int|
                            0 <= x2 < GameMap::WIDTH && 0 <= y2 < GameMap::HEIGHT && y2
                                * GameMap::WIDTH + x2 < tiles@.len() implies #[trigger] tiles@[y2
                                * GameMap::WIDTH + x2] == GameMap::unit_shown(
                            map.tile_at(x2 / 15, y2 / 15),
                            *assets,
                            x2 % 15,
                            y2 % 15,
                        ) by {
                            if y2 * GameMap::WIDTH + x2 == before.len() {
                                lemma_position_of_cell(x2, y2, GameMap::WIDTH as int);
                                lemma_position_of_cell(x as int, y as int, GameMap::WIDTH as int);
                            } else {
                                assert(tiles@[y2 * GameMap::WIDTH + x2] == before[y2
                                    * GameMap::WIDTH + x2]);
                            }
                        }
                    }
                },
                None => {
                    break ;
                },
            }
        }
        GameMap { tiles }
    }

    /// What the unit at column `x` of row `y` shows, for a position on the
    /// course.
    pub open spec fn unit_at(&self, x: int, y: int) -> GameMapTile
        recommends
            0 <= x < GameMap::WIDTH,
            0 <= y < GameMap::HEIGHT,
    {
        self.tiles@[y * GameMap::WIDTH + x]
    }

    /// What the unit at column `x` of row `y` shows, or `None` off the course.
    pub fn get_tile(&self, x: usize, y: usize) -> (r: Option<&GameMapTile>)
        requires
            self.wf(),
        ensures
            match r {
                Some(unit) => x < GameMap::WIDTH && y < GameMap::HEIGHT && *unit == self.unit_at(
                    x as int,
                    y as int,
                ),
                None => !(x < GameMap::WIDTH && y < GameMap::HEIGHT),
            },
    {
        if x < GameMap::WIDTH && y < GameMap::HEIGHT {
            Some(&self.tiles[y * GameMap::WIDTH + x])
        } else {
            None
        }
    }
}

/// The course has 15 units for each tile along both axes.
pub proof fn lemma_course_size()
    ensures
        GameMap::WIDTH == TrackMap::WIDTH * TrackMap::TILESIZE,
        GameMap::HEIGHT == TrackMap::HEIGHT * TrackMap::TILESIZE,
        GameMap::units() == 275625,
        mask_len() == 225,
{
}

} // verus!
