use image::{DynamicImage, Rgba, RgbaImage};
use minigolf::gamemap::{Asset, Assets, GameMap, GameMapTile};
use minigolf::map::TrackMap;
use minigolf::tile::{Element, Shape, Special, Tile};

/// A sheet of `len` masks; mask `i` covers the unit (x, y) where `covers(i, x, y)`.
fn sheet(len: usize, covers: fn(usize, usize, usize) -> bool) -> Asset {
    let mut sprites = Vec::new();
    for i in 0..len {
        let mut sprite = Vec::new();
        for y in 0..15 {
            for x in 0..15 {
                sprite.push(covers(i, x, y));
            }
        }
        sprites.push(sprite);
    }
    Asset::from_sprites(sprites)
}

fn left_half(_i: usize, x: usize, _y: usize) -> bool {
    x < 7
}

fn top_rows(i: usize, _x: usize, y: usize) -> bool {
    y < i
}

fn assets() -> Assets {
    Assets::new(sheet(28, top_rows), sheet(28, left_half))
}

#[test]
fn asset_lookup() {
    let asset = sheet(3, top_rows);
    assert_eq!(asset.get(3), None);
    let mask = asset.get(2).unwrap();
    assert_eq!(mask.len(), 225);
    assert_eq!(mask.iter().filter(|b| **b).count(), 30);
    assert!(asset.get(0).unwrap().iter().all(|b| !*b));
    assert!(asset.get_bool_xy(2, 14, 1));
    assert!(!asset.get_bool_xy(2, 0, 2));
    assert!(!asset.get_bool_xy(1, 3, 1));
    let asset = sheet(1, left_half);
    assert!(asset.get_bool_xy(0, 6, 14));
    assert!(!asset.get_bool_xy(0, 7, 0));
}

#[test]
fn shaped_tile_shows_foreground_under_the_shape() {
    let assets = assets();
    let tile = Tile::new(None, Some(Shape::Diamond), Element::Water, Element::Ice);
    assert_eq!(
        GameMap::maptile_from_tile(&tile, &assets, 0, 0),
        GameMapTile::Element(Element::Ice)
    );
    assert_eq!(
        GameMap::maptile_from_tile(&tile, &assets, 6, 14),
        GameMapTile::Element(Element::Ice)
    );
    assert_eq!(
        GameMap::maptile_from_tile(&tile, &assets, 7, 0),
        GameMapTile::Element(Element::Water)
    );
}

#[test]
fn specials_by_kind() {
    let assets = assets();
    let on = |special: Special, background: Element, x: usize, y: usize| {
        let tile = Tile::new(Some(special), None, background, Element::Mud);
        GameMap::maptile_from_tile(&tile, &assets, x, y)
    };
    // these always show the background
    for special in [
        Special::FakeHole,
        Special::RedTeleportExit,
        Special::BlueTeleportExit,
        Special::GreenTeleportExit,
        Special::YellowTeleportExit,
        Special::MagnetRepel,
    ] {
        assert_eq!(on(special, Element::Dirt, 0, 0), GameMapTile::Element(Element::Dirt));
        assert_eq!(on(special, Element::Dirt, 14, 14), GameMapTile::Element(Element::Dirt));
    }
    // breakable blocks fill the tile
    for special in [
        Special::HalfBreakable,
        Special::QuaterBreakable,
        Special::FullBreakable,
        Special::ThreeQuaterBreakable,
    ] {
        assert_eq!(on(special, Element::Dirt, 0, 0), GameMapTile::Special(special));
        assert_eq!(on(special, Element::Dirt, 14, 14), GameMapTile::Special(special));
    }
    // an attracting magnet fills the tile, but liquids show through
    assert_eq!(
        on(Special::MagnetAttract, Element::Grass, 14, 14),
        GameMapTile::Special(Special::MagnetAttract)
    );
    for liquid in [Element::Acid, Element::Water, Element::AcidSwamp, Element::WaterSwamp] {
        assert_eq!(on(Special::MagnetAttract, liquid, 0, 0), GameMapTile::Element(liquid));
    }
    // the others go by their sprite: special number i covers the rows above i
    assert_eq!(on(Special::Hole, Element::Dirt, 5, 0), GameMapTile::Special(Special::Hole));
    assert_eq!(on(Special::Hole, Element::Dirt, 5, 1), GameMapTile::Element(Element::Dirt));
    assert_eq!(
        on(Special::MoveableBlock, Element::Dirt, 0, 2),
        GameMapTile::Special(Special::MoveableBlock)
    );
    assert_eq!(on(Special::MoveableBlock, Element::Dirt, 0, 3), GameMapTile::Element(Element::Dirt));
    assert_eq!(
        on(Special::StartPosition, Element::Dirt, 0, 0),
        GameMapTile::Element(Element::Dirt)
    );
    assert_eq!(
        on(Special::StartPositionGreen, Element::Dirt, 14, 14),
        GameMapTile::Special(Special::StartPositionGreen)
    );
}

#[test]
fn game_map_from_map() {
    let assets = assets();
    let mut map = TrackMap::new();
    let shaped = Tile::new(None, Some(Shape::BigCircle), Element::Dirt, Element::Ice);
    let hole = Tile::new(Some(Special::Hole), None, Element::Mud, Element::Grass);
    map.set_tile(1, 0, shaped).unwrap();
    map.set_tile(48, 24, hole).unwrap();
    let game = GameMap::from_map(&map, &assets);
    assert_eq!(GameMap::WIDTH, 735);
    assert_eq!(GameMap::HEIGHT, 375);
    assert_eq!(game.tiles.len(), 735 * 375);
    // the blank tile: grass either way
    assert_eq!(game.get_tile(0, 0), Some(&GameMapTile::Element(Element::Grass)));
    assert_eq!(game.get_tile(14, 14), Some(&GameMapTile::Element(Element::Grass)));
    // the shaped tile spans the columns 15 to 29
    assert_eq!(game.get_tile(15, 0), Some(&GameMapTile::Element(Element::Ice)));
    assert_eq!(game.get_tile(21, 14), Some(&GameMapTile::Element(Element::Ice)));
    assert_eq!(game.get_tile(22, 0), Some(&GameMapTile::Element(Element::Dirt)));
    assert_eq!(game.get_tile(29, 14), Some(&GameMapTile::Element(Element::Dirt)));
    assert_eq!(game.get_tile(30, 0), Some(&GameMapTile::Element(Element::Grass)));
    assert_eq!(game.get_tile(15, 15), Some(&GameMapTile::Element(Element::Grass)));
    // the hole in the last tile shows in its top row only
    assert_eq!(game.get_tile(734, 360), Some(&GameMapTile::Special(Special::Hole)));
    assert_eq!(game.get_tile(720, 360), Some(&GameMapTile::Special(Special::Hole)));
    assert_eq!(game.get_tile(734, 361), Some(&GameMapTile::Element(Element::Mud)));
    assert_eq!(game.get_tile(734, 374), Some(&GameMapTile::Element(Element::Mud)));
    assert_eq!(game.tiles[374 * 735 + 734], GameMapTile::Element(Element::Mud));
    assert_eq!(game.tiles[360 * 735 + 720], GameMapTile::Special(Special::Hole));
    // off the course
    assert_eq!(game.get_tile(735, 0), None);
    assert_eq!(game.get_tile(0, 375), None);
}

/// A sheet image of `len` sprites in which sprite `i` is opaque in its own
/// column `i % 15` and transparent elsewhere.
fn striped_image(len: u32, height: u32) -> DynamicImage {
    let mut image = RgbaImage::new(len * 15, height);
    for i in 0..len {
        for y in 0..height {
            for x in 0..15 {
                let alpha = if x == i % 15 { 1 + (y as u8) } else { 0 };
                image.put_pixel(i * 15 + x, y, Rgba([255, 255, 255, alpha]));
            }
        }
    }
    DynamicImage::ImageRgba8(image)
}

#[test]
fn sprites_are_read_off_an_image() {
    let image = striped_image(28, 15);
    let asset = Asset::from_image(&image, 28).unwrap();
    assert_eq!(asset.get(28), None);
    for i in 0..28 {
        let mask = asset.get(i).unwrap();
        assert_eq!(mask.len(), 225);
        for y in 0..15 {
            for x in 0..15 {
                assert_eq!(asset.get_bool_xy(i, x, y), x == i % 15);
                assert_eq!(mask[y * 15 + x], x == i % 15);
            }
        }
    }
    // fewer sprites than the image holds, and rows below the sprites
    let image = striped_image(4, 40);
    let asset = Asset::from_image(&image, 2).unwrap();
    assert!(asset.get(1).is_some() && asset.get(2).is_none());
    assert!(asset.get_bool_xy(1, 1, 14));
    assert!(Asset::from_image(&image, 0).unwrap().get(0).is_none());
}

#[test]
fn an_image_without_alpha_is_opaque() {
    let image = DynamicImage::new_rgb8(30, 15);
    let asset = Asset::from_image(&image, 2).unwrap();
    assert!(asset.get(0).unwrap().iter().all(|b| *b));
    assert!(asset.get(1).unwrap().iter().all(|b| *b));
}

#[test]
fn an_image_that_is_too_small_is_not_read() {
    let image = striped_image(4, 15);
    assert!(Asset::from_image_checked(&image, 4).unwrap().is_ok());
    assert!(Asset::from_image_checked(&image, 5).is_none());
    assert!(Asset::from_image_checked(&striped_image(4, 14), 1).is_none());
    assert!(Asset::from_image_checked(&striped_image(4, 14), 0).unwrap().is_ok());
    assert!(Asset::from_image_checked(&DynamicImage::new_rgba8(0, 0), 0).unwrap().is_ok());
    assert!(Asset::from_image_checked(&DynamicImage::new_rgba8(29, 15), 2).is_none());
    assert!(Asset::from_image_checked(&DynamicImage::new_rgba8(29, 15), 1).unwrap().is_ok());
}

#[test]
fn both_sheets_from_images() {
    let specials = striped_image(28, 15);
    let shapes = DynamicImage::new_rgb8(28 * 15, 15);
    let assets = Assets::new(
        Asset::from_image(&specials, Assets::SPRITES).unwrap(),
        Asset::from_image(&shapes, Assets::SPRITES).unwrap(),
    );
    let tile = Tile::new(None, Some(Shape::QuaterNW), Element::Dirt, Element::Ice);
    // every shape sprite is opaque
    assert_eq!(
        GameMap::maptile_from_tile(&tile, &assets, 9, 9),
        GameMapTile::Element(Element::Ice)
    );
    // special 27 is opaque in column 12
    let tile = Tile::new(Some(Special::StartPositionGreen), None, Element::Dirt, Element::Ice);
    assert_eq!(
        GameMap::maptile_from_tile(&tile, &assets, 12, 3),
        GameMapTile::Special(Special::StartPositionGreen)
    );
    assert_eq!(
        GameMap::maptile_from_tile(&tile, &assets, 11, 3),
        GameMapTile::Element(Element::Dirt)
    );
}
