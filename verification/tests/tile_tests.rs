use minigolf::tile::{Element, Shape, Special, SpecialParse, Tile, TileCreationError};

#[test]
fn default_tile_is_blank_grass() {
    let tile = Tile::default();
    assert_eq!(tile.special, None);
    assert_eq!(tile.shape, Some(Shape::Blank));
    assert_eq!(tile.background, Element::Grass);
    assert_eq!(tile.foreground, Element::Grass);
    assert_eq!(tile.to_tile_code(), 0x0100_0000);
}

#[test]
fn tile_code_layout() {
    let tile = Tile::new(None, Some(Shape::Diamond), Element::Dirt, Element::Mud);
    assert_eq!(tile.to_tile_code(), (1 << 24) | (3 << 16) | (1 << 8) | 2);
    let tile = Tile::new(Some(Special::MagnetRepel), None, Element::OnewayW, Element::Ice);
    assert_eq!(tile.to_tile_code(), (2 << 24) | (21 << 16) | (23 << 8) | 3);
    assert_eq!(tile.to_tile_code(), 0x0215_1703);
    assert_eq!(Tile::from_tile_code(0x0215_1703), Ok(tile));
    // with both populated the special decides
    let both = Tile::new(Some(Special::Hole), Some(Shape::Diamond), Element::Grass, Element::Grass);
    assert_eq!(both.to_tile_code(), (2 << 24) | (1 << 16));
}

#[test]
fn every_valid_tile_round_trips() {
    let mut count = 0;
    for parse in 1..=2 {
        for secondary in 0..28 {
            for background in 0..24 {
                for foreground in 0..24 {
                    let tile = Tile::from_i32s(parse, secondary, background, foreground).unwrap();
                    assert!(tile.special.is_some() != tile.shape.is_some());
                    assert_eq!(tile.special.is_some(), parse == 2);
                    let code = tile.to_tile_code();
                    assert_eq!(
                        code,
                        (parse << 24) | (secondary << 16) | (background << 8) | foreground
                    );
                    assert_eq!(Tile::from_tile_code(code), Ok(tile));
                    count += 1;
                }
            }
        }
    }
    assert_eq!(count, 2 * 28 * 24 * 24);
}

#[test]
fn from_i32s_errors_in_order() {
    assert_eq!(Tile::from_i32s(0, 0, 0, 0), Err(TileCreationError::InvalidSpecial(0)));
    assert_eq!(Tile::from_i32s(3, 99, 99, 99), Err(TileCreationError::InvalidSpecial(3)));
    assert_eq!(Tile::from_i32s(-1, 0, 0, 0), Err(TileCreationError::InvalidSpecial(-1)));
    assert_eq!(Tile::from_i32s(1, 99, 24, 99), Err(TileCreationError::InvalidBackground(24)));
    assert_eq!(Tile::from_i32s(2, 99, 0, 24), Err(TileCreationError::InvalidForeground(24)));
    assert_eq!(Tile::from_i32s(1, 28, 0, 0), Err(TileCreationError::InvalidShape(28)));
    assert_eq!(Tile::from_i32s(2, 28, 0, 0), Err(TileCreationError::InvalidShape(28)));
    assert_eq!(Tile::from_i32s(1, -1, 0, 0), Err(TileCreationError::InvalidShape(-1)));
    assert_eq!(Tile::from_i32s(2, 0, -5, 0), Err(TileCreationError::InvalidBackground(-5)));
}

#[test]
fn from_tile_code_errors() {
    assert_eq!(Tile::from_tile_code(0), Err(TileCreationError::InvalidSpecial(0)));
    assert_eq!(Tile::from_tile_code(0x00ff_ffff), Err(TileCreationError::InvalidSpecial(0)));
    assert_eq!(Tile::from_tile_code(0x0300_0000), Err(TileCreationError::InvalidSpecial(3)));
    assert_eq!(Tile::from_tile_code(i32::MAX), Err(TileCreationError::InvalidSpecial(127)));
    assert_eq!(Tile::from_tile_code(-1), Err(TileCreationError::InvalidSpecial(-1)));
    assert_eq!(Tile::from_tile_code(i32::MIN), Err(TileCreationError::InvalidSpecial(-128)));
    assert_eq!(Tile::from_tile_code(0x0100_1800), Err(TileCreationError::InvalidBackground(24)));
    assert_eq!(Tile::from_tile_code(0x0100_00ff), Err(TileCreationError::InvalidForeground(255)));
    assert_eq!(Tile::from_tile_code(0x011c_0000), Err(TileCreationError::InvalidShape(28)));
    assert_eq!(Tile::from_tile_code(0x02ff_0000), Err(TileCreationError::InvalidShape(255)));
    assert_eq!(Tile::from_tile_code(0x01ff_ffff), Err(TileCreationError::InvalidBackground(255)));
}

#[test]
fn ordinals_follow_declaration_order() {
    assert_eq!(SpecialParse::Normal.to_i32(), 1);
    assert_eq!(SpecialParse::Special.to_i32(), 2);
    assert_eq!(SpecialParse::from_i32(0), None);
    assert_eq!(SpecialParse::from_i32(3), None);
    assert_eq!(Special::StartPosition.to_i32(), 0);
    assert_eq!(Special::MagnetAttract.to_i32(), 20);
    assert_eq!(Special::MagnetRepel.to_i32(), 21);
    assert_eq!(Special::StartPositionGreen.to_i32(), 27);
    assert_eq!(Element::Grass.to_i32(), 0);
    assert_eq!(Element::SpeedN.to_i32(), 4);
    assert_eq!(Element::Water.to_i32(), 12);
    assert_eq!(Element::OnewayW.to_i32(), 23);
    assert_eq!(Shape::Blank.to_i32(), 0);
    assert_eq!(Shape::RoundedS.to_i32(), 12);
    assert_eq!(Shape::QuaterNW.to_i32(), 27);
    for n in 0..28 {
        assert_eq!(Special::from_i32(n).unwrap().to_i32(), n);
        assert_eq!(Shape::from_i32(n).unwrap().to_i32(), n);
    }
    for n in 0..24 {
        assert_eq!(Element::from_i32(n).unwrap().to_i32(), n);
    }
    assert_eq!(Special::from_i32(28), None);
    assert_eq!(Shape::from_i32(28), None);
    assert_eq!(Element::from_i32(24), None);
    assert_eq!(Element::from_i32(-1), None);
}

#[test]
fn special_predicates() {
    let solid = [
        Special::MoveableBlock,
        Special::MoveableBlock2,
        Special::HalfBreakable,
        Special::QuaterBreakable,
        Special::FullBreakable,
        Special::ThreeQuaterBreakable,
    ];
    let mut solids = 0;
    let mut starts = 0;
    for n in 0..28 {
        let s = Special::from_i32(n).unwrap();
        assert_eq!(s.is_solid(), solid.contains(&s));
        assert_eq!(s.is_teleport_start(), s.get_matching_teleport().is_some());
        if s.is_solid() {
            solids += 1;
        }
        if s.is_teleport_start() {
            starts += 1;
        }
    }
    assert_eq!(solids, 6);
    assert_eq!(starts, 4);
    assert_eq!(Special::RedTeleportStart.get_matching_teleport(), Some(Special::RedTeleportExit));
    assert_eq!(Special::BlueTeleportStart.get_matching_teleport(), Some(Special::BlueTeleportExit));
    assert_eq!(
        Special::GreenTeleportStart.get_matching_teleport(),
        Some(Special::GreenTeleportExit)
    );
    assert_eq!(
        Special::YellowTeleportStart.get_matching_teleport(),
        Some(Special::YellowTeleportExit)
    );
    assert_eq!(Special::RedTeleportExit.get_matching_teleport(), None);
    assert_eq!(Special::Hole.get_matching_teleport(), None);
}

#[test]
fn element_predicates() {
    for n in 0..24 {
        let e = Element::from_i32(n).unwrap();
        assert_eq!(e.is_downhill(), (4..=11).contains(&n));
        assert_eq!(e.is_oneway(), (20..=23).contains(&n));
        assert_eq!(e.is_solid(), (16..=18).contains(&n) || (20..=23).contains(&n));
        assert_eq!(e.downhill_direction() != (0, 0), e.is_downhill());
    }
    assert!(!Element::FakeBlock.is_solid());
    assert_eq!(Element::SpeedN.downhill_direction(), (0, -1));
    assert_eq!(Element::SpeedNE.downhill_direction(), (1, -1));
    assert_eq!(Element::SpeedE.downhill_direction(), (1, 0));
    assert_eq!(Element::SpeedSE.downhill_direction(), (1, 1));
    assert_eq!(Element::SpeedS.downhill_direction(), (0, 1));
    assert_eq!(Element::SpeedSW.downhill_direction(), (-1, 1));
    assert_eq!(Element::SpeedW.downhill_direction(), (-1, 0));
    assert_eq!(Element::SpeedNW.downhill_direction(), (-1, -1));
}

#[test]
fn friction_tables() {
    assert_eq!(Element::Grass.friction_e4(), 9935);
    assert_eq!(Element::Dirt.friction_e4(), 9200);
    assert_eq!(Element::Mud.friction_e4(), 8000);
    assert_eq!(Element::Ice.friction_e4(), 9975);
    assert_eq!(Element::SpeedSW.friction_e4(), 9935);
    assert_eq!(Element::Water.friction_e4(), 0);
    assert_eq!(Element::Acid.friction_e4(), 0);
    assert_eq!(Element::WaterSwamp.friction_e4(), 9500);
    assert_eq!(Element::AcidSwamp.friction_e4(), 9500);
    assert_eq!(Element::Block.friction_e4(), 9000);
    assert_eq!(Element::StickyBlock.friction_e4(), 9000);
    assert_eq!(Element::BouncyBlock.friction_e4(), 9000);
    assert_eq!(Element::FakeBlock.friction_e4(), 9935);
    assert_eq!(Element::OnewayE.friction_e4(), 9950);
    assert_eq!(Special::Hole.friction_e4(), 9600);
    assert_eq!(Special::BlownMine.friction_e4(), 9000);
    assert_eq!(Special::BlownBigMine.friction_e4(), 9000);
    assert_eq!(Special::RedTeleportStart.friction_e4(), 9975);
    assert_eq!(Special::MagnetAttract.friction_e4(), 9000);
    assert_eq!(Special::MagnetRepel.friction_e4(), 10000);
    assert_eq!(Special::SunkMoveableBlock.friction_e4(), 9935);
    assert_eq!(Special::Mine.friction_e4(), 10000);
    // the coefficients as single-precision numbers
    assert_eq!(Element::Grass.friction_e4() as f32 / 10000.0, 0.9935f32);
    assert_eq!(Element::Ice.friction_e4() as f32 / 10000.0, 0.9975f32);
    assert_eq!(Element::Dirt.friction_e4() as f32 / 10000.0, 0.92f32);
    assert_eq!(Element::OnewayN.friction_e4() as f32 / 10000.0, 0.995f32);
    assert_eq!(Special::Hole.friction_e4() as f32 / 10000.0, 0.96f32);
}
