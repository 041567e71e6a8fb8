use minigolf::magnet::{Magnet, MagnetForces};
use minigolf::map::TrackMap;
use minigolf::tile::{Element, Shape, Special, Tile};

#[test]
fn test_get_force() {
    let forces = vec![[1, 2]; MagnetForces::MAGNETWIDTH * MagnetForces::MAGNETHEIGHT];
    let magnet_forces = MagnetForces { forces };

    // Test a valid position
    assert_eq!(magnet_forces.get_force(5, 10), Some([1, 2]));

    // Test an out-of-bounds position
    assert_eq!(magnet_forces.get_force(100, 100), None);
}

#[test]
fn test_calculate_forces() {
    let magnets = vec![
        Magnet {
            repel: false,
            i: TrackMap::xy_to_index(48, 0),
        },
        Magnet {
            repel: true,
            i: TrackMap::xy_to_index(0, 24),
        },
    ];

    let magnet_forces = MagnetForces::calculate_forces(&magnets);

    // Assert the forces for specific positions
    assert_eq!(magnet_forces.forces[121], [5, 0]);
    assert_eq!(magnet_forces.get_force(121 * 5, 0), Some([5, 0]));
    assert_eq!(magnet_forces.forces[10879], [-29, 93]);
}

#[test]
fn field_has_one_force_per_cell() {
    assert_eq!(MagnetForces::MAGNETWIDTH, 147);
    assert_eq!(MagnetForces::MAGNETHEIGHT, 75);
    let field = MagnetForces::calculate_forces(&[]);
    assert_eq!(field.forces.len(), 147 * 75);
    assert!(field.forces.iter().all(|f| *f == [0, 0]));
}

#[test]
fn get_force_is_none_outside_the_field() {
    let field = MagnetForces::calculate_forces(&[]);
    // the last cell: row 74, column 146
    assert_eq!(field.get_force(146 * 5 + 4, 74), Some([0, 0]));
    // one cell further
    assert_eq!(field.get_force(147 * 5, 74), None);
    assert_eq!(field.get_force(0, 75), None);
    assert_eq!(field.get_force(0, usize::MAX), None);
    assert_eq!(field.get_force(usize::MAX, usize::MAX), None);
    // x runs on into the next row while the cell lies in the field
    assert_eq!(field.get_force(147 * 5, 0), Some([0, 0]));
}

#[test]
fn get_force_on_a_short_field() {
    let field = MagnetForces { forces: vec![[7, 8]; 3] };
    assert_eq!(field.get_force(14, 0), Some([7, 8]));
    assert_eq!(field.get_force(15, 0), None);
    assert_eq!(field.get_force(0, 1), None);
}

/// The pull as single-precision arithmetic computes it.
fn float_pull(delta_x: i32, delta_y: i32) -> (i32, i32) {
    let distance = ((delta_x * delta_x + delta_y * delta_y) as f32).sqrt();
    if distance <= 127.0 {
        let normalized_x = (delta_x.abs() as f32) / distance;
        let strength = 127.0 - distance;
        let force_x = if delta_x < 0 {
            (-1.0 * strength * normalized_x) as i32
        } else {
            (1.0 * strength * normalized_x) as i32
        };
        let force_y = if delta_y < 0 {
            (-1.0 * strength * (1.0 - normalized_x)) as i32
        } else {
            (1.0 * strength * (1.0 - normalized_x)) as i32
        };
        (force_x, force_y)
    } else {
        (0, 0)
    }
}

#[test]
fn pull_agrees_with_single_precision_arithmetic() {
    for dx in -140..=140 {
        for dy in -140..=140 {
            assert_eq!(Magnet::pull_toward(dx, dy), float_pull(dx, dy), "at ({}, {})", dx, dy);
        }
    }
}

#[test]
fn pull_exact_values() {
    // distance 5: strength 122, of which 3/5 along x: 73.2 and 48.8
    assert_eq!(Magnet::pull_toward(3, 4), (73, 48));
    assert_eq!(Magnet::pull_toward(-3, 4), (-73, 48));
    assert_eq!(Magnet::pull_toward(3, -4), (73, -48));
    assert_eq!(Magnet::pull_toward(-3, -4), (-73, -48));
    // on the axes the whole strength goes one way
    assert_eq!(Magnet::pull_toward(10, 0), (117, 0));
    assert_eq!(Magnet::pull_toward(0, -10), (0, -117));
    // at the edge of the reach and beyond it
    assert_eq!(Magnet::pull_toward(127, 0), (0, 0));
    assert_eq!(Magnet::pull_toward(0, 128), (0, 0));
    assert_eq!(Magnet::pull_toward(90, 90), (0, 0));
    assert_eq!(Magnet::pull_toward(0, 0), (0, 0));
    assert_eq!(Magnet::pull_toward(1, -4), (29, -93));
    // far beyond the reach
    assert_eq!(Magnet::pull_toward(i32::MIN, 5), (0, 0));
    assert_eq!(Magnet::pull_toward(5, i32::MAX), (0, 0));
    assert_eq!(Magnet::pull_toward(-46341, 46341), (0, 0));
}

#[test]
fn repelling_magnet_pushes_the_other_way() {
    let attract = Magnet { repel: false, i: 0 };
    let repel = Magnet { repel: true, i: 0 };
    // the magnet of tile 0 lies at (8, 8)
    assert_eq!(attract.force_at(5, 4), (73, 48));
    assert_eq!(repel.force_at(5, 4), (-73, -48));
    assert_eq!(attract.force_at(11, 12), (-73, -48));
    let far = Magnet { repel: false, i: usize::MAX };
    assert_eq!(far.force_at(2, 2), (0, 0));
    assert_eq!(attract.force_at(usize::MAX, usize::MAX), (0, 0));
    assert_eq!(attract.force_at(8, usize::MAX), (0, 0));
    assert_eq!(attract.force_at(135, 8), (0, 0));
    assert_eq!(attract.force_at(134, 8), (-1, 0));
}

#[test]
fn forces_of_several_magnets_add_up() {
    let a = Magnet { repel: false, i: TrackMap::xy_to_index(3, 3) };
    let b = Magnet { repel: true, i: TrackMap::xy_to_index(5, 4) };
    let both = MagnetForces::calculate_forces(&[a, b]);
    let only_a = MagnetForces::calculate_forces(&[a]);
    let only_b = MagnetForces::calculate_forces(&[b]);
    for cell in 0..both.forces.len() {
        assert_eq!(both.forces[cell][0], only_a.forces[cell][0] + only_b.forces[cell][0]);
        assert_eq!(both.forces[cell][1], only_a.forces[cell][1] + only_b.forces[cell][1]);
    }
    let x = (7usize) * 5 + 2;
    let y = (9usize) * 5 + 2;
    let fa = a.force_at(x, y);
    let fb = b.force_at(x, y);
    assert_eq!(both.forces[9 * 147 + 7], [fa.0 + fb.0, fa.1 + fb.1]);
    assert_eq!(MagnetForces::total_force_at(&[a, b], x, y), [fa.0 + fb.0, fa.1 + fb.1]);
}

#[test]
fn extract_magnets_keeps_tile_numbers() {
    let blank = Tile::default();
    let attract = Tile::new(Some(Special::MagnetAttract), None, Element::Grass, Element::Grass);
    let repel = Tile::new(Some(Special::MagnetRepel), None, Element::Dirt, Element::Grass);
    let hole = Tile::new(Some(Special::Hole), None, Element::Grass, Element::Grass);
    let shaped = Tile::new(None, Some(Shape::Diamond), Element::Grass, Element::Mud);
    let tiles = vec![blank, attract, hole, repel, shaped, attract];
    let magnets = Magnet::extract_magnets(&tiles);
    assert_eq!(
        magnets,
        vec![
            Magnet { repel: false, i: 1 },
            Magnet { repel: true, i: 3 },
            Magnet { repel: false, i: 5 },
        ]
    );
    assert!(Magnet::extract_magnets(&[]).is_empty());
}
