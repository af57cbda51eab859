use open_dwarf::grid::{IVec3, MapCoordinates, UVec2, UVec3};

fn map16() -> UVec3 {
    UVec3::new(16, 16, 1)
}

#[test]
fn centre_of_map_is_middle_cell() {
    let c = MapCoordinates::new(IVec3::new(0, 0, 0), map16());
    assert_eq!(c.as_uvec2(), UVec2::new(8, 8));
}

#[test]
fn index_round_trip_all_cells() {
    for x in 0..16u32 {
        for y in 0..16u32 {
            let i = UVec2::new(x, y);
            assert_eq!(MapCoordinates::from_index(i, map16()).as_uvec2(), i);
        }
    }
}

#[test]
fn index_round_trip_odd_extent() {
    let size = UVec3::new(31, 5, 1);
    for x in 0..31u32 {
        for y in 0..5u32 {
            let i = UVec2::new(x, y);
            assert_eq!(MapCoordinates::from_index(i, size).as_uvec2(), i);
        }
    }
}

#[test]
fn from_index_recentres_origin() {
    let c = MapCoordinates::from_index(UVec2::new(0, 15), map16());
    assert_eq!(c.origin, IVec3::new(-8, 7, 0));
    assert_eq!(c.map_size, map16());
}

#[test]
fn add_direction_inverts_vertical() {
    let mut c = MapCoordinates::new(IVec3::new(2, 3, 0), map16());
    c.add_direction(IVec3::new(1, 1, 1));
    assert_eq!(c.origin, IVec3::new(3, 2, 1));
}

#[test]
fn add_direction_chains() {
    let mut c = MapCoordinates::new(IVec3::new(0, 0, 0), map16());
    c.add_direction(IVec3::new(1, 0, 0)).add_direction(IVec3::new(0, -1, 0));
    assert_eq!(c.origin, IVec3::new(1, 1, 0));
}

#[test]
fn displacement_then_opposite_is_identity() {
    let p = MapCoordinates::new(IVec3::new(-3, 5, 2), map16());
    let d = IVec3::new(2, -7, 1);
    let mut q = p.clone();
    q.add_direction(d).add_direction(IVec3::new(-2, 7, -1));
    assert_eq!(q.origin, p.origin);
    assert_eq!(q.map_size, p.map_size);
}

#[test]
fn clone_is_independent() {
    let p = MapCoordinates::new(IVec3::new(0, 0, 0), map16());
    let mut q = p.clone();
    q.add_direction(IVec3::new(1, 0, 0));
    assert_eq!(p.origin, IVec3::new(0, 0, 0));
    assert_eq!(q.origin, IVec3::new(1, 0, 0));
}

#[test]
fn step_right_moves_one_column() {
    let mut c = MapCoordinates::new(IVec3::new(0, 0, 0), map16());
    let before = c.as_uvec2();
    let after = c.add_direction(IVec3::new(1, 0, 0)).as_uvec2();
    assert_eq!(after, UVec2::new(before.x + 1, before.y));
}

#[test]
fn step_up_moves_one_row_up() {
    let mut c = MapCoordinates::new(IVec3::new(0, 0, 0), map16());
    let before = c.as_uvec2();
    let after = c.add_direction(IVec3::new(0, 1, 0)).as_uvec2();
    assert_eq!(after, UVec2::new(before.x, before.y - 1));
}

#[test]
fn corner_cells() {
    let c = MapCoordinates::new(IVec3::new(-8, -8, 0), map16());
    assert_eq!(c.as_uvec2(), UVec2::new(0, 0));
    let c = MapCoordinates::new(IVec3::new(7, 7, 0), map16());
    assert_eq!(c.as_uvec2(), UVec2::new(15, 15));
}

#[test]
fn length_squared_sums_squares() {
    assert_eq!(IVec3::new(1, -2, 3).length_squared(), 14);
    assert_eq!(IVec3::new(0, 0, 0).length_squared(), 0);
}

#[test]
fn has_cell_matches_map_bounds() {
    assert!(MapCoordinates::new(IVec3::new(-8, -8, 0), map16()).has_cell());
    assert!(!MapCoordinates::new(IVec3::new(-9, 0, 0), map16()).has_cell());
    assert!(!MapCoordinates::new(IVec3::new(0, -9, 0), map16()).has_cell());
    assert!(MapCoordinates::new(IVec3::new(7, 7, 0), map16()).has_cell());
    assert!(!MapCoordinates::new(IVec3::new(8, 0, 0), map16()).has_cell());
    assert!(!MapCoordinates::new(IVec3::new(0, 8, 0), map16()).has_cell());
    assert!(!MapCoordinates::new(IVec3::new(0, 0, 0), UVec3::new(u32::MAX, 16, 1)).has_cell());
    assert!(!MapCoordinates::new(IVec3::new(i32::MAX, 0, 0), map16()).has_cell());
}

#[test]
fn can_add_direction_guards_overflow() {
    let c = MapCoordinates::new(IVec3::new(i32::MAX, 0, 0), map16());
    assert!(!c.can_add_direction(IVec3::new(1, 0, 0)));
    assert!(c.can_add_direction(IVec3::new(-1, 0, 0)));
    assert!(!c.can_add_direction(IVec3::new(0, i32::MIN, 0)));
    let d = MapCoordinates::new(IVec3::new(0, i32::MIN, 0), map16());
    assert!(!d.can_add_direction(IVec3::new(0, 1, 0)));
    assert!(d.can_add_direction(IVec3::new(0, -1, 0)));
}

#[test]
fn negate_flips_every_component() {
    assert_eq!(IVec3::new(2, -7, 1).negate(), IVec3::new(-2, 7, -1));
    let p = MapCoordinates::new(IVec3::new(-3, 5, 2), map16());
    let d = IVec3::new(1, 1, 0);
    let mut q = p.clone();
    q.add_direction(d).add_direction(d.negate());
    assert_eq!(q, p);
}
