use rogue::geometry::{distance_squared_exec, Point, Rect};
use rogue::map::{map_idx, DungeonMap, TileType, NUM_TILES};

#[test]
fn map_idx_is_row_major() {
    assert_eq!(map_idx(0, 0), 0);
    assert_eq!(map_idx(3, 2), 163);
    assert_eq!(map_idx(79, 49), 3999);
}

#[test]
fn new_map_is_floor_and_unseen() {
    let map = DungeonMap::new();
    assert_eq!(map.tiles.len(), NUM_TILES);
    assert!(map.tiles.iter().all(|t| *t == TileType::Floor));
    assert!(map.revealed_tiles.iter().all(|r| !*r));
    assert!(map.far_revealed_tiles.iter().all(|r| !*r));
}

#[test]
fn try_idx_only_inside_the_grid() {
    let map = DungeonMap::new();
    assert_eq!(map.try_idx(Point::new(3, 2)), Some(163));
    assert_eq!(map.try_idx(Point::new(79, 49)), Some(3999));
    assert_eq!(map.try_idx(Point::new(-1, 0)), None);
    assert_eq!(map.try_idx(Point::new(80, 0)), None);
    assert_eq!(map.try_idx(Point::new(0, 50)), None);
    assert!(map.in_bound(Point::new(0, 0)));
    assert!(!map.in_bound(Point::new(0, -1)));
}

#[test]
fn index_and_point_round_trip() {
    let map = DungeonMap::new();
    for idx in 0..NUM_TILES {
        let p = map.index_to_point2d(idx);
        assert_eq!(map.point2d_to_index(p), idx);
    }
    for y in 0..50 {
        for x in 0..80 {
            let p = Point::new(x, y);
            assert_eq!(map.index_to_point2d(map.point2d_to_index(p)), p);
        }
    }
}

#[test]
fn index_to_point2d_values() {
    let map = DungeonMap::new();
    assert_eq!(map.index_to_point2d(163), Point::new(3, 2));
    assert_eq!(map.index_to_point2d(4001), Point::new(1, 50));
    // A row beyond the i32 range becomes row 0.
    assert_eq!(map.index_to_point2d(usize::MAX), Point::new((usize::MAX % 80) as i32, 0));
}

#[test]
fn rect_intersection_includes_edges() {
    let r1 = Rect::with_size(0, 0, 10, 10);
    let r2 = Rect::with_size(5, 5, 10, 10);
    let r3 = Rect::with_size(100, 100, 5, 5);
    let r4 = Rect::with_size(10, 0, 5, 5);
    assert!(r1.intersect(&r2));
    assert!(r2.intersect(&r1));
    assert!(!r1.intersect(&r3));
    assert!(r1.intersect(&r4));
}

#[test]
fn rect_center_rounds_toward_zero() {
    assert_eq!(Rect::with_size(1, 1, 3, 3).center(), Point::new(2, 2));
    assert_eq!(Rect::with_size(0, 0, 10, 10).center(), Point::new(5, 5));
    let r = Rect { x1: -3, x2: 0, y1: -4, y2: 1 };
    assert_eq!(r.center(), Point::new(-1, -1));
}

#[test]
fn rect_points_are_half_open() {
    let r = Rect::with_size(2, 3, 4, 5);
    assert!(r.point_in_rect(Point::new(2, 3)));
    assert!(r.point_in_rect(Point::new(5, 7)));
    assert!(!r.point_in_rect(Point::new(6, 3)));
    assert!(!r.point_in_rect(Point::new(2, 8)));
}

#[test]
fn rects_that_do_not_intersect_share_no_point() {
    let a = Rect::with_size(1, 1, 3, 3);
    let b = Rect::with_size(5, 1, 3, 3);
    assert!(!a.intersect(&b));
    for y in -2..12 {
        for x in -2..12 {
            let p = Point::new(x, y);
            assert!(!(a.point_in_rect(p) && b.point_in_rect(p)));
        }
    }
}

#[test]
fn point_arithmetic() {
    let p = Point::new(7, 9);
    assert_eq!(p.offset_by(Point::new(-1, 2)), Point::new(6, 11));
    assert_eq!(p.relative_to(Point::new(2, 3)), Point::new(5, 6));
    assert_eq!(p.scaled(32), Point::new(224, 288));
    assert_eq!(Point::zero(), Point::new(0, 0));
}

#[test]
fn squared_distance() {
    assert_eq!(distance_squared_exec(Point::new(0, 0), Point::new(6, 8)), 100);
    assert_eq!(distance_squared_exec(Point::new(3, -4), Point::new(0, 0)), 25);
    let far = distance_squared_exec(Point::new(i32::MIN, i32::MIN), Point::new(i32::MAX, i32::MAX));
    assert_eq!(far, 2 * (u32::MAX as i128) * (u32::MAX as i128));
}
