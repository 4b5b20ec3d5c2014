use bracket_lib::prelude::RandomNumberGenerator;
use rogue::geometry::{Point, Rect};
use rogue::map::{map_idx, DungeonMap, TileType, NUM_TILES};
use rogue::map_builder::rooms::{
    dig_corridor, place_candidate, sort_rooms_by_center_x, RoomsExhausted, MAX_ROOM_SIZE, MIN_ROOM_SIZE, NUM_ROOMS,
};
use rogue::map_builder::{
    glyph_tile, theme_for_coin, DungeonTheme, ForestTheme, MapBuilder, MapTheme, MyTile, RoomsArchitect, SpotRule, Theme,
    NUM_LANTERN, NUM_MONSTERS,
};

fn carved(room: &Rect, x: i32, y: i32) -> bool {
    room.point_in_rect(Point::new(x, y)) && x > 1 && x < 79 && y > 1 && y < 49
}

fn empty_builder(fill: TileType) -> MapBuilder {
    let mut mb = MapBuilder {
        map: DungeonMap::new(),
        rooms: Vec::new(),
        monster_spawns: Vec::new(),
        lantern_spawns: Vec::new(),
        player_start: Point::zero(),
        amulet_start: Point::zero(),
        theme: DungeonTheme::build(),
    };
    mb.fill(fill);
    mb
}

#[test]
fn fill_sets_every_tile() {
    let mut mb = empty_builder(TileType::Wall);
    assert!(mb.map.tiles.iter().all(|t| *t == TileType::Wall));
    mb.fill(TileType::Exit);
    assert!(mb.map.tiles.iter().all(|t| *t == TileType::Exit));
    assert_eq!(mb.map.tiles.len(), NUM_TILES);
}

#[test]
fn random_rooms_do_not_intersect_and_are_carved() {
    for seed in 0..20u64 {
        let mut rng = RandomNumberGenerator::seeded(seed);
        let mut map = DungeonMap::new();
        for t in map.tiles.iter_mut() {
            *t = TileType::Wall;
        }
        let mut rooms = Vec::new();
        let mut architect = RoomsArchitect {};
        let attempts = architect.build_random_rooms(&mut rng, &mut map, &mut rooms);
        assert_eq!(rooms.len(), NUM_ROOMS);
        assert!(attempts >= NUM_ROOMS as u64);
        for (k, r) in rooms.iter().enumerate() {
            assert!(r.x1 >= 1 && r.x1 < 80 - MAX_ROOM_SIZE - 1);
            assert!(r.y1 >= 1 && r.y1 < 50 - MAX_ROOM_SIZE - 1);
            assert!(r.x2 - r.x1 >= MIN_ROOM_SIZE && r.x2 - r.x1 < MAX_ROOM_SIZE);
            assert!(r.y2 - r.y1 >= MIN_ROOM_SIZE && r.y2 - r.y1 < MAX_ROOM_SIZE);
            for other in rooms.iter().skip(k + 1) {
                assert!(!r.intersect(other));
            }
        }
        for y in 0..50 {
            for x in 0..80 {
                let expected = if rooms.iter().any(|r| carved(r, x, y)) { TileType::Floor } else { TileType::Wall };
                assert_eq!(map.tiles[map_idx(x, y)], expected);
            }
        }
    }
}

#[test]
fn random_rooms_keep_a_full_list() {
    let mut rng = RandomNumberGenerator::seeded(7);
    let mut map = DungeonMap::new();
    let full: Vec<Rect> = (0..NUM_ROOMS as i32).map(|i| Rect::with_size(i, 0, 1, 1)).collect();
    let mut rooms = full.clone();
    let mut architect = RoomsArchitect {};
    let attempts = architect.build_random_rooms(&mut rng, &mut map, &mut rooms);
    assert_eq!(attempts, 0);
    assert_eq!(rooms, full);
    assert!(map.tiles.iter().all(|t| *t == TileType::Floor));
}

#[test]
fn rooms_are_sorted_stably_by_center_column() {
    let a = Rect::with_size(10, 1, 4, 4); // center x 12
    let b = Rect::with_size(2, 5, 4, 4); // center x 4
    let c = Rect::with_size(11, 9, 3, 3); // center x 12
    let d = Rect::with_size(1, 20, 3, 3); // center x 2
    let sorted = sort_rooms_by_center_x(&vec![a, b, c, d]);
    assert_eq!(sorted, vec![d, b, a, c]);
    assert_eq!(sort_rooms_by_center_x(&Vec::new()), Vec::<Rect>::new());
}

#[test]
fn corridors_join_consecutive_rooms() {
    for seed in 0..10u64 {
        let mut rng = RandomNumberGenerator::seeded(seed);
        let mut map = DungeonMap::new();
        for t in map.tiles.iter_mut() {
            *t = TileType::Wall;
        }
        let mut rooms = vec![
            Rect::with_size(30, 20, 3, 3),
            Rect::with_size(5, 5, 3, 3),
            Rect::with_size(60, 40, 3, 3),
        ];
        let before = rooms.clone();
        let mut architect = RoomsArchitect {};
        architect.build_corridors(&mut rng, &mut map, &mut rooms);
        assert_eq!(rooms, before);
        let floor = |x: i32, y: i32| map.tiles[map_idx(x, y)] == TileType::Floor;
        let pairs = [(Point::new(6, 6), Point::new(31, 21)), (Point::new(31, 21), Point::new(61, 41))];
        let on_l = |a: &Point, b: &Point, x: i32, y: i32| {
            let in_x = x >= a.x.min(b.x) && x <= a.x.max(b.x);
            let in_y = y >= a.y.min(b.y) && y <= a.y.max(b.y);
            (y == a.y && in_x) || (x == b.x && in_y) || (x == a.x && in_y) || (y == b.y && in_x)
        };
        for (a, b) in pairs.iter() {
            let row = |y: i32| (a.x.min(b.x)..=a.x.max(b.x)).all(|x| floor(x, y));
            let col = |x: i32| (a.y.min(b.y)..=a.y.max(b.y)).all(|y| floor(x, y));
            let horizontal_first = row(a.y) && col(b.x);
            let vertical_first = col(a.x) && row(b.y);
            assert!(horizontal_first || vertical_first);
        }
        for y in 0..50 {
            for x in 0..80 {
                if floor(x, y) {
                    assert!(pairs.iter().any(|(a, b)| on_l(a, b, x, y)));
                }
            }
        }
    }
}

#[test]
fn rooms_architect_builds_a_playable_level() {
    for seed in 0..10u64 {
        let mut rng = RandomNumberGenerator::seeded(seed);
        let mut architect = RoomsArchitect {};
        let mb = architect.build(&mut rng).expect("a level");
        assert_eq!(mb.rooms.len(), NUM_ROOMS);
        assert_eq!(mb.player_start, mb.rooms[0].center());
        assert_eq!(mb.map.tiles[mb.map.point2d_to_index(mb.player_start)], TileType::Floor);
        assert_eq!(mb.monster_spawns.len(), NUM_ROOMS - 1);
        for (k, m) in mb.monster_spawns.iter().enumerate() {
            assert_eq!(*m, mb.rooms[k + 1].center());
            assert_eq!(mb.map.tiles[mb.map.point2d_to_index(*m)], TileType::Floor);
        }
        assert_eq!(mb.lantern_spawns.len(), NUM_LANTERN);
        for (k, l) in mb.lantern_spawns.iter().enumerate() {
            assert_eq!(mb.map.tiles[mb.map.point2d_to_index(*l)], TileType::Floor);
            assert!(!mb.lantern_spawns[k + 1..].contains(l));
        }
        assert_eq!(mb.amulet_start, Point::zero());
        assert_eq!(mb.theme, Theme::Dungeon(DungeonTheme {}));
        for y in 0..50 {
            for x in 0..80 {
                let in_room = mb.rooms.iter().any(|r| carved(r, x, y));
                if in_room {
                    assert_eq!(mb.map.tiles[map_idx(x, y)], TileType::Floor);
                }
            }
        }
        assert!(mb.map.revealed_tiles.iter().all(|r| !*r));
    }
}

#[test]
fn map_builder_new_picks_a_theme() {
    let mut saw_dungeon = false;
    let mut saw_forest = false;
    for seed in 0..20u64 {
        let mut rng = RandomNumberGenerator::seeded(seed);
        let mb = MapBuilder::new(&mut rng).expect("a level");
        match mb.theme {
            Theme::Dungeon(_) => saw_dungeon = true,
            Theme::Forest(_) => saw_forest = true,
        }
        assert_eq!(mb.rooms.len(), NUM_ROOMS);
    }
    assert!(saw_dungeon && saw_forest);
}

#[test]
fn most_distant_is_the_last_farthest_reachable_tile() {
    let mb = empty_builder(TileType::Floor);
    let mut distances: Vec<Option<u32>> = vec![None; NUM_TILES];
    distances[0] = Some(0);
    distances[5] = Some(7);
    distances[90] = Some(7);
    distances[200] = Some(3);
    assert_eq!(mb.find_most_distant(&distances), Point::new(10, 1));
    distances[3999] = Some(8);
    assert_eq!(mb.find_most_distant(&distances), Point::new(79, 49));
}

#[test]
fn place_amulet_sets_only_the_amulet() {
    let mut mb = empty_builder(TileType::Floor);
    let mut distances: Vec<Option<u32>> = vec![None; NUM_TILES];
    distances[161] = Some(2);
    distances[162] = Some(1);
    mb.place_amulet(&distances);
    assert_eq!(mb.amulet_start, Point::new(1, 2));
    assert_eq!(mb.player_start, Point::zero());
}

#[test]
fn lanterns_take_every_floor_tile_when_there_are_just_enough() {
    let mut mb = empty_builder(TileType::Wall);
    let floor: Vec<Point> = (0..NUM_LANTERN as i32).map(|i| Point::new(10 + i, 5)).collect();
    for p in floor.iter() {
        let idx = mb.map.point2d_to_index(*p);
        mb.map.tiles[idx] = TileType::Floor;
    }
    assert_eq!(mb.spots_exec(SpotRule::Floor), floor);
    let mut rng = RandomNumberGenerator::seeded(3);
    let mut lanterns = mb.spawn_lantern(&mut rng);
    lanterns.sort_by_key(|p| p.x);
    assert_eq!(lanterns, floor);
}

#[test]
fn monsters_spawn_far_from_the_start() {
    let mb = empty_builder(TileType::Floor);
    let start = Point::new(40, 25);
    let spots = mb.spots_exec(SpotRule::FloorFarFrom(start));
    assert!(spots.iter().all(|p| (p.x - 40) * (p.x - 40) + (p.y - 25) * (p.y - 25) > 100));
    assert!(!spots.contains(&Point::new(46, 33)));
    assert!(spots.contains(&Point::new(46, 34)));
    let mut rng = RandomNumberGenerator::seeded(11);
    let monsters = mb.spawn_monster(&start, &mut rng);
    assert_eq!(monsters.len(), NUM_MONSTERS);
    for (k, m) in monsters.iter().enumerate() {
        assert!(spots.contains(m));
        assert!(!monsters[k + 1..].contains(m));
    }
}

#[test]
fn themes_draw_each_tile_type() {
    let dungeon = DungeonTheme::build();
    let forest = ForestTheme::build();
    assert_eq!(dungeon.tile_to_render(TileType::Floor), MyTile { x: 15, y: 3 });
    assert_eq!(dungeon.tile_to_render(TileType::Wall), MyTile { x: 4, y: 3 });
    assert_eq!(dungeon.tile_to_render(TileType::Exit), MyTile { x: 15, y: 4 });
    assert_eq!(forest.tile_to_render(TileType::Floor), MyTile { x: 12, y: 4 });
    assert_eq!(forest.tile_to_render(TileType::Wall), MyTile { x: 1, y: 2 });
    assert_eq!(forest.tile_to_render(TileType::Exit), MyTile { x: 15, y: 4 });
    assert_eq!(DungeonTheme {}.tile_to_render(TileType::Wall), MyTile { x: 4, y: 3 });
    assert_eq!(ForestTheme {}.tile_to_render(TileType::Wall), MyTile { x: 1, y: 2 });
}

/// Tiles reachable from `start` by walking over floor and exits, found breadth first.
fn reachable(map: &DungeonMap, start: Point) -> Vec<bool> {
    let mut seen = vec![false; NUM_TILES];
    let first = map.point2d_to_index(start);
    seen[first] = true;
    let mut queue = vec![first];
    while let Some(idx) = queue.pop() {
        for next in map.available_exits(idx) {
            if !seen[next] {
                seen[next] = true;
                queue.push(next);
            }
        }
    }
    seen
}

#[test]
fn every_floor_tile_can_be_reached_from_the_start() {
    for seed in 0..10u64 {
        let mut rng = RandomNumberGenerator::seeded(seed);
        let mb = MapBuilder::new(&mut rng).expect("a level");
        let seen = reachable(&mb.map, mb.player_start);
        for idx in 0..NUM_TILES {
            if mb.map.tiles[idx] == TileType::Floor {
                assert!(seen[idx], "tile {} is cut off", idx);
            }
        }
        for r in mb.rooms.iter() {
            assert!(seen[mb.map.point2d_to_index(r.center())]);
        }
        for l in mb.lantern_spawns.iter() {
            assert!(seen[mb.map.point2d_to_index(*l)]);
        }
    }
}

#[test]
fn exits_lead_to_enterable_neighbours() {
    let mut map = DungeonMap::new();
    map.tiles[map_idx(4, 5)] = TileType::Wall;
    map.tiles[map_idx(5, 4)] = TileType::Exit;
    assert_eq!(map.available_exits(map_idx(5, 5)), vec![map_idx(6, 5), map_idx(5, 4), map_idx(5, 6)]);
    assert_eq!(map.available_exits(0), vec![1, 80]);
    assert_eq!(map.available_exits(3999), vec![3998, 3919]);
    assert!(map.can_enter_tile(Point::new(5, 4)));
    assert!(!map.can_enter_tile(Point::new(4, 5)));
    assert!(!map.can_enter_tile(Point::new(-1, 5)));
    assert!(map.has_all_tiles());
    assert!(map.is_opaque(map_idx(4, 5)));
    assert!(map.is_opaque(map_idx(5, 4)));
    assert!(!map.is_opaque(map_idx(5, 5)));
}

#[test]
fn glyph_tile_reads_a_sheet_of_sixteen_columns() {
    assert_eq!(glyph_tile(0), MyTile { x: 0, y: 0 });
    assert_eq!(glyph_tile(64), MyTile { x: 0, y: 4 });
    assert_eq!(glyph_tile(0x9D), MyTile { x: 13, y: 9 });
    assert_eq!(glyph_tile(255), MyTile { x: 15, y: 15 });
}

#[test]
fn build_places_a_full_set_of_rooms_with_enough_floor() {
    for seed in 100..110u64 {
        let mut rng = RandomNumberGenerator::seeded(seed);
        let mut architect = RoomsArchitect {};
        let mb = architect.build(&mut rng).expect("a level");
        assert_eq!(mb.rooms.len(), NUM_ROOMS);
        let floor = mb.spots_exec(SpotRule::Floor);
        assert!(floor.len() >= mb.rooms.len());
        for room in mb.rooms.iter() {
            assert!(floor.contains(&room.center()));
        }
    }
}

#[test]
fn finish_level_gives_up_without_a_full_set_of_rooms() {
    let mut rng = RandomNumberGenerator::seeded(3);
    let mut mb = empty_builder(TileType::Wall);
    let room = Rect::with_size(5, 5, 4, 4);
    for y in 5..9 {
        for x in 5..9 {
            mb.map.tiles[map_idx(x, y)] = TileType::Floor;
        }
    }
    mb.rooms.push(room);
    let mut architect = RoomsArchitect {};
    let r = architect.finish_level(&mut rng, mb, 5);
    assert_eq!(r.err(), Some(RoomsExhausted { attempts: 5, rooms_placed: 1 }));
}

#[test]
fn finish_level_completes_a_full_set_of_rooms() {
    let mut rng = RandomNumberGenerator::seeded(11);
    let mut mb = empty_builder(TileType::Wall);
    let mut architect = RoomsArchitect {};
    let attempts = architect.build_random_rooms(&mut rng, &mut mb.map, &mut mb.rooms);
    let rooms = mb.rooms.clone();
    let done = architect.finish_level(&mut rng, mb, attempts).expect("a level");
    assert_eq!(done.rooms, rooms);
    assert_eq!(done.player_start, rooms[0].center());
    assert_eq!(done.monster_spawns, rooms.iter().skip(1).map(|r| r.center()).collect::<Vec<_>>());
    assert_eq!(done.lantern_spawns.len(), NUM_LANTERN);
    for p in done.lantern_spawns.iter() {
        assert_eq!(done.map.tiles[map_idx(p.x, p.y)], TileType::Floor);
    }
}

#[test]
fn place_candidate_places_only_a_room_apart_from_the_others() {
    let mut map = DungeonMap::new();
    for t in map.tiles.iter_mut() {
        *t = TileType::Wall;
    }
    let mut rooms = Vec::new();
    let first = Rect::with_size(1, 1, 4, 4);
    assert!(place_candidate(&mut map, &mut rooms, first));
    assert_eq!(rooms, vec![first]);
    for y in 0..50 {
        for x in 0..80 {
            let expected = if carved(&first, x, y) { TileType::Floor } else { TileType::Wall };
            assert_eq!(map.tiles[map_idx(x, y)], expected);
        }
    }
    let before = map.tiles.clone();
    let touching = Rect::with_size(5, 5, 3, 3);
    assert!(!place_candidate(&mut map, &mut rooms, touching));
    assert_eq!(rooms, vec![first]);
    assert_eq!(map.tiles, before);
    let apart = Rect::with_size(10, 10, 3, 3);
    assert!(place_candidate(&mut map, &mut rooms, apart));
    assert_eq!(rooms, vec![first, apart]);
    assert_eq!(map.tiles[map_idx(11, 11)], TileType::Floor);
}

#[test]
fn dig_corridor_follows_the_chosen_orientation() {
    let walls = || {
        let mut map = DungeonMap::new();
        for t in map.tiles.iter_mut() {
            *t = TileType::Wall;
        }
        map
    };
    let prev = Point::new(2, 3);
    let new = Point::new(6, 8);
    let mut row_first = walls();
    dig_corridor(&mut row_first, prev, new, true);
    let mut column_first = walls();
    dig_corridor(&mut column_first, prev, new, false);
    for y in 0..50 {
        for x in 0..80 {
            let on_row_first = (y == 3 && (2..=6).contains(&x)) || (x == 6 && (3..=8).contains(&y));
            let on_column_first = (x == 2 && (3..=8).contains(&y)) || (y == 8 && (2..=6).contains(&x));
            let tile = |b: bool| if b { TileType::Floor } else { TileType::Wall };
            assert_eq!(row_first.tiles[map_idx(x, y)], tile(on_row_first));
            assert_eq!(column_first.tiles[map_idx(x, y)], tile(on_column_first));
        }
    }
}

#[test]
fn theme_for_coin_picks_dungeon_on_zero() {
    assert_eq!(theme_for_coin(0), Theme::Dungeon(DungeonTheme {}));
    assert_eq!(theme_for_coin(1), Theme::Forest(ForestTheme {}));
}
