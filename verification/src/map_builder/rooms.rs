use vstd::prelude::*;

use bracket_lib::prelude::RandomNumberGenerator;

use crate::geometry::{between, fits_i32, Point, Rect, SCREEN_HEIGHT, SCREEN_WIDTH};
use crate::map::{
    idx_of, in_grid, lemma_idx_in_range, lemma_idx_of_point, map_idx, point_of, tile_at,
    DungeonMap, TileType, NUM_TILES,
};
use crate::random::random_range;

use super::{lemma_spots_upto, spot_ok, spots, DungeonTheme, MapBuilder, SpotRule, Theme, NUM_LANTERN};

verus! {

/// Number of rooms that the architect places.
pub const NUM_ROOMS: usize = 20;

/// Smallest room side drawn.
pub const MIN_ROOM_SIZE: i32 = 3;

/// Room sides are drawn below this length.
pub const MAX_ROOM_SIZE: i32 = 10;

/// How many candidate rooms the architect draws at most before it stops.
pub const MAX_ROOM_ATTEMPTS: u64 = 0xffff_ffff_ffff_ffff;

/// Builds levels made of rectangular rooms joined by L-shaped corridors.
pub struct RoomsArchitect {}

/// A room that `build_random_rooms` can draw: its corner and its sides lie in the drawn ranges.
pub open spec fn drawable_room(r: Rect) -> bool {
    &&& 1 <= r.x1 < SCREEN_WIDTH - MAX_ROOM_SIZE - 1
    &&& 1 <= r.y1 < SCREEN_HEIGHT - MAX_ROOM_SIZE - 1
    &&& MIN_ROOM_SIZE <= r.x2 - r.x1 < MAX_ROOM_SIZE
    &&& MIN_ROOM_SIZE <= r.y2 - r.y1 < MAX_ROOM_SIZE
}

/// Whether carving room `r` turns `(x, y)` to floor: the point lies in the room and away
/// from the two outermost rings of the map.
pub open spec fn carves(r: Rect, x: int, y: int) -> bool {
    r.contains_xy(x, y) && 1 < x < SCREEN_WIDTH - 1 && 1 < y < SCREEN_HEIGHT - 1
}

/// Whether one of `rooms` carves `(x, y)`.
pub open spec fn carved_by_any(rooms: Seq<Rect>, x: int, y: int) -> bool {
    exists|k: int| 0 <= k < rooms.len() && carves(#[trigger] rooms[k], x, y)
}

/// Whether every room of index at least `from` is apart from all the rooms before it.
pub open spec fn separated_from(rooms: Seq<Rect>, from: int) -> bool {
    forall|j: int, k: int|
        0 <= j < k < rooms.len() && from <= k ==> !(#[trigger] rooms[j]).intersects(
            #[trigger] rooms[k],
        )
}

/// The x coordinate of a room's center, by which corridors are ordered.
pub open spec fn center_x(r: Rect) -> int {
    r.center_spec().x as int
}

/// `r` inserted into `sorted` after every room whose center is not to its right.
pub open spec fn insert_by_center_x(sorted: Seq<Rect>, r: Rect) -> Seq<Rect>
    decreases sorted.len(),
{
    if sorted.len() == 0 {
        seq![r]
    } else if center_x(sorted.last()) <= center_x(r) {
        sorted.push(r)
    } else {
        insert_by_center_x(sorted.drop_last(), r).push(sorted.last())
    }
}

/// The rooms ordered by the x coordinate of their centers; rooms whose centers share an x
/// coordinate keep their order (a stable sort).
pub open spec fn sort_by_center_x(rooms: Seq<Rect>) -> Seq<Rect>
    decreases rooms.len(),
{
    if rooms.len() == 0 {
        seq![]
    } else {
        insert_by_center_x(sort_by_center_x(rooms.drop_last()), rooms.last())
    }
}

/// Whether `(x, y)` lies on the L-shaped corridor from `a` to `b`: along the row of `a` then
/// the column of `b` when `horizontal_first`, otherwise along the column of `a` then the row
/// of `b`.
pub open spec fn on_corridor(a: Point, b: Point, horizontal_first: bool, x: int, y: int) -> bool {
    if horizontal_first {
        (y == a.y && between(x, a.x as int, b.x as int)) || (x == b.x && between(
            y,
            a.y as int,
            b.y as int,
        ))
    } else {
        (x == a.x && between(y, a.y as int, b.y as int)) || (y == b.y && between(
            x,
            a.x as int,
            b.x as int,
        ))
    }
}

/// Whether `(x, y)` lies on one of the corridors joining consecutive rooms of `ordered`,
/// corridor `k` (between rooms `k` and `k + 1`) being dug as `choices[k]` says.
pub open spec fn on_any_corridor(ordered: Seq<Rect>, choices: Seq<bool>, x: int, y: int) -> bool {
    exists|k: int|
        0 <= k && k + 1 < ordered.len() && on_corridor(
            ordered[k].center_spec(),
            ordered[k + 1].center_spec(),
            #[trigger] choices[k],
            x,
            y,
        )
}

/// Whether `(x, y)` lies on one of the corridors that join rooms of `ordered` up to
/// room `m - 1`.
pub open spec fn on_corridor_before(
    ordered: Seq<Rect>,
    choices: Seq<bool>,
    m: int,
    x: int,
    y: int,
) -> bool {
    exists|k: int|
        0 <= k && k + 1 < m && k + 1 < ordered.len() && on_corridor(
            ordered[k].center_spec(),
            ordered[k + 1].center_spec(),
            #[trigger] choices[k],
            x,
            y,
        )
}

/// Whether `new_tiles` is `old_tiles` with floor dug along the corridors joining
/// consecutive rooms of `ordered`, as `choices` says, and nothing else changed.
pub open spec fn corridors_dug(
    old_tiles: Seq<TileType>,
    new_tiles: Seq<TileType>,
    ordered: Seq<Rect>,
    choices: Seq<bool>,
) -> bool {
    &&& choices.len() + 1 >= ordered.len()
    &&& forall|x: int, y: int|
        in_grid(x, y) ==> #[trigger] tile_at(new_tiles, x, y) == if on_any_corridor(
            ordered,
            choices,
            x,
            y,
        ) {
            TileType::Floor
        } else {
            tile_at(old_tiles, x, y)
        }
}

/// Whether the centers of all rooms can be computed without overflow.
pub open spec fn centers_computable(rooms: Seq<Rect>) -> bool {
    forall|k: int|
        0 <= k < rooms.len() ==> fits_i32((#[trigger] rooms[k]).x1 + rooms[k].x2) && fits_i32(
            rooms[k].y1 + rooms[k].y2,
        )
}

/// The tiles of a level whose rooms are `rooms` and whose corridors are dug as `choices`
/// says: floor in the carved part of the rooms and on the corridors, wall elsewhere.
pub open spec fn layout_tile(rooms: Seq<Rect>, choices: Seq<bool>, x: int, y: int) -> TileType {
    if carved_by_any(rooms, x, y) || on_any_corridor(sort_by_center_x(rooms), choices, x, y) {
        TileType::Floor
    } else {
        TileType::Wall
    }
}

/// The whole map of such a level, in row-major order.
pub open spec fn layout_tiles(rooms: Seq<Rect>, choices: Seq<bool>) -> Seq<TileType> {
    Seq::new(
        NUM_TILES as nat,
        |i: int| layout_tile(rooms, choices, point_of(i).x as int, point_of(i).y as int),
    )
}

/// Whether `rooms` is a full set of rooms that the architect can produce.
pub open spec fn valid_rooms(rooms: Seq<Rect>) -> bool {
    &&& rooms.len() == NUM_ROOMS
    &&& forall|k: int| 0 <= k < rooms.len() ==> drawable_room(#[trigger] rooms[k])
    &&& separated_from(rooms, 0)
}

/// Whether `mb` is a level as the rooms architect leaves it: twenty valid rooms, a map of walls
/// with the rooms carved and the corridors dug, nothing seen yet, the player at the center
/// of the first room, a monster spot at the center of each other room and twenty distinct
/// lantern spots on floor tiles.
pub open spec fn rooms_level(mb: MapBuilder) -> bool {
    &&& mb.map.wf()
    &&& valid_rooms(mb.rooms@)
    &&& exists|choices: Seq<bool>| #[trigger] layout_tiles(mb.rooms@, choices) == mb.map.tiles@
    &&& forall|i: int|
        0 <= i < NUM_TILES ==> !#[trigger] mb.map.revealed_tiles@[i]
            && !mb.map.far_revealed_tiles@[i]
    &&& mb.player_start == mb.rooms@[0].center_spec()
    &&& mb.monster_spawns@ == Seq::new(
        (mb.rooms@.len() - 1) as nat,
        |k: int| mb.rooms@[k + 1].center_spec(),
    )
    &&& mb.lantern_spawns@.len() == NUM_LANTERN
    &&& mb.lantern_spawns@.no_duplicates()
    &&& forall|k: int|
        0 <= k < NUM_LANTERN ==> spots(SpotRule::Floor, mb.map.tiles@).contains(
            #[trigger] mb.lantern_spawns@[k],
        )
}

/// Turns to floor the tiles that `room` carves, leaves the others as they are.
fn carve_room(map: &mut DungeonMap, room: &Rect)
    requires
        old(map).wf(),
    ensures
        final(map).wf(),
        final(map).revealed_tiles == old(map).revealed_tiles,
        final(map).far_revealed_tiles == old(map).far_revealed_tiles,
        forall|x: int, y: int|
            in_grid(x, y) ==> #[trigger] tile_at(final(map).tiles@, x, y) == if carves(*room, x, y) {
                TileType::Floor
            } else {
                tile_at(old(map).tiles@, x, y)
            },
{
    let mut y = room.y1;
    while y < room.y2
        invariant
            map.wf(),
            map.revealed_tiles == old(map).revealed_tiles,
            map.far_revealed_tiles == old(map).far_revealed_tiles,
            room.y1 <= y,
            y <= room.y2 || room.y2 < room.y1,
            forall|gx: int, gy: int|
                in_grid(gx, gy) ==> #[trigger] tile_at(map.tiles@, gx, gy) == if carves(*room, gx, gy)
                    && gy < y {
                    TileType::Floor
                } else {
                    tile_at(old(map).tiles@, gx, gy)
                },
        decreases room.y2 - y,
    {
        let mut x = room.x1;
        while x < room.x2
            invariant
                map.wf(),
                map.revealed_tiles == old(map).revealed_tiles,
                map.far_revealed_tiles == old(map).far_revealed_tiles,
                room.x1 <= x,
                x <= room.x2 || room.x2 < room.x1,
                room.y1 <= y < room.y2,
                forall|gx: int, gy: int|
                    in_grid(gx, gy) ==> #[trigger] tile_at(map.tiles@, gx, gy) == if carves(
                        *room,
                        gx,
                        gy,
                    ) && (gy < y || (gy == y && gx < x)) {
                        TileType::Floor
                    } else {
                        tile_at(old(map).tiles@, gx, gy)
                    },
            decreases room.x2 - x,
        {
            if x > 1 && x < SCREEN_WIDTH - 1 && y > 1 && y < SCREEN_HEIGHT - 1 {
                let idx = map_idx(x, y);
                let ghost before = map.tiles@;
                map.tiles.set(idx, TileType::Floor);
                assert forall|gx: int, gy: int| in_grid(gx, gy) && (gx != x || gy != y) implies #[trigger] tile_at(
                    map.tiles@,
                    gx,
                    gy,
                ) == tile_at(before, gx, gy) by {
                    lemma_idx_in_range(gx, gy);
                    if idx_of(gx, gy) == idx as int {
                        crate::map::lemma_idx_injective(gx, gy, x as int, y as int);
                    }
                }
            }
            x = x + 1;
        }
        y = y + 1;
    }
}

/// Turns to floor the in-grid tiles of column `x` from row `y1` to row `y2`, both included.
fn apply_vertical_tunnel(map: &mut DungeonMap, y1: i32, y2: i32, x: i32)
    requires
        old(map).wf(),
    ensures
        final(map).wf(),
        final(map).revealed_tiles == old(map).revealed_tiles,
        final(map).far_revealed_tiles == old(map).far_revealed_tiles,
        forall|gx: int, gy: int|
            in_grid(gx, gy) ==> #[trigger] tile_at(final(map).tiles@, gx, gy) == if gx == x
                && between(gy, y1 as int, y2 as int) {
                TileType::Floor
            } else {
                tile_at(old(map).tiles@, gx, gy)
            },
{
    let lo: i64 = if y1 < y2 { y1 as i64 } else { y2 as i64 };
    let hi: i64 = if y1 < y2 { y2 as i64 } else { y1 as i64 };
    let mut y: i64 = lo;
    while y <= hi
        invariant
            map.wf(),
            map.revealed_tiles == old(map).revealed_tiles,
            map.far_revealed_tiles == old(map).far_revealed_tiles,
            lo <= y <= hi + 1,
            lo == (if y1 < y2 { y1 as int } else { y2 as int }),
            hi == (if y1 < y2 { y2 as int } else { y1 as int }),
            forall|gx: int, gy: int|
                in_grid(gx, gy) ==> #[trigger] tile_at(map.tiles@, gx, gy) == if gx == x && lo <= gy
                    < y {
                    TileType::Floor
                } else {
                    tile_at(old(map).tiles@, gx, gy)
                },
        decreases hi + 1 - y,
    {
        if let Some(idx) = map.try_idx(Point::new(x, y as i32)) {
            let ghost before = map.tiles@;
            map.tiles.set(idx, TileType::Floor);
            assert forall|gx: int, gy: int| in_grid(gx, gy) && (gx != x || gy != y) implies #[trigger] tile_at(
                map.tiles@,
                gx,
                gy,
            ) == tile_at(before, gx, gy) by {
                lemma_idx_in_range(gx, gy);
                if idx_of(gx, gy) == idx as int {
                    crate::map::lemma_idx_injective(gx, gy, x as int, y as int);
                }
            }
        }
        y = y + 1;
    }
}

/// Turns to floor the in-grid tiles of row `y` from column `x1` to column `x2`, both included.
fn apply_horizontal_tunnel(map: &mut DungeonMap, x1: i32, x2: i32, y: i32)
    requires
        old(map).wf(),
    ensures
        final(map).wf(),
        final(map).revealed_tiles == old(map).revealed_tiles,
        final(map).far_revealed_tiles == old(map).far_revealed_tiles,
        forall|gx: int, gy: int|
            in_grid(gx, gy) ==> #[trigger] tile_at(final(map).tiles@, gx, gy) == if gy == y
                && between(gx, x1 as int, x2 as int) {
                TileType::Floor
            } else {
                tile_at(old(map).tiles@, gx, gy)
            },
{
    let lo: i64 = if x1 < x2 { x1 as i64 } else { x2 as i64 };
    let hi: i64 = if x1 < x2 { x2 as i64 } else { x1 as i64 };
    let mut x: i64 = lo;
    while x <= hi
        invariant
            map.wf(),
            map.revealed_tiles == old(map).revealed_tiles,
            map.far_revealed_tiles == old(map).far_revealed_tiles,
            lo <= x <= hi + 1,
            lo == (if x1 < x2 { x1 as int } else { x2 as int }),
            hi == (if x1 < x2 { x2 as int } else { x1 as int }),
            forall|gx: int, gy: int|
                in_grid(gx, gy) ==> #[trigger] tile_at(map.tiles@, gx, gy) == if gy == y && lo <= gx
                    < x {
                    TileType::Floor
                } else {
                    tile_at(old(map).tiles@, gx, gy)
                },
        decreases hi + 1 - x,
    {
        if let Some(idx) = map.try_idx(Point::new(x as i32, y)) {
            let ghost before = map.tiles@;
            map.tiles.set(idx, TileType::Floor);
            assert forall|gx: int, gy: int| in_grid(gx, gy) && (gx != x || gy != y) implies #[trigger] tile_at(
                map.tiles@,
                gx,
                gy,
            ) == tile_at(before, gx, gy) by {
                lemma_idx_in_range(gx, gy);
                if idx_of(gx, gy) == idx as int {
                    crate::map::lemma_idx_injective(gx, gy, x as int, y as int);
                }
            }
        }
        x = x + 1;
    }
}

/// Digs the L-shaped corridor of floor from `prev` to `new`: along the row of `prev` and then
/// the column of `new` when `horizontal_first`, otherwise along the column of `prev` and then
/// the row of `new`. Tiles off the grid are skipped; no other tile changes.
pub fn dig_corridor(map: &mut DungeonMap, prev: Point, new: Point, horizontal_first: bool)
    requires
        old(map).wf(),
    ensures
        final(map).wf(),
        final(map).revealed_tiles == old(map).revealed_tiles,
        final(map).far_revealed_tiles == old(map).far_revealed_tiles,
        forall|x: int, y: int|
            in_grid(x, y) ==> #[trigger] tile_at(final(map).tiles@, x, y) == if on_corridor(
                prev,
                new,
                horizontal_first,
                x,
                y,
            ) {
                TileType::Floor
            } else {
                tile_at(old(map).tiles@, x, y)
            },
{
    if horizontal_first {
        apply_horizontal_tunnel(map, prev.x, new.x, prev.y);
        apply_vertical_tunnel(map, prev.y, new.y, new.x);
    } else {
        apply_vertical_tunnel(map, prev.y, new.y, prev.x);
        apply_horizontal_tunnel(map, prev.x, new.x, new.y);
    }
}

/// Inserts `r` into `sorted` as `insert_by_center_x` says.
fn insert_by_center_x_exec(sorted: &mut Vec<Rect>, r: Rect)
    requires
        centers_computable(old(sorted)@),
        fits_i32(r.x1 + r.x2),
        fits_i32(r.y1 + r.y2),
    ensures
        final(sorted)@ == insert_by_center_x(old(sorted)@, r),
    decreases old(sorted)@.len(),
{
    let n = sorted.len();
    if n == 0 {
        sorted.push(r);
    } else {
        let last = sorted[n - 1];
        if last.center().x <= r.center().x {
            sorted.push(r);
        } else {
            let ghost before = sorted@;
            let popped = sorted.pop();
            match popped {
                Some(l) => {
                    assert(sorted@ == before.drop_last());
                    insert_by_center_x_exec(sorted, r);
                    sorted.push(l);
                },
                None => {},
            }
        }
    }
}

/// The rooms, ordered as `sort_by_center_x` says.
pub fn sort_rooms_by_center_x(rooms: &Vec<Rect>) -> (r: Vec<Rect>)
    requires
        centers_computable(rooms@),
    ensures
        r@ == sort_by_center_x(rooms@),
        centers_computable(r@),
{
    let mut sorted: Vec<Rect> = Vec::new();
    for i in 0..rooms.len()
        invariant
            centers_computable(rooms@),
            sorted@ == sort_by_center_x(rooms@.take(i as int)),
            centers_computable(sorted@),
    {
        assert(rooms@.take(i + 1).drop_last() == rooms@.take(i as int));
        assert(rooms@.take(i + 1).last() == rooms@[i as int]);
        insert_by_center_x_exec(&mut sorted, rooms[i]);
        proof {
            lemma_insert_keeps_rooms(sort_by_center_x(rooms@.take(i as int)), rooms@[i as int]);
        }
    }
    assert(rooms@.take(rooms@.len() as int) == rooms@);
    sorted
}

/// Whether `room` intersects one of `rooms`.
pub open spec fn overlaps_any(rooms: Seq<Rect>, room: Rect) -> bool {
    exists|j: int| 0 <= j < rooms.len() && (#[trigger] rooms[j]).intersects(room)
}

/// The rooms that stand after each of `candidates`, in turn, is placed on top of `rooms`: a
/// candidate is appended when it intersects none of the rooms standing, dropped otherwise.
pub open spec fn place_all(rooms: Seq<Rect>, candidates: Seq<Rect>) -> Seq<Rect>
    decreases candidates.len(),
{
    if candidates.len() == 0 {
        rooms
    } else {
        let before = place_all(rooms, candidates.drop_last());
        if overlaps_any(before, candidates.last()) {
            before
        } else {
            before.push(candidates.last())
        }
    }
}

/// Whether `candidates` can be the candidates that room placement drew, one after the other,
/// starting from `rooms`: each is drawable, and each was drawn while fewer than `NUM_ROOMS`
/// rooms stood.
pub open spec fn drawn_in_turn(rooms: Seq<Rect>, candidates: Seq<Rect>) -> bool {
    forall|k: int|
        0 <= k < candidates.len() ==> drawable_room(#[trigger] candidates[k]) && place_all(
            rooms,
            candidates.take(k),
        ).len() < NUM_ROOMS
}

/// Places one candidate room: when it intersects none of `rooms`, carves it into the map and
/// appends it to `rooms`; otherwise changes nothing. Returns whether it was placed.
pub fn place_candidate(map: &mut DungeonMap, rooms: &mut Vec<Rect>, room: Rect) -> (placed: bool)
    requires
        old(map).wf(),
    ensures
        placed == !overlaps_any(old(rooms)@, room),
        final(rooms)@ == if placed {
            old(rooms)@.push(room)
        } else {
            old(rooms)@
        },
        final(map).wf(),
        final(map).revealed_tiles == old(map).revealed_tiles,
        final(map).far_revealed_tiles == old(map).far_revealed_tiles,
        forall|x: int, y: int|
            in_grid(x, y) ==> #[trigger] tile_at(final(map).tiles@, x, y) == if placed && carves(
                room,
                x,
                y,
            ) {
                TileType::Floor
            } else {
                tile_at(old(map).tiles@, x, y)
            },
{
    let mut overlap = false;
    let mut i: usize = 0;
    while i < rooms.len()
        invariant
            i <= rooms@.len(),
            overlap == exists|j: int| 0 <= j < i && (#[trigger] rooms@[j]).intersects(room),
        decreases rooms@.len() - i,
    {
        if rooms[i].intersect(&room) {
            overlap = true;
        }
        i = i + 1;
    }
    if !overlap {
        carve_room(map, &room);
        rooms.push(room);
    }
    !overlap
}

impl RoomsArchitect {
    /// Draws candidate rooms until `NUM_ROOMS` rooms stand (or `MAX_ROOM_ATTEMPTS` candidates
    /// have been drawn), placing each with `place_candidate`. Returns the number of
    /// candidates drawn.
    pub fn build_random_rooms(
        &mut self,
        rng: &mut RandomNumberGenerator,
        map: &mut DungeonMap,
        rooms: &mut Vec<Rect>,
    ) -> (attempts: u64)
        requires
            old(map).wf(),
        ensures
            exists|candidates: Seq<Rect>|
                #![trigger place_all(old(rooms)@, candidates)]
                candidates.len() == attempts && drawn_in_turn(old(rooms)@, candidates)
                    && final(rooms)@ == place_all(old(rooms)@, candidates),
            final(rooms)@.len() < NUM_ROOMS ==> attempts == MAX_ROOM_ATTEMPTS,
            attempts <= MAX_ROOM_ATTEMPTS,
            old(rooms)@.len() >= NUM_ROOMS ==> attempts == 0,
            attempts < MAX_ROOM_ATTEMPTS ==> final(rooms)@.len() == if old(rooms)@.len()
                >= NUM_ROOMS {
                old(rooms)@.len()
            } else {
                NUM_ROOMS as nat
            },
            final(map).wf(),
            final(map).revealed_tiles == old(map).revealed_tiles,
            final(map).far_revealed_tiles == old(map).far_revealed_tiles,
            final(rooms)@.len() >= old(rooms)@.len(),
            final(rooms)@.subrange(0, old(rooms)@.len() as int) == old(rooms)@,
            old(rooms)@.len() < NUM_ROOMS ==> final(rooms)@.len() <= NUM_ROOMS,
            old(rooms)@.len() >= NUM_ROOMS ==> final(rooms)@ == old(rooms)@,
            old(rooms)@.len() == 0 ==> final(rooms)@.len() >= 1,
            forall|k: int|
                old(rooms)@.len() <= k < final(rooms)@.len() ==> drawable_room(
                    #[trigger] final(rooms)@[k],
                ),
            separated_from(final(rooms)@, old(rooms)@.len() as int),
            forall|x: int, y: int|
                in_grid(x, y) ==> #[trigger] tile_at(final(map).tiles@, x, y) == if carved_by_any(
                    final(rooms)@.subrange(old(rooms)@.len() as int, final(rooms)@.len() as int),
                    x,
                    y,
                ) {
                    TileType::Floor
                } else {
                    tile_at(old(map).tiles@, x, y)
                },
    {
        let ghost old_len = rooms@.len() as int;
        let ghost mut candidates: Seq<Rect> = seq![];
        let mut attempts: u64 = 0;
        while rooms.len() < NUM_ROOMS && attempts < MAX_ROOM_ATTEMPTS
            invariant
                map.wf(),
                map.revealed_tiles == old(map).revealed_tiles,
                map.far_revealed_tiles == old(map).far_revealed_tiles,
                old_len == old(rooms)@.len(),
                candidates.len() == attempts,
                drawn_in_turn(old(rooms)@, candidates),
                rooms@ == place_all(old(rooms)@, candidates),
                rooms@.len() >= old_len,
                rooms@.subrange(0, old_len) == old(rooms)@,
                old_len < NUM_ROOMS ==> rooms@.len() <= NUM_ROOMS,
                old_len >= NUM_ROOMS ==> rooms@ == old(rooms)@,
                old_len >= NUM_ROOMS ==> attempts == 0,
                old_len == 0 && attempts > 0 ==> rooms@.len() >= 1,
                forall|k: int| old_len <= k < rooms@.len() ==> drawable_room(#[trigger] rooms@[k]),
                separated_from(rooms@, old_len),
                forall|x: int, y: int|
                    in_grid(x, y) ==> #[trigger] tile_at(map.tiles@, x, y) == if carved_by_any(
                        rooms@.subrange(old_len, rooms@.len() as int),
                        x,
                        y,
                    ) {
                        TileType::Floor
                    } else {
                        tile_at(old(map).tiles@, x, y)
                    },
            decreases MAX_ROOM_ATTEMPTS - attempts,
        {
            attempts = attempts + 1;
            let x = random_range(rng, 1, SCREEN_WIDTH - MAX_ROOM_SIZE - 1);
            let y = random_range(rng, 1, SCREEN_HEIGHT - MAX_ROOM_SIZE - 1);
            let w = random_range(rng, MIN_ROOM_SIZE, MAX_ROOM_SIZE);
            let h = random_range(rng, MIN_ROOM_SIZE, MAX_ROOM_SIZE);
            let room = Rect::with_size(x, y, w, h);
            let ghost tiles_before = map.tiles@;
            let ghost rooms_before = rooms@;
            let ghost before_candidates = candidates;
            let placed = place_candidate(map, rooms, room);
            proof {
                candidates = candidates.push(room);
                assert(candidates.drop_last() == before_candidates);
                assert(candidates.last() == room);
                assert forall|k: int| 0 <= k < candidates.len() implies drawable_room(
                    #[trigger] candidates[k],
                ) && place_all(old(rooms)@, candidates.take(k)).len() < NUM_ROOMS by {
                    if k < before_candidates.len() {
                        assert(candidates[k] == before_candidates[k]);
                        assert(candidates.take(k) == before_candidates.take(k));
                    } else {
                        assert(candidates.take(k) == before_candidates);
                    }
                }
                if placed {
                    assert(rooms@.subrange(0, old_len) == rooms_before.subrange(0, old_len));
                    let added = rooms@.subrange(old_len, rooms@.len() as int);
                    let added_before = rooms_before.subrange(old_len, rooms_before.len() as int);
                    assert forall|gx: int, gy: int| in_grid(gx, gy) implies #[trigger] tile_at(
                        map.tiles@,
                        gx,
                        gy,
                    ) == if carved_by_any(added, gx, gy) {
                        TileType::Floor
                    } else {
                        tile_at(old(map).tiles@, gx, gy)
                    } by {
                        assert(tile_at(tiles_before, gx, gy) == if carved_by_any(added_before, gx, gy) {
                            TileType::Floor
                        } else {
                            tile_at(old(map).tiles@, gx, gy)
                        });
                        if carved_by_any(added_before, gx, gy) {
                            let k = choose|k: int|
                                0 <= k < added_before.len() && carves(
                                    #[trigger] added_before[k],
                                    gx,
                                    gy,
                                );
                            assert(added[k] == added_before[k]);
                        }
                        if carves(room, gx, gy) {
                            assert(added[added.len() - 1] == room);
                        }
                        if carved_by_any(added, gx, gy) {
                            let k = choose|k: int|
                                0 <= k < added.len() && carves(#[trigger] added[k], gx, gy);
                            if k < added_before.len() {
                                assert(added[k] == added_before[k]);
                            }
                        }
                    }
                    assert forall|j: int, k: int|
                        0 <= j < k < rooms@.len() && old_len <= k implies !(
                        #[trigger] rooms@[j]).intersects(#[trigger] rooms@[k]) by {
                        if k < rooms_before.len() {
                            assert(rooms@[j] == rooms_before[j]);
                            assert(rooms@[k] == rooms_before[k]);
                        } else {
                            assert(rooms@[k] == room);
                            assert(rooms@[j] == rooms_before[j]);
                        }
                    }
                    assert forall|k: int| old_len <= k < rooms@.len() implies drawable_room(
                        #[trigger] rooms@[k],
                    ) by {
                        if k < rooms_before.len() {
                            assert(rooms@[k] == rooms_before[k]);
                        }
                    }
                } else {
                    assert forall|gx: int, gy: int| in_grid(gx, gy) implies #[trigger] tile_at(
                        map.tiles@,
                        gx,
                        gy,
                    ) == tile_at(tiles_before, gx, gy) by {}
                }
            }
        }
        attempts
    }

    /// Joins the rooms, taken in the order of `sort_by_center_x`, each to the next by an
    /// L-shaped corridor of floor. For each corridor a coin decides whether it runs along the
    /// row of the first room's center and then the column of the second's, or the other
    /// way round. `rooms` itself is left as it is.
    pub fn build_corridors(
        &mut self,
        rng: &mut RandomNumberGenerator,
        map: &mut DungeonMap,
        rooms: &mut Vec<Rect>,
    )
        requires
            old(map).wf(),
            centers_computable(old(rooms)@),
        ensures
            final(map).wf(),
            final(map).revealed_tiles == old(map).revealed_tiles,
            final(map).far_revealed_tiles == old(map).far_revealed_tiles,
            final(rooms)@ == old(rooms)@,
            exists|choices: Seq<bool>|
                #[trigger] corridors_dug(
                    old(map).tiles@,
                    final(map).tiles@,
                    sort_by_center_x(old(rooms)@),
                    choices,
                ),
    {
        let sorted = sort_rooms_by_center_x(rooms);
        let ghost ordered = sorted@;
        let ghost mut choices: Seq<bool> = seq![];
        let mut i: usize = 1;
        while i < sorted.len()
            invariant
                sorted@ == ordered,
                ordered == sort_by_center_x(rooms@),
                rooms@ == old(rooms)@,
                centers_computable(ordered),
                1 <= i,
                i <= ordered.len() || ordered.len() == 0,
                choices.len() == i - 1,
                map.wf(),
                map.revealed_tiles == old(map).revealed_tiles,
                map.far_revealed_tiles == old(map).far_revealed_tiles,
                forall|x: int, y: int|
                    in_grid(x, y) ==> #[trigger] tile_at(map.tiles@, x, y) == if on_corridor_before(
                        ordered,
                        choices,
                        i as int,
                        x,
                        y,
                    ) {
                        TileType::Floor
                    } else {
                        tile_at(old(map).tiles@, x, y)
                    },
            decreases ordered.len() - i,
        {
            let prev = sorted[i - 1].center();
            let new = sorted[i].center();
            let coin = random_range(rng, 0, 2);
            let ghost tiles_before = map.tiles@;
            dig_corridor(map, prev, new, coin == 1);
            proof {
                let old_choices = choices;
                choices = choices.push(coin == 1);
                assert forall|x: int, y: int| in_grid(x, y) implies #[trigger] tile_at(
                    map.tiles@,
                    x,
                    y,
                ) == if on_corridor_before(ordered, choices, i + 1, x, y) {
                    TileType::Floor
                } else {
                    tile_at(old(map).tiles@, x, y)
                } by {
                    assert(tile_at(tiles_before, x, y) == if on_corridor_before(ordered, old_choices, i as int, x, y) {
                        TileType::Floor
                    } else {
                        tile_at(old(map).tiles@, x, y)
                    });
                    if on_corridor_before(ordered, old_choices, i as int, x, y) {
                        let k = choose|k: int|
                            0 <= k && k + 1 < i && k + 1 < ordered.len() && on_corridor(
                                ordered[k].center_spec(),
                                ordered[k + 1].center_spec(),
                                #[trigger] old_choices[k],
                                x,
                                y,
                            );
                        assert(choices[k] == old_choices[k]);
                    }
                    if on_corridor(prev, new, coin == 1, x, y) {
                        let k = i - 1;
                        assert(choices[k] == (coin == 1));
                    }
                    if on_corridor_before(ordered, choices, i + 1, x, y) {
                        let k = choose|k: int|
                            0 <= k && k + 1 < i + 1 && k + 1 < ordered.len() && on_corridor(
                                ordered[k].center_spec(),
                                ordered[k + 1].center_spec(),
                                #[trigger] choices[k],
                                x,
                                y,
                            );
                        if k + 1 < i {
                            assert(choices[k] == old_choices[k]);
                        }
                    }
                }
            }
            i = i + 1;
        }
        proof {
            assert forall|x: int, y: int|
                on_any_corridor(ordered, choices, x, y) == on_corridor_before(
                    ordered,
                    choices,
                    i as int,
                    x,
                    y,
                ) by {
                if on_any_corridor(ordered, choices, x, y) {
                    let k = choose|k: int|
                        0 <= k && k + 1 < ordered.len() && on_corridor(
                            ordered[k].center_spec(),
                            ordered[k + 1].center_spec(),
                            #[trigger] choices[k],
                            x,
                            y,
                        );
                    assert(on_corridor_before(ordered, choices, i as int, x, y));
                }
            }
            assert(corridors_dug(old(map).tiles@, map.tiles@, ordered, choices));
        }
    }
}

/// Inserting a room keeps every room of the sequence and adds that one.
proof fn lemma_insert_keeps_rooms(sorted: Seq<Rect>, r: Rect)
    ensures
        insert_by_center_x(sorted, r).len() == sorted.len() + 1,
        forall|k: int|
            0 <= k < insert_by_center_x(sorted, r).len() ==> (#[trigger] insert_by_center_x(
                sorted,
                r,
            )[k] == r || sorted.contains(insert_by_center_x(sorted, r)[k])),
    decreases sorted.len(),
{
    if sorted.len() > 0 && center_x(sorted.last()) > center_x(r) {
        lemma_insert_keeps_rooms(sorted.drop_last(), r);
        let s = insert_by_center_x(sorted, r);
        let p = insert_by_center_x(sorted.drop_last(), r);
        assert forall|k: int| 0 <= k < s.len() implies (#[trigger] s[k] == r || sorted.contains(
            s[k],
        )) by {
            if k < p.len() {
                if p[k] != r {
                    let j = choose|j: int| 0 <= j < sorted.drop_last().len() && sorted.drop_last()[j] == p[k];
                    assert(sorted[j] == p[k]);
                }
            } else {
                assert(s[k] == sorted[sorted.len() - 1]);
            }
        }
    } else if sorted.len() > 0 {
        let s = insert_by_center_x(sorted, r);
        assert forall|k: int| 0 <= k < s.len() implies (#[trigger] s[k] == r || sorted.contains(
            s[k],
        )) by {
            if k < sorted.len() {
                assert(s[k] == sorted[k]);
            }
        }
    }
}

/// Why the rooms architect gave up on a level: it drew its whole budget of candidate rooms
/// and fewer than `NUM_ROOMS` of them could be placed.
#[derive(Clone, Copy, Debug, PartialEq, Eq, Structural)]
pub struct RoomsExhausted {
    /// Candidates drawn.
    pub attempts: u64,
    /// Rooms placed.
    pub rooms_placed: usize,
}

/// Whether `mb` is a level as room placement leaves it: a map of walls into which `mb.rooms`
/// (at most `NUM_ROOMS` drawable rooms, apart from each other) are carved, nothing seen yet,
/// and no monster or lantern spot.
pub open spec fn rooms_placed(mb: MapBuilder) -> bool {
    &&& mb.map.wf()
    &&& mb.rooms@.len() <= NUM_ROOMS
    &&& forall|k: int| 0 <= k < mb.rooms@.len() ==> drawable_room(#[trigger] mb.rooms@[k])
    &&& separated_from(mb.rooms@, 0)
    &&& forall|x: int, y: int|
        in_grid(x, y) ==> #[trigger] tile_at(mb.map.tiles@, x, y) == if carved_by_any(
            mb.rooms@,
            x,
            y,
        ) {
            TileType::Floor
        } else {
            TileType::Wall
        }
    &&& forall|i: int|
        0 <= i < NUM_TILES ==> !#[trigger] mb.map.revealed_tiles@[i]
            && !mb.map.far_revealed_tiles@[i]
    &&& mb.monster_spawns@.len() == 0
}

impl RoomsArchitect {
    /// Builds a level: a map of walls, rooms carved into it and joined by corridors, the
    /// player in the first room, a monster spot in each other room and twenty lanterns on
    /// floor tiles. The amulet is placed afterwards, from the walking distances of the
    /// finished map (see `MapBuilder::place_amulet`). Fails only when room placement drew
    /// `MAX_ROOM_ATTEMPTS` candidates without placing `NUM_ROOMS` rooms.
    pub fn build(&mut self, rng: &mut RandomNumberGenerator) -> (r: Result<MapBuilder, RoomsExhausted>)
        ensures
            r matches Ok(mb) ==> {
                &&& rooms_level(mb)
                &&& mb.amulet_start == Point { x: 0, y: 0 }
                &&& mb.theme == Theme::Dungeon(DungeonTheme {})
            },
            r matches Err(e) ==> e.attempts == MAX_ROOM_ATTEMPTS && e.rooms_placed < NUM_ROOMS,
    {
        let mut mb = MapBuilder {
            map: DungeonMap::new(),
            rooms: Vec::new(),
            monster_spawns: Vec::new(),
            lantern_spawns: Vec::new(),
            player_start: Point::zero(),
            amulet_start: Point::zero(),
            theme: DungeonTheme::build(),
        };
        mb.fill(TileType::Wall);
        let ghost walls = mb.map.tiles@;
        let attempts = self.build_random_rooms(rng, &mut mb.map, &mut mb.rooms);
        proof {
            assert(mb.rooms@.subrange(0, mb.rooms@.len() as int) == mb.rooms@);
            assert forall|x: int, y: int| in_grid(x, y) implies #[trigger] tile_at(
                mb.map.tiles@,
                x,
                y,
            ) == if carved_by_any(mb.rooms@, x, y) {
                TileType::Floor
            } else {
                TileType::Wall
            } by {
                lemma_idx_in_range(x, y);
                assert(tile_at(walls, x, y) == TileType::Wall);
            }
        }
        self.finish_level(rng, mb, attempts)
    }

    /// Finishes a level whose rooms are placed, `attempts` candidates having been drawn: when
    /// fewer than `NUM_ROOMS` rooms stand, gives up and reports both numbers; otherwise digs
    /// the corridors, puts the player at the center of the first room, draws twenty lantern
    /// spots among the floor tiles and puts a monster spot at the center of each other room.
    pub fn finish_level(
        &mut self,
        rng: &mut RandomNumberGenerator,
        mb: MapBuilder,
        attempts: u64,
    ) -> (r: Result<MapBuilder, RoomsExhausted>)
        requires
            rooms_placed(mb),
        ensures
            r is Err <==> mb.rooms@.len() < NUM_ROOMS,
            r matches Err(e) ==> e.attempts == attempts && e.rooms_placed == mb.rooms@.len(),
            r matches Ok(m) ==> {
                &&& rooms_level(m)
                &&& m.rooms@ == mb.rooms@
                &&& m.amulet_start == mb.amulet_start
                &&& m.theme == mb.theme
            },
    {
        let mut mb = mb;
        if mb.rooms.len() < NUM_ROOMS {
            return Err(RoomsExhausted { attempts, rooms_placed: mb.rooms.len() });
        }
        let ghost carved = mb.map.tiles@;
        let ghost placed = mb;
        self.build_corridors(rng, &mut mb.map, &mut mb.rooms);
        let ghost choices = choose|choices: Seq<bool>|
            #[trigger] corridors_dug(carved, mb.map.tiles@, sort_by_center_x(mb.rooms@), choices);
        proof {
            assert forall|x: int, y: int| in_grid(x, y) implies #[trigger] tile_at(
                mb.map.tiles@,
                x,
                y,
            ) == layout_tile(mb.rooms@, choices, x, y) by {
                assert(tile_at(carved, x, y) == if carved_by_any(mb.rooms@, x, y) {
                    TileType::Floor
                } else {
                    TileType::Wall
                });
            }
            assert forall|i: int| 0 <= i < NUM_TILES implies #[trigger] mb.map.tiles@[i]
                == layout_tiles(mb.rooms@, choices)[i] by {
                lemma_idx_of_point(i);
                let p = point_of(i);
                assert(tile_at(mb.map.tiles@, p.x as int, p.y as int) == layout_tile(
                    mb.rooms@,
                    choices,
                    p.x as int,
                    p.y as int,
                ));
            }
            assert(layout_tiles(mb.rooms@, choices) == mb.map.tiles@);
            assert forall|i: int| 0 <= i < NUM_TILES implies !#[trigger] mb.map.revealed_tiles@[i]
                && !mb.map.far_revealed_tiles@[i] by {
                assert(!placed.map.revealed_tiles@[i]);
            }
            lemma_floor_per_room(mb.rooms@, choices);
        }
        mb.player_start = mb.rooms[0].center();
        mb.lantern_spawns = mb.spawn_lantern(rng);
        let ghost snapshot = mb;
        let mut i: usize = 1;
        while i < mb.rooms.len()
            invariant
                mb.map == snapshot.map,
                mb.rooms == snapshot.rooms,
                mb.lantern_spawns == snapshot.lantern_spawns,
                mb.player_start == snapshot.player_start,
                mb.amulet_start == snapshot.amulet_start,
                mb.theme == snapshot.theme,
                1 <= i <= mb.rooms@.len(),
                valid_rooms(mb.rooms@),
                mb.monster_spawns@ == Seq::new(
                    (i - 1) as nat,
                    |k: int| mb.rooms@[k + 1].center_spec(),
                ),
            decreases mb.rooms@.len() - i,
        {
            let c = mb.rooms[i].center();
            mb.monster_spawns.push(c);
            i = i + 1;
        }
        Ok(mb)
    }
}

/// A level of valid rooms has at least one floor tile per room, whatever its corridors: the
/// centers of the rooms are distinct floor tiles.
pub proof fn lemma_floor_per_room(rooms: Seq<Rect>, choices: Seq<bool>)
    requires
        valid_rooms(rooms),
    ensures
        spots(SpotRule::Floor, layout_tiles(rooms, choices)).len() >= rooms.len(),
{
    broadcast use vstd::seq_lib::seq_to_set_is_finite;

    let tiles = layout_tiles(rooms, choices);
    let s = spots(SpotRule::Floor, tiles);
    lemma_spots_upto(SpotRule::Floor, tiles, NUM_TILES as int);
    let centers = Seq::new(rooms.len(), |k: int| rooms[k].center_spec());
    assert forall|k: int| 0 <= k < centers.len() implies s.contains(#[trigger] centers[k]) by {
        let c = rooms[k].center_spec();
        lemma_room_center_carved(rooms, k);
        lemma_level_tile(rooms, choices, tiles, c.x as int, c.y as int);
        lemma_idx_in_range(c.x as int, c.y as int);
        crate::map::lemma_point_of_idx(c.x as int, c.y as int);
        let i = idx_of(c.x as int, c.y as int);
        assert(point_of(i) == c);
        assert(spot_ok(SpotRule::Floor, tiles, i));
    }
    assert(centers.no_duplicates()) by {
        assert forall|j: int, k: int|
            0 <= j < centers.len() && 0 <= k < centers.len() && j != k implies centers[j]
            != centers[k] by {
            lemma_room_center_carved(rooms, j);
            lemma_room_center_carved(rooms, k);
            if j < k {
                assert(!rooms[j].intersects(rooms[k]));
            } else {
                assert(!rooms[k].intersects(rooms[j]));
            }
        }
    }
    centers.unique_seq_to_set();
    s.unique_seq_to_set();
    assert(centers.to_set().subset_of(s.to_set()));
    vstd::set_lib::lemma_len_subset(centers.to_set(), s.to_set());
}

/// Inserting a room adds exactly that room, and keeps a sequence ordered by center column
/// ordered.
proof fn lemma_insert_sorted(sorted: Seq<Rect>, r: Rect)
    requires
        forall|i: int, j: int|
            0 <= i < j < sorted.len() ==> center_x(#[trigger] sorted[i]) <= center_x(
                #[trigger] sorted[j],
            ),
    ensures
        insert_by_center_x(sorted, r).to_multiset() == sorted.to_multiset().insert(r),
        forall|i: int, j: int|
            0 <= i < j < insert_by_center_x(sorted, r).len() ==> center_x(
                #[trigger] insert_by_center_x(sorted, r)[i],
            ) <= center_x(#[trigger] insert_by_center_x(sorted, r)[j]),
        insert_by_center_x(sorted, r).len() == sorted.len() + 1,
    decreases sorted.len(),
{
    broadcast use vstd::seq_lib::group_to_multiset_ensures;

    let s = insert_by_center_x(sorted, r);
    if sorted.len() == 0 {
        assert(s == seq![r]);
        assert(seq![r] == Seq::<Rect>::empty().push(r));
    } else if center_x(sorted.last()) <= center_x(r) {
        assert(s == sorted.push(r));
    } else {
        let init = sorted.drop_last();
        let last = sorted.last();
        lemma_insert_sorted(init, r);
        let p = insert_by_center_x(init, r);
        assert(s == p.push(last));
        assert(sorted == init.push(last));
        assert forall|i: int, j: int| 0 <= i < j < s.len() implies center_x(#[trigger] s[i])
            <= center_x(#[trigger] s[j]) by {
            if j < p.len() {
                assert(s[i] == p[i] && s[j] == p[j]);
            } else {
                assert(s[j] == last);
                assert(s[i] == p[i]);
                lemma_insert_keeps_rooms(init, r);
                if p[i] != r {
                    let m = choose|m: int| 0 <= m < init.len() && init[m] == p[i];
                    assert(sorted[m] == init[m]);
                    assert(center_x(sorted[m]) <= center_x(sorted[sorted.len() - 1]));
                }
            }
        }
    }
}

/// The order of the corridors is a stable sort: the same rooms, ordered by the column of
/// their centers.
pub proof fn law_sort_by_center_x(rooms: Seq<Rect>)
    ensures
        sort_by_center_x(rooms).to_multiset() == rooms.to_multiset(),
        sort_by_center_x(rooms).len() == rooms.len(),
        forall|i: int, j: int|
            0 <= i < j < sort_by_center_x(rooms).len() ==> center_x(
                #[trigger] sort_by_center_x(rooms)[i],
            ) <= center_x(#[trigger] sort_by_center_x(rooms)[j]),
    decreases rooms.len(),
{
    broadcast use vstd::seq_lib::group_to_multiset_ensures;

    if rooms.len() > 0 {
        law_sort_by_center_x(rooms.drop_last());
        lemma_insert_sorted(sort_by_center_x(rooms.drop_last()), rooms.last());
        assert(rooms == rooms.drop_last().push(rooms.last()));
    }
}

/// The center of every room of a valid set of rooms is carved to floor.
pub proof fn lemma_room_center_carved(rooms: Seq<Rect>, k: int)
    requires
        valid_rooms(rooms),
        0 <= k < rooms.len(),
    ensures
        in_grid(rooms[k].center_spec().x as int, rooms[k].center_spec().y as int),
        carves(rooms[k], rooms[k].center_spec().x as int, rooms[k].center_spec().y as int),
        carved_by_any(rooms, rooms[k].center_spec().x as int, rooms[k].center_spec().y as int),
{
    assert(drawable_room(rooms[k]));
    assert(carves(rooms[k], rooms[k].center_spec().x as int, rooms[k].center_spec().y as int));
}

/// In a level of the rooms architect, the tile at `(x, y)` is the layout's tile there.
pub proof fn lemma_level_tile(rooms: Seq<Rect>, choices: Seq<bool>, tiles: Seq<TileType>, x: int, y: int)
    requires
        layout_tiles(rooms, choices) == tiles,
        in_grid(x, y),
    ensures
        tile_at(tiles, x, y) == layout_tile(rooms, choices, x, y),
{
    lemma_idx_in_range(x, y);
    crate::map::lemma_point_of_idx(x, y);
}

/// The player starts on a floor tile, and so does every monster.
pub proof fn law_spawns_on_floor(mb: MapBuilder, k: int)
    requires
        rooms_level(mb),
        0 <= k < mb.monster_spawns@.len(),
    ensures
        in_grid(mb.player_start.x as int, mb.player_start.y as int),
        tile_at(mb.map.tiles@, mb.player_start.x as int, mb.player_start.y as int)
            == TileType::Floor,
        in_grid(mb.monster_spawns@[k].x as int, mb.monster_spawns@[k].y as int),
        tile_at(mb.map.tiles@, mb.monster_spawns@[k].x as int, mb.monster_spawns@[k].y as int)
            == TileType::Floor,
{
    let choices = choose|choices: Seq<bool>| #[trigger] layout_tiles(mb.rooms@, choices) == mb.map.tiles@;
    lemma_room_center_carved(mb.rooms@, 0);
    lemma_room_center_carved(mb.rooms@, k + 1);
    let p = mb.player_start;
    let q = mb.monster_spawns@[k];
    lemma_level_tile(mb.rooms@, choices, mb.map.tiles@, p.x as int, p.y as int);
    lemma_level_tile(mb.rooms@, choices, mb.map.tiles@, q.x as int, q.y as int);
}

/// The rooms of a level share no tile.
pub proof fn law_rooms_disjoint(mb: MapBuilder, j: int, k: int, x: int, y: int)
    requires
        rooms_level(mb),
        0 <= j < k < mb.rooms@.len(),
    ensures
        !(mb.rooms@[j].contains_xy(x, y) && mb.rooms@[k].contains_xy(x, y)),
{
    assert(!mb.rooms@[j].intersects(mb.rooms@[k]));
}

/// Every tile on the corridor joining two rooms consecutive by center column is floor: each
/// room can be walked to from the one before it.
pub proof fn law_corridors_are_floor(
    mb: MapBuilder,
    choices: Seq<bool>,
    k: int,
    x: int,
    y: int,
)
    requires
        rooms_level(mb),
        layout_tiles(mb.rooms@, choices) == mb.map.tiles@,
        0 <= k && k + 1 < mb.rooms@.len(),
        in_grid(x, y),
        on_corridor(
            sort_by_center_x(mb.rooms@)[k].center_spec(),
            sort_by_center_x(mb.rooms@)[k + 1].center_spec(),
            choices[k],
            x,
            y,
        ),
    ensures
        tile_at(mb.map.tiles@, x, y) == TileType::Floor,
{
    law_sort_by_center_x(mb.rooms@);
    lemma_level_tile(mb.rooms@, choices, mb.map.tiles@, x, y);
    assert(on_any_corridor(sort_by_center_x(mb.rooms@), choices, x, y));
}

} // verus!
