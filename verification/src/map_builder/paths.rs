use vstd::prelude::*;

use crate::geometry::{between, Point, Rect};
use crate::map::{enterable, in_grid, tile_at, TileType};

use super::rooms::{
    carved_by_any, carves, law_corridors_are_floor, law_sort_by_center_x, layout_tiles,
    lemma_level_tile, lemma_room_center_carved, on_any_corridor, on_corridor, rooms_level,
    sort_by_center_x,
};
use super::{law_spots_are_floor, MapBuilder, SpotRule};

verus! {

/// Whether two points are next to each other: one step apart along a row or a column.
pub open spec fn adjacent(a: Point, b: Point) -> bool {
    ||| a.x == b.x && (a.y - b.y == 1 || b.y - a.y == 1)
    ||| a.y == b.y && (a.x - b.x == 1 || b.x - a.x == 1)
}

/// Whether `(x, y)` is a tile of the grid that can be walked on.
pub open spec fn walkable_at(tiles: Seq<TileType>, x: int, y: int) -> bool {
    in_grid(x, y) && enterable(tile_at(tiles, x, y))
}

/// Whether `path` is a walk over `tiles`: at least one point, every point walkable, each
/// point next to the one before it.
pub open spec fn walk(tiles: Seq<TileType>, path: Seq<Point>) -> bool {
    &&& path.len() >= 1
    &&& forall|i: int|
        0 <= i < path.len() ==> walkable_at(tiles, (#[trigger] path[i]).x as int, path[i].y as int)
    &&& forall|i: int| 0 <= i < path.len() - 1 ==> adjacent(#[trigger] path[i], path[i + 1])
}

/// Whether one can walk from `a` to `b` over `tiles`.
pub open spec fn connected(tiles: Seq<TileType>, a: Point, b: Point) -> bool {
    exists|path: Seq<Point>| #[trigger] walk(tiles, path) && path[0] == a && path.last() == b
}

/// The points of row `y` from column `x0` to column `x1`, both included, in walking order.
pub open spec fn row_segment(x0: int, x1: int, y: int) -> Seq<Point> {
    if x0 <= x1 {
        Seq::new((x1 - x0 + 1) as nat, |i: int| Point { x: (x0 + i) as i32, y: y as i32 })
    } else {
        Seq::new((x0 - x1 + 1) as nat, |i: int| Point { x: (x0 - i) as i32, y: y as i32 })
    }
}

/// The points of column `x` from row `y0` to row `y1`, both included, in walking order.
pub open spec fn column_segment(x: int, y0: int, y1: int) -> Seq<Point> {
    if y0 <= y1 {
        Seq::new((y1 - y0 + 1) as nat, |i: int| Point { x: x as i32, y: (y0 + i) as i32 })
    } else {
        Seq::new((y0 - y1 + 1) as nat, |i: int| Point { x: x as i32, y: (y0 - i) as i32 })
    }
}

/// The walk along the L-shaped corridor from `a` to `b`.
pub open spec fn corridor_walk(a: Point, b: Point, horizontal_first: bool) -> Seq<Point> {
    if horizontal_first {
        row_segment(a.x as int, b.x as int, a.y as int) + column_segment(
            b.x as int,
            a.y as int,
            b.y as int,
        ).drop_first()
    } else {
        column_segment(a.x as int, a.y as int, b.y as int) + row_segment(
            a.x as int,
            b.x as int,
            b.y as int,
        ).drop_first()
    }
}

/// Whether a point of the grid lies in the box spanned by `a` and `b`.
pub open spec fn in_box(a: Point, b: Point, p: Point) -> bool {
    between(p.x as int, a.x as int, b.x as int) && between(p.y as int, a.y as int, b.y as int)
}

/// The corridor walk starts at `a`, ends at `b`, steps between neighbours, stays on the
/// corridor and inside the box of its two ends.
proof fn lemma_corridor_walk(a: Point, b: Point, horizontal_first: bool)
    ensures
        ({
            let w = corridor_walk(a, b, horizontal_first);
            &&& w.len() >= 1
            &&& w[0] == a
            &&& w.last() == b
            &&& forall|i: int| 0 <= i < w.len() - 1 ==> adjacent(#[trigger] w[i], w[i + 1])
            &&& forall|i: int|
                0 <= i < w.len() ==> on_corridor(
                    a,
                    b,
                    horizontal_first,
                    (#[trigger] w[i]).x as int,
                    w[i].y as int,
                ) && in_box(a, b, w[i])
        }),
{
    let w = corridor_walk(a, b, horizontal_first);
    if horizontal_first {
        let s1 = row_segment(a.x as int, b.x as int, a.y as int);
        let s2 = column_segment(b.x as int, a.y as int, b.y as int);
        assert(s1.len() >= 1 && s2.len() >= 1);
        assert(w == s1 + s2.drop_first());
        assert(s1.last() == Point { x: b.x, y: a.y });
        assert(s2[0] == Point { x: b.x, y: a.y });
        assert(s2.last() == b);
        if s2.len() == 1 {
            assert(w.last() == s1.last());
        } else {
            assert(w.last() == s2.last());
        }
        assert forall|i: int| 0 <= i < w.len() - 1 implies adjacent(#[trigger] w[i], w[i + 1]) by {
            if i + 1 < s1.len() {
                assert(w[i] == s1[i] && w[i + 1] == s1[i + 1]);
            } else if i + 1 == s1.len() {
                assert(w[i] == s1[i]);
                assert(w[i + 1] == s2[1]);
            } else {
                assert(w[i] == s2[i - s1.len() + 1]);
                assert(w[i + 1] == s2[i - s1.len() + 2]);
            }
        }
        assert forall|i: int| 0 <= i < w.len() implies on_corridor(
            a,
            b,
            horizontal_first,
            (#[trigger] w[i]).x as int,
            w[i].y as int,
        ) && in_box(a, b, w[i]) by {
            if i < s1.len() {
                assert(w[i] == s1[i]);
            } else {
                assert(w[i] == s2[i - s1.len() + 1]);
            }
        }
    } else {
        let s1 = column_segment(a.x as int, a.y as int, b.y as int);
        let s2 = row_segment(a.x as int, b.x as int, b.y as int);
        assert(s1.len() >= 1 && s2.len() >= 1);
        assert(w == s1 + s2.drop_first());
        assert(s1.last() == Point { x: a.x, y: b.y });
        assert(s2[0] == Point { x: a.x, y: b.y });
        assert(s2.last() == b);
        if s2.len() == 1 {
            assert(w.last() == s1.last());
        } else {
            assert(w.last() == s2.last());
        }
        assert forall|i: int| 0 <= i < w.len() - 1 implies adjacent(#[trigger] w[i], w[i + 1]) by {
            if i + 1 < s1.len() {
                assert(w[i] == s1[i] && w[i + 1] == s1[i + 1]);
            } else if i + 1 == s1.len() {
                assert(w[i] == s1[i]);
                assert(w[i + 1] == s2[1]);
            } else {
                assert(w[i] == s2[i - s1.len() + 1]);
                assert(w[i + 1] == s2[i - s1.len() + 2]);
            }
        }
        assert forall|i: int| 0 <= i < w.len() implies on_corridor(
            a,
            b,
            horizontal_first,
            (#[trigger] w[i]).x as int,
            w[i].y as int,
        ) && in_box(a, b, w[i]) by {
            if i < s1.len() {
                assert(w[i] == s1[i]);
            } else {
                assert(w[i] == s2[i - s1.len() + 1]);
            }
        }
    }
}

/// Two walks where the second starts where the first ends make one walk.
proof fn lemma_join_walks(tiles: Seq<TileType>, p: Seq<Point>, q: Seq<Point>)
    requires
        walk(tiles, p),
        walk(tiles, q),
        p.last() == q[0],
    ensures
        walk(tiles, p + q.drop_first()),
        (p + q.drop_first())[0] == p[0],
        (p + q.drop_first()).last() == q.last(),
{
    let w = p + q.drop_first();
    assert forall|i: int| 0 <= i < w.len() implies walkable_at(
        tiles,
        (#[trigger] w[i]).x as int,
        w[i].y as int,
    ) by {
        if i < p.len() {
            assert(w[i] == p[i]);
        } else {
            assert(w[i] == q[i - p.len() + 1]);
        }
    }
    assert forall|i: int| 0 <= i < w.len() - 1 implies adjacent(#[trigger] w[i], w[i + 1]) by {
        if i + 1 < p.len() {
            assert(w[i] == p[i] && w[i + 1] == p[i + 1]);
        } else if i + 1 == p.len() {
            assert(w[i] == q[0]);
            assert(w[i + 1] == q[1]);
        } else {
            assert(w[i] == q[i - p.len() + 1]);
            assert(w[i + 1] == q[i - p.len() + 2]);
        }
    }
    if q.len() == 1 {
        assert(w.last() == p.last());
    } else {
        assert(w.last() == q.last());
    }
}

/// Walking is symmetric.
proof fn lemma_connected_symmetric(tiles: Seq<TileType>, a: Point, b: Point)
    requires
        connected(tiles, a, b),
    ensures
        connected(tiles, b, a),
{
    let p = choose|path: Seq<Point>| #[trigger] walk(tiles, path) && path[0] == a && path.last() == b;
    let r = p.reverse();
    assert forall|i: int| 0 <= i < r.len() implies walkable_at(
        tiles,
        (#[trigger] r[i]).x as int,
        r[i].y as int,
    ) by {
        assert(r[i] == p[p.len() - 1 - i]);
    }
    assert forall|i: int| 0 <= i < r.len() - 1 implies adjacent(#[trigger] r[i], r[i + 1]) by {
        assert(r[i] == p[p.len() - 1 - i]);
        assert(r[i + 1] == p[p.len() - 2 - i]);
        assert(adjacent(p[p.len() - 2 - i], p[p.len() - 1 - i]));
    }
    assert(walk(tiles, r));
}

/// Walking is transitive.
proof fn lemma_connected_transitive(tiles: Seq<TileType>, a: Point, b: Point, c: Point)
    requires
        connected(tiles, a, b),
        connected(tiles, b, c),
    ensures
        connected(tiles, a, c),
{
    let p = choose|path: Seq<Point>| #[trigger] walk(tiles, path) && path[0] == a && path.last() == b;
    let q = choose|path: Seq<Point>| #[trigger] walk(tiles, path) && path[0] == b && path.last() == c;
    lemma_join_walks(tiles, p, q);
}

/// Every room of a level belongs to the corridor order, and the other way round.
proof fn lemma_sorted_same_rooms(rooms: Seq<Rect>)
    ensures
        forall|k: int| 0 <= k < rooms.len() ==> sort_by_center_x(rooms).contains(#[trigger] rooms[k]),
        forall|k: int|
            0 <= k < sort_by_center_x(rooms).len() ==> rooms.contains(
                #[trigger] sort_by_center_x(rooms)[k],
            ),
{
    law_sort_by_center_x(rooms);
    let s = sort_by_center_x(rooms);
    rooms.to_multiset_ensures();
    s.to_multiset_ensures();
    assert forall|k: int| 0 <= k < rooms.len() implies s.contains(#[trigger] rooms[k]) by {
        assert(rooms.contains(rooms[k]));
        assert(rooms.to_multiset().count(rooms[k]) > 0);
        assert(s.to_multiset().count(rooms[k]) > 0);
    }
    assert forall|k: int| 0 <= k < s.len() implies rooms.contains(#[trigger] s[k]) by {
        assert(s.contains(s[k]));
        assert(s.to_multiset().count(s[k]) > 0);
        assert(rooms.to_multiset().count(s[k]) > 0);
    }
}

/// The center of a room of the level is a walkable tile.
proof fn lemma_center_walkable(mb: MapBuilder, r: Rect)
    requires
        rooms_level(mb),
        mb.rooms@.contains(r),
    ensures
        walkable_at(mb.map.tiles@, r.center_spec().x as int, r.center_spec().y as int),
        connected(mb.map.tiles@, r.center_spec(), r.center_spec()),
{
    let k = choose|k: int| 0 <= k < mb.rooms@.len() && mb.rooms@[k] == r;
    let choices = choose|choices: Seq<bool>| #[trigger] layout_tiles(mb.rooms@, choices) == mb.map.tiles@;
    lemma_room_center_carved(mb.rooms@, k);
    let c = r.center_spec();
    lemma_level_tile(mb.rooms@, choices, mb.map.tiles@, c.x as int, c.y as int);
    let single = seq![c];
    assert(walk(mb.map.tiles@, single));
}

/// The corridor from room `k` to room `k + 1`, in the corridor order, can be walked.
proof fn lemma_corridor_connected(mb: MapBuilder, k: int)
    requires
        rooms_level(mb),
        0 <= k && k + 1 < mb.rooms@.len(),
    ensures
        connected(
            mb.map.tiles@,
            sort_by_center_x(mb.rooms@)[k].center_spec(),
            sort_by_center_x(mb.rooms@)[k + 1].center_spec(),
        ),
{
    let rooms = mb.rooms@;
    let s = sort_by_center_x(rooms);
    let tiles = mb.map.tiles@;
    let choices = choose|choices: Seq<bool>| #[trigger] layout_tiles(rooms, choices) == tiles;
    law_sort_by_center_x(rooms);
    lemma_sorted_same_rooms(rooms);
    let a = s[k].center_spec();
    let b = s[k + 1].center_spec();
    lemma_center_walkable(mb, s[k]);
    lemma_center_walkable(mb, s[k + 1]);
    lemma_corridor_walk(a, b, choices[k]);
    let w = corridor_walk(a, b, choices[k]);
    assert forall|i: int| 0 <= i < w.len() implies walkable_at(
        tiles,
        (#[trigger] w[i]).x as int,
        w[i].y as int,
    ) by {
        assert(on_corridor(a, b, choices[k], w[i].x as int, w[i].y as int) && in_box(a, b, w[i]));
        law_corridors_are_floor(mb, choices, k, w[i].x as int, w[i].y as int);
    }
    assert(walk(tiles, w));
}

/// From the first room in the corridor order one can walk to every room.
proof fn lemma_connected_from_first(mb: MapBuilder, k: int)
    requires
        rooms_level(mb),
        0 <= k < mb.rooms@.len(),
    ensures
        connected(
            mb.map.tiles@,
            sort_by_center_x(mb.rooms@)[0].center_spec(),
            sort_by_center_x(mb.rooms@)[k].center_spec(),
        ),
    decreases k,
{
    let s = sort_by_center_x(mb.rooms@);
    law_sort_by_center_x(mb.rooms@);
    lemma_sorted_same_rooms(mb.rooms@);
    if k == 0 {
        lemma_center_walkable(mb, s[0]);
    } else {
        lemma_connected_from_first(mb, k - 1);
        lemma_corridor_connected(mb, k - 1);
        lemma_connected_transitive(
            mb.map.tiles@,
            s[0].center_spec(),
            s[k - 1].center_spec(),
            s[k].center_spec(),
        );
    }
}

/// In a level of the rooms architect, one can walk from the center of any room to the center
/// of any other: the player can reach every room, every monster and every room's contents.
pub proof fn law_rooms_connected(mb: MapBuilder, j: int, k: int)
    requires
        rooms_level(mb),
        0 <= j < mb.rooms@.len(),
        0 <= k < mb.rooms@.len(),
    ensures
        connected(mb.map.tiles@, mb.rooms@[j].center_spec(), mb.rooms@[k].center_spec()),
{
    let s = sort_by_center_x(mb.rooms@);
    law_sort_by_center_x(mb.rooms@);
    lemma_sorted_same_rooms(mb.rooms@);
    let sj = choose|i: int| 0 <= i < s.len() && s[i] == mb.rooms@[j];
    let sk = choose|i: int| 0 <= i < s.len() && s[i] == mb.rooms@[k];
    lemma_connected_from_first(mb, sj);
    lemma_connected_from_first(mb, sk);
    lemma_connected_symmetric(mb.map.tiles@, s[0].center_spec(), s[sj].center_spec());
    lemma_connected_transitive(
        mb.map.tiles@,
        s[sj].center_spec(),
        s[0].center_spec(),
        s[sk].center_spec(),
    );
}

/// The player can walk from the start to every monster's spot.
pub proof fn law_monsters_reachable(mb: MapBuilder, k: int)
    requires
        rooms_level(mb),
        0 <= k < mb.monster_spawns@.len(),
    ensures
        connected(mb.map.tiles@, mb.player_start, mb.monster_spawns@[k]),
{
    law_rooms_connected(mb, 0, k + 1);
}

/// A walk stopped at its point `i` is still a walk.
proof fn lemma_walk_prefix(tiles: Seq<TileType>, w: Seq<Point>, i: int)
    requires
        walk(tiles, w),
        0 <= i < w.len(),
    ensures
        walk(tiles, w.subrange(0, i + 1)),
        w.subrange(0, i + 1)[0] == w[0],
        w.subrange(0, i + 1).last() == w[i],
{
    let p = w.subrange(0, i + 1);
    assert forall|j: int| 0 <= j < p.len() implies walkable_at(
        tiles,
        (#[trigger] p[j]).x as int,
        p[j].y as int,
    ) by {
        assert(p[j] == w[j]);
    }
    assert forall|j: int| 0 <= j < p.len() - 1 implies adjacent(#[trigger] p[j], p[j + 1]) by {
        assert(p[j] == w[j] && p[j + 1] == w[j + 1]);
    }
}

/// Every point of an L-shaped corridor is a point of its walk.
proof fn lemma_corridor_walk_covers(a: Point, b: Point, horizontal_first: bool, x: int, y: int)
    requires
        on_corridor(a, b, horizontal_first, x, y),
    ensures
        exists|i: int|
            0 <= i < corridor_walk(a, b, horizontal_first).len() && #[trigger] corridor_walk(
                a,
                b,
                horizontal_first,
            )[i] == (Point { x: x as i32, y: y as i32 }),
{
    let w = corridor_walk(a, b, horizontal_first);
    let p = Point { x: x as i32, y: y as i32 };
    if horizontal_first {
        let s1 = row_segment(a.x as int, b.x as int, a.y as int);
        let s2 = column_segment(b.x as int, a.y as int, b.y as int);
        assert(w == s1 + s2.drop_first());
        if y == a.y && between(x, a.x as int, b.x as int) {
            let i = if a.x <= b.x { x - a.x } else { a.x - x };
            assert(w[i] == s1[i]);
            assert(w[i] == p);
        } else {
            let j = if a.y <= b.y { y - a.y } else { a.y - y };
            if j == 0 {
                let i = s1.len() - 1;
                assert(w[i] == s1[i]);
                assert(w[i] == p);
            } else {
                let i = s1.len() - 1 + j;
                assert(w[i] == s2[j]);
                assert(w[i] == p);
            }
        }
    } else {
        let s1 = column_segment(a.x as int, a.y as int, b.y as int);
        let s2 = row_segment(a.x as int, b.x as int, b.y as int);
        assert(w == s1 + s2.drop_first());
        if x == a.x && between(y, a.y as int, b.y as int) {
            let i = if a.y <= b.y { y - a.y } else { a.y - y };
            assert(w[i] == s1[i]);
            assert(w[i] == p);
        } else {
            let j = if a.x <= b.x { x - a.x } else { a.x - x };
            if j == 0 {
                let i = s1.len() - 1;
                assert(w[i] == s1[i]);
                assert(w[i] == p);
            } else {
                let i = s1.len() - 1 + j;
                assert(w[i] == s2[j]);
                assert(w[i] == p);
            }
        }
    }
}

/// Every tile that a room carves can be walked to from the room's center.
proof fn lemma_room_tile_connected(mb: MapBuilder, k: int, x: int, y: int)
    requires
        rooms_level(mb),
        0 <= k < mb.rooms@.len(),
        carves(mb.rooms@[k], x, y),
    ensures
        connected(mb.map.tiles@, mb.rooms@[k].center_spec(), Point { x: x as i32, y: y as i32 }),
{
    let tiles = mb.map.tiles@;
    let r = mb.rooms@[k];
    let c = r.center_spec();
    let p = Point { x: x as i32, y: y as i32 };
    let choices = choose|choices: Seq<bool>| #[trigger] layout_tiles(mb.rooms@, choices) == tiles;
    lemma_room_center_carved(mb.rooms@, k);
    assert(carves(r, c.x as int, c.y as int));
    lemma_corridor_walk(c, p, true);
    let w = corridor_walk(c, p, true);
    assert forall|i: int| 0 <= i < w.len() implies walkable_at(
        tiles,
        (#[trigger] w[i]).x as int,
        w[i].y as int,
    ) by {
        assert(in_box(c, p, w[i]));
        assert(carves(r, w[i].x as int, w[i].y as int));
        assert(carved_by_any(mb.rooms@, w[i].x as int, w[i].y as int));
        lemma_level_tile(mb.rooms@, choices, tiles, w[i].x as int, w[i].y as int);
    }
    assert(walk(tiles, w));
}

/// Every floor tile of a level can be walked to from the player's start: no part of the
/// dungeon is cut off.
pub proof fn law_floor_reachable(mb: MapBuilder, x: int, y: int)
    requires
        rooms_level(mb),
        in_grid(x, y),
        tile_at(mb.map.tiles@, x, y) == TileType::Floor,
    ensures
        connected(mb.map.tiles@, mb.player_start, Point { x: x as i32, y: y as i32 }),
{
    let tiles = mb.map.tiles@;
    let rooms = mb.rooms@;
    let p = Point { x: x as i32, y: y as i32 };
    let choices = choose|choices: Seq<bool>| #[trigger] layout_tiles(rooms, choices) == tiles;
    lemma_level_tile(rooms, choices, tiles, x, y);
    if carved_by_any(rooms, x, y) {
        let k = choose|k: int| 0 <= k < rooms.len() && carves(#[trigger] rooms[k], x, y);
        lemma_room_tile_connected(mb, k, x, y);
        law_rooms_connected(mb, 0, k);
        lemma_connected_transitive(tiles, mb.player_start, rooms[k].center_spec(), p);
    } else {
        let s = sort_by_center_x(rooms);
        assert(on_any_corridor(s, choices, x, y));
        let k = choose|k: int|
            0 <= k && k + 1 < s.len() && on_corridor(
                s[k].center_spec(),
                s[k + 1].center_spec(),
                #[trigger] choices[k],
                x,
                y,
            );
        law_sort_by_center_x(rooms);
        lemma_sorted_same_rooms(rooms);
        let a = s[k].center_spec();
        let b = s[k + 1].center_spec();
        lemma_center_walkable(mb, s[k]);
        lemma_center_walkable(mb, s[k + 1]);
        lemma_corridor_walk(a, b, choices[k]);
        let w = corridor_walk(a, b, choices[k]);
        assert forall|i: int| 0 <= i < w.len() implies walkable_at(
            tiles,
            (#[trigger] w[i]).x as int,
            w[i].y as int,
        ) by {
            assert(on_corridor(a, b, choices[k], w[i].x as int, w[i].y as int) && in_box(a, b, w[i]));
            law_corridors_are_floor(mb, choices, k, w[i].x as int, w[i].y as int);
        }
        lemma_corridor_walk_covers(a, b, choices[k], x, y);
        let i = choose|i: int| 0 <= i < w.len() && #[trigger] w[i] == p;
        lemma_walk_prefix(tiles, w, i);
        let j = choose|j: int| 0 <= j < rooms.len() && rooms[j] == s[k];
        law_rooms_connected(mb, 0, j);
        lemma_connected_transitive(tiles, mb.player_start, a, p);
    }
}

/// The player can walk from the start to every lantern.
pub proof fn law_lanterns_reachable(mb: MapBuilder, k: int)
    requires
        rooms_level(mb),
        0 <= k < mb.lantern_spawns@.len(),
    ensures
        connected(mb.map.tiles@, mb.player_start, mb.lantern_spawns@[k]),
{
    let l = mb.lantern_spawns@[k];
    law_spots_are_floor(SpotRule::Floor, mb.map.tiles@, l);
    law_floor_reachable(mb, l.x as int, l.y as int);
}

} // verus!
