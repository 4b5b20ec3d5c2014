use vstd::prelude::*;

use bracket_lib::prelude::RandomNumberGenerator;

use crate::geometry::{distance_squared, distance_squared_exec, Point, Rect};
use crate::map::{
    idx_of, in_grid, lemma_idx_of_point, point_of, tile_at, DungeonMap, TileType, NUM_TILES,
};
use crate::random::{random_range, random_slice_index};

pub mod paths;
pub mod rooms;
pub mod themes;

pub use rooms::RoomsArchitect;
pub use themes::{glyph_tile, theme_for_coin, DungeonTheme, ForestTheme, MapTheme, MyTile, Theme};

verus! {

/// Number of lanterns placed on a level.
pub const NUM_LANTERN: usize = 20;

/// Number of monsters placed by `spawn_monster`.
pub const NUM_MONSTERS: usize = 50;

/// Which tiles may receive a spawned entity.
#[derive(Clone, Copy, Debug, PartialEq, Eq, Structural)]
pub enum SpotRule {
    /// Any floor tile.
    Floor,
    /// A floor tile farther than 10 tiles, in a straight line, from the given point.
    FloorFarFrom(Point),
}

/// Whether the tile of index `i` may receive a spawned entity under `rule`.
pub open spec fn spot_ok(rule: SpotRule, tiles: Seq<TileType>, i: int) -> bool {
    match rule {
        SpotRule::Floor => tiles[i] == TileType::Floor,
        SpotRule::FloorFarFrom(start) => tiles[i] == TileType::Floor && distance_squared(
            start,
            point_of(i),
        ) > 100,
    }
}

/// The points of the tiles of index below `n` that `rule` accepts, in index order.
pub open spec fn spots_upto(rule: SpotRule, tiles: Seq<TileType>, n: int) -> Seq<Point>
    decreases n,
{
    if n <= 0 {
        seq![]
    } else {
        let prev = spots_upto(rule, tiles, n - 1);
        if spot_ok(rule, tiles, n - 1) {
            prev.push(point_of(n - 1))
        } else {
            prev
        }
    }
}

/// The points of all the tiles that `rule` accepts, in index order.
pub open spec fn spots(rule: SpotRule, tiles: Seq<TileType>) -> Seq<Point> {
    spots_upto(rule, tiles, tiles.len() as int)
}

/// Whether `p` is the point of an accepted tile of index below `n`.
pub open spec fn accepted_below(rule: SpotRule, tiles: Seq<TileType>, n: int, p: Point) -> bool {
    &&& in_grid(p.x as int, p.y as int)
    &&& idx_of(p.x as int, p.y as int) < n
    &&& spot_ok(rule, tiles, idx_of(p.x as int, p.y as int))
}

/// `spots_upto` holds exactly the points of the accepted tiles below `n`, each once.
pub proof fn lemma_spots_upto(rule: SpotRule, tiles: Seq<TileType>, n: int)
    requires
        0 <= n <= NUM_TILES,
        tiles.len() == NUM_TILES,
    ensures
        spots_upto(rule, tiles, n).no_duplicates(),
        forall|k: int|
            0 <= k < spots_upto(rule, tiles, n).len() ==> accepted_below(
                rule,
                tiles,
                n,
                #[trigger] spots_upto(rule, tiles, n)[k],
            ),
        forall|i: int|
            0 <= i < n && spot_ok(rule, tiles, i) ==> #[trigger] spots_upto(rule, tiles, n).contains(
                point_of(i),
            ),
    decreases n,
{
    if n > 0 {
        lemma_spots_upto(rule, tiles, n - 1);
        let prev = spots_upto(rule, tiles, n - 1);
        let cur = spots_upto(rule, tiles, n);
        lemma_idx_of_point(n - 1);
        if spot_ok(rule, tiles, n - 1) {
            assert(cur == prev.push(point_of(n - 1)));
            assert(!prev.contains(point_of(n - 1))) by {
                if prev.contains(point_of(n - 1)) {
                    let k = choose|k: int| 0 <= k < prev.len() && prev[k] == point_of(n - 1);
                    assert(accepted_below(rule, tiles, n - 1, prev[k]));
                }
            }
            assert forall|k: int| 0 <= k < cur.len() implies accepted_below(
                rule,
                tiles,
                n,
                #[trigger] cur[k],
            ) by {
                if k < prev.len() {
                    assert(cur[k] == prev[k]);
                    assert(accepted_below(rule, tiles, n - 1, prev[k]));
                } else {
                    assert(cur[k] == point_of(n - 1));
                }
            }
            assert forall|i: int| 0 <= i < n && spot_ok(rule, tiles, i) implies #[trigger] cur.contains(
                point_of(i),
            ) by {
                if i < n - 1 {
                    assert(prev.contains(point_of(i)));
                    let k = choose|k: int| 0 <= k < prev.len() && prev[k] == point_of(i);
                    assert(cur[k] == point_of(i));
                } else {
                    assert(cur[prev.len() as int] == point_of(i));
                }
            }
        } else {
            assert(cur == prev);
            assert forall|k: int| 0 <= k < cur.len() implies accepted_below(
                rule,
                tiles,
                n,
                #[trigger] cur[k],
            ) by {
                assert(accepted_below(rule, tiles, n - 1, prev[k]));
            }
        }
    }
}

/// Every accepted spot is a floor tile on the grid.
pub proof fn law_spots_are_floor(rule: SpotRule, tiles: Seq<TileType>, p: Point)
    requires
        tiles.len() == NUM_TILES,
        spots(rule, tiles).contains(p),
    ensures
        in_grid(p.x as int, p.y as int),
        tile_at(tiles, p.x as int, p.y as int) == TileType::Floor,
        rule matches SpotRule::FloorFarFrom(start) ==> distance_squared(start, p) > 100,
{
    lemma_spots_upto(rule, tiles, NUM_TILES as int);
    let k = choose|k: int| 0 <= k < spots(rule, tiles).len() && spots(rule, tiles)[k] == p;
    assert(accepted_below(rule, tiles, NUM_TILES as int, spots(rule, tiles)[k]));
    crate::map::lemma_point_of_idx(p.x as int, p.y as int);
}

/// Whether `k` is the index that the most distant reachable tile is read from: a reachable
/// tile of greatest distance, the last one of them in index order.
pub open spec fn is_most_distant(distances: Seq<Option<u32>>, k: int) -> bool {
    &&& 0 <= k < distances.len()
    &&& distances[k] is Some
    &&& forall|j: int|
        0 <= j < distances.len() && #[trigger] distances[j] is Some ==> distances[j]->0
            <= distances[k]->0
    &&& forall|j: int|
        k < j < distances.len() && #[trigger] distances[j] is Some ==> distances[j]->0
            < distances[k]->0
}

/// A generated level: its map, its rooms and where its entities start.
pub struct MapBuilder {
    pub map: DungeonMap,
    pub rooms: Vec<Rect>,
    pub monster_spawns: Vec<Point>,
    pub lantern_spawns: Vec<Point>,
    pub player_start: Point,
    pub amulet_start: Point,
    pub theme: Theme,
}

/// Draws `count` distinct points of `spawnable`, one after the other.
fn pick_distinct(rng: &mut RandomNumberGenerator, spawnable: Vec<Point>, count: usize) -> (r: Vec<
    Point,
>)
    requires
        spawnable@.no_duplicates(),
        count <= spawnable@.len() < i32::MAX,
    ensures
        r@.len() == count,
        r@.no_duplicates(),
        forall|k: int| 0 <= k < r@.len() ==> spawnable@.contains(#[trigger] r@[k]),
{
    let ghost orig = spawnable@;
    let mut spawnable = spawnable;
    let mut spawns: Vec<Point> = Vec::new();
    for i in 0..count
        invariant
            spawns@.len() == i,
            spawnable@.len() == orig.len() - i,
            orig.len() < i32::MAX,
            count <= orig.len(),
            spawns@.no_duplicates(),
            spawnable@.no_duplicates(),
            forall|k: int| 0 <= k < spawns@.len() ==> orig.contains(#[trigger] spawns@[k]),
            forall|k: int| 0 <= k < spawnable@.len() ==> orig.contains(#[trigger] spawnable@[k]),
            forall|a: int, b: int|
                0 <= a < spawns@.len() && 0 <= b < spawnable@.len() ==> spawns@[a]
                    != spawnable@[b],
    {
        let target = random_slice_index(rng, spawnable.as_slice());
        let target_index = match target {
            Some(t) => t,
            None => { return spawns; },
        };
        let chosen = spawnable[target_index];
        let ghost before = spawnable@;
        let ghost spawns_before = spawns@;
        spawns.push(chosen);
        spawnable.remove(target_index);
        assert forall|k: int| 0 <= k < spawnable@.len() implies #[trigger] spawnable@[k] == (if k
            < target_index {
            before[k]
        } else {
            before[k + 1]
        }) by {}
        assert(spawns@.no_duplicates()) by {
            assert forall|a: int, b: int|
                0 <= a < spawns@.len() && 0 <= b < spawns@.len() && a != b implies spawns@[a]
                != spawns@[b] by {
                if a < spawns_before.len() && b < spawns_before.len() {
                    assert(spawns@[a] == spawns_before[a]);
                    assert(spawns@[b] == spawns_before[b]);
                } else if a < spawns_before.len() {
                    assert(spawns@[b] == before[target_index as int]);
                    assert(spawns@[a] == spawns_before[a]);
                } else {
                    assert(spawns@[a] == before[target_index as int]);
                    assert(spawns@[b] == spawns_before[b]);
                }
            }
        }
        assert(spawnable@.no_duplicates()) by {
            assert forall|a: int, b: int|
                0 <= a < spawnable@.len() && 0 <= b < spawnable@.len() && a != b implies spawnable@[a]
                != spawnable@[b] by {
                let ia = if a < target_index { a } else { a + 1 };
                let ib = if b < target_index { b } else { b + 1 };
                assert(spawnable@[a] == before[ia]);
                assert(spawnable@[b] == before[ib]);
            }
        }
        assert forall|k: int| 0 <= k < spawns@.len() implies orig.contains(#[trigger] spawns@[k]) by {
            if k < spawns_before.len() {
                assert(spawns@[k] == spawns_before[k]);
            } else {
                assert(spawns@[k] == before[target_index as int]);
            }
        }
        assert forall|k: int| 0 <= k < spawnable@.len() implies orig.contains(
            #[trigger] spawnable@[k],
        ) by {
            let ik = if k < target_index { k } else { k + 1 };
            assert(spawnable@[k] == before[ik]);
        }
        assert forall|a: int, b: int|
            0 <= a < spawns@.len() && 0 <= b < spawnable@.len() implies spawns@[a]
            != spawnable@[b] by {
            let ib = if b < target_index { b } else { b + 1 };
            assert(spawnable@[b] == before[ib]);
            if a < spawns_before.len() {
                assert(spawns@[a] == spawns_before[a]);
            } else {
                assert(spawns@[a] == before[target_index as int]);
            }
        }
    }
    spawns
}

impl MapBuilder {
    /// Generates a level with the rooms architect and picks its theme by a coin toss
    /// (dungeon or forest). The amulet is placed afterwards by `place_amulet`. Fails only
    /// when the architect gives up (see `RoomsArchitect::build`), and then draws no theme.
    pub fn new(rng: &mut RandomNumberGenerator) -> (r: Result<MapBuilder, rooms::RoomsExhausted>)
        ensures
            r matches Ok(mb) ==> {
                &&& rooms::rooms_level(mb)
                &&& mb.amulet_start == Point { x: 0, y: 0 }
                &&& (mb.theme == Theme::Dungeon(DungeonTheme {}) || mb.theme == Theme::Forest(
                    ForestTheme {},
                ))
            },
            r matches Err(e) ==> e.attempts == rooms::MAX_ROOM_ATTEMPTS && e.rooms_placed
                < rooms::NUM_ROOMS,
    {
        let mut architect = RoomsArchitect {};
        match architect.build(rng) {
            Err(e) => Err(e),
            Ok(mut mb) => {
                mb.theme = theme_for_coin(random_range(rng, 0, 2));
                Ok(mb)
            },
        }
    }

    /// The points of the tiles that `rule` accepts, in index order.
    pub fn spots_exec(&self, rule: SpotRule) -> (r: Vec<Point>)
        requires
            self.map.wf(),
        ensures
            r@ == spots(rule, self.map.tiles@),
    {
        let mut spawnable: Vec<Point> = Vec::new();
        let n = self.map.tiles.len();
        for idx in 0..n
            invariant
                n == self.map.tiles@.len(),
                n == NUM_TILES,
                spawnable@ == spots_upto(rule, self.map.tiles@, idx as int),
        {
            let accepted = match rule {
                SpotRule::Floor => self.map.tiles[idx] == TileType::Floor,
                SpotRule::FloorFarFrom(start) => self.map.tiles[idx] == TileType::Floor
                    && distance_squared_exec(start, self.map.index_to_point2d(idx)) > 100,
            };
            if accepted {
                spawnable.push(self.map.index_to_point2d(idx));
            }
        }
        spawnable
    }

    /// Sets every tile of the map to `tile`.
    pub fn fill(&mut self, tile: TileType)
        requires
            old(self).map.wf(),
        ensures
            final(self).map.wf(),
            forall|i: int| 0 <= i < NUM_TILES ==> #[trigger] final(self).map.tiles@[i] == tile,
            final(self).map.revealed_tiles == old(self).map.revealed_tiles,
            final(self).map.far_revealed_tiles == old(self).map.far_revealed_tiles,
            final(self).rooms == old(self).rooms,
            final(self).monster_spawns == old(self).monster_spawns,
            final(self).lantern_spawns == old(self).lantern_spawns,
            final(self).player_start == old(self).player_start,
            final(self).amulet_start == old(self).amulet_start,
            final(self).theme == old(self).theme,
    {
        let n = self.map.tiles.len();
        for i in 0..n
            invariant
                n == NUM_TILES,
                self.map.wf(),
                forall|j: int| 0 <= j < i ==> #[trigger] self.map.tiles@[j] == tile,
                self.map.revealed_tiles == old(self).map.revealed_tiles,
                self.map.far_revealed_tiles == old(self).map.far_revealed_tiles,
                self.rooms == old(self).rooms,
                self.monster_spawns == old(self).monster_spawns,
                self.lantern_spawns == old(self).lantern_spawns,
                self.player_start == old(self).player_start,
                self.amulet_start == old(self).amulet_start,
                self.theme == old(self).theme,
        {
            self.map.tiles.set(i, tile);
        }
    }

    /// The point of the reachable tile farthest from the player's start. `distances` holds,
    /// for each tile index, its walking distance from the start, or `None` where the tile
    /// cannot be reached. Among tiles of equal distance the last in index order is chosen.
    pub fn find_most_distant(&self, distances: &Vec<Option<u32>>) -> (r: Point)
        requires
            distances@.len() == NUM_TILES,
            exists|i: int| 0 <= i < NUM_TILES && #[trigger] distances@[i] is Some,
        ensures
            exists|k: int| is_most_distant(distances@, k) && r == point_of(k),
    {
        let mut best: Option<(usize, u32)> = None;
        for i in 0..distances.len()
            invariant
                distances@.len() == NUM_TILES,
                best is None ==> forall|j: int| 0 <= j < i ==> #[trigger] distances@[j] is None,
                best matches Some((k, d)) ==> {
                    &&& k < i
                    &&& distances@[k as int] == Some(d)
                    &&& forall|j: int|
                        0 <= j < i && #[trigger] distances@[j] is Some ==> distances@[j]->0 <= d
                    &&& forall|j: int|
                        k < j < i && #[trigger] distances@[j] is Some ==> distances@[j]->0 < d
                },
        {
            match distances[i] {
                Some(d) => {
                    match best {
                        None => {
                            best = Some((i, d));
                        },
                        Some((_, bd)) => {
                            if d >= bd {
                                best = Some((i, d));
                            }
                        },
                    }
                },
                None => {},
            }
        }
        match best {
            Some((k, _)) => {
                let r = self.map.index_to_point2d(k);
                assert(is_most_distant(distances@, k as int));
                r
            },
            None => {
                proof {
                    let i = choose|i: int| 0 <= i < NUM_TILES && #[trigger] distances@[i] is Some;
                    assert(distances@[i] is None);
                }
                Point::zero()
            },
        }
    }

    /// Places the amulet on the reachable tile farthest from the player's start.
    pub fn place_amulet(&mut self, distances: &Vec<Option<u32>>)
        requires
            distances@.len() == NUM_TILES,
            exists|i: int| 0 <= i < NUM_TILES && #[trigger] distances@[i] is Some,
        ensures
            exists|k: int|
                is_most_distant(distances@, k) && final(self).amulet_start == point_of(k),
            final(self).map == old(self).map,
            final(self).rooms == old(self).rooms,
            final(self).monster_spawns == old(self).monster_spawns,
            final(self).lantern_spawns == old(self).lantern_spawns,
            final(self).player_start == old(self).player_start,
            final(self).theme == old(self).theme,
    {
        self.amulet_start = self.find_most_distant(distances);
    }

    /// Fifty distinct floor points, each farther than 10 tiles from `start`.
    pub fn spawn_monster(&self, start: &Point, rng: &mut RandomNumberGenerator) -> (r: Vec<Point>)
        requires
            self.map.wf(),
            spots(SpotRule::FloorFarFrom(*start), self.map.tiles@).len() >= NUM_MONSTERS,
        ensures
            r@.len() == NUM_MONSTERS,
            r@.no_duplicates(),
            forall|k: int|
                0 <= k < r@.len() ==> spots(SpotRule::FloorFarFrom(*start), self.map.tiles@).contains(
                    #[trigger] r@[k],
                ),
    {
        let spawnable = self.spots_exec(SpotRule::FloorFarFrom(*start));
        proof {
            lemma_spots_upto(SpotRule::FloorFarFrom(*start), self.map.tiles@, NUM_TILES as int);
            assert(spawnable@.len() <= NUM_TILES) by {
                lemma_spots_len(SpotRule::FloorFarFrom(*start), self.map.tiles@, NUM_TILES as int);
            }
        }
        pick_distinct(rng, spawnable, NUM_MONSTERS)
    }

    /// Twenty distinct floor points.
    pub fn spawn_lantern(&self, rng: &mut RandomNumberGenerator) -> (r: Vec<Point>)
        requires
            self.map.wf(),
            spots(SpotRule::Floor, self.map.tiles@).len() >= NUM_LANTERN,
        ensures
            r@.len() == NUM_LANTERN,
            r@.no_duplicates(),
            forall|k: int|
                0 <= k < r@.len() ==> spots(SpotRule::Floor, self.map.tiles@).contains(
                    #[trigger] r@[k],
                ),
    {
        let spawnable = self.spots_exec(SpotRule::Floor);
        proof {
            lemma_spots_upto(SpotRule::Floor, self.map.tiles@, NUM_TILES as int);
            lemma_spots_len(SpotRule::Floor, self.map.tiles@, NUM_TILES as int);
        }
        pick_distinct(rng, spawnable, NUM_LANTERN)
    }

    /// Looks at each tile on the border of the map and changes none of them: the map is
    /// borrowed immutably, so the level keeps the tiles it was carved with.
    pub fn complete_map_border(&self) {
        for idx in 0..self.map.tiles.len() {
            let pt = self.map.index_to_point2d(idx);
            let _on_border = pt.x == 0 || pt.y == 0 || pt.x == crate::geometry::SCREEN_WIDTH
                || pt.y == crate::geometry::SCREEN_HEIGHT;
        }
    }
}

/// `spots_upto` never holds more points than there are tiles below `n`.
pub proof fn lemma_spots_len(rule: SpotRule, tiles: Seq<TileType>, n: int)
    requires
        0 <= n,
    ensures
        spots_upto(rule, tiles, n).len() <= n,
    decreases n,
{
    if n > 0 {
        lemma_spots_len(rule, tiles, n - 1);
    }
}

} // verus!
