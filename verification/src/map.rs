use vstd::prelude::*;

use crate::geometry::{Point, SCREEN_HEIGHT, SCREEN_WIDTH};

verus! {

/// Number of tiles of the dungeon: `SCREEN_WIDTH * SCREEN_HEIGHT`.
pub const NUM_TILES: usize = 4000;

/// What a tile of the dungeon is made of.
#[derive(Clone, Copy, Debug, PartialEq, Eq, Structural)]
pub enum TileType {
    Wall,
    Floor,
    Exit,
}

/// Whether `(x, y)` lies on the dungeon grid.
pub open spec fn in_grid(x: int, y: int) -> bool {
    0 <= x < SCREEN_WIDTH && 0 <= y < SCREEN_HEIGHT
}

/// The row-major index of `(x, y)` on the grid.
pub open spec fn idx_of(x: int, y: int) -> int {
    y * SCREEN_WIDTH + x
}

/// The point whose row-major index is `idx`.
pub open spec fn point_of(idx: int) -> Point {
    Point { x: (idx % (SCREEN_WIDTH as int)) as i32, y: (idx / (SCREEN_WIDTH as int)) as i32 }
}

/// The tile at `(x, y)` of a row-major sequence of tiles.
pub open spec fn tile_at<T>(tiles: Seq<T>, x: int, y: int) -> T {
    tiles[idx_of(x, y)]
}

/// The dungeon: one tile type per grid cell, and what the player has seen of it.
pub struct DungeonMap {
    pub tiles: Vec<TileType>,
    pub revealed_tiles: Vec<bool>,
    pub far_revealed_tiles: Vec<bool>,
}

/// Whether the player or a monster may stand on a tile of this type.
pub open spec fn enterable(t: TileType) -> bool {
    t == TileType::Floor || t == TileType::Exit
}

pub proof fn lemma_num_tiles()
    ensures
        NUM_TILES == SCREEN_WIDTH * SCREEN_HEIGHT,
{
}

/// Every in-grid point has an index below `NUM_TILES`.
pub proof fn lemma_idx_in_range(x: int, y: int)
    requires
        in_grid(x, y),
    ensures
        0 <= idx_of(x, y) < NUM_TILES,
{
    assert(y * 80 <= 49 * 80) by (nonlinear_arith)
        requires
            0 <= y <= 49,
    ;
    assert(0 <= y * 80) by (nonlinear_arith)
        requires
            0 <= y,
    ;
}

/// The index of a point, then the point of that index, gives back the point.
pub proof fn lemma_point_of_idx(x: int, y: int)
    requires
        in_grid(x, y),
    ensures
        point_of(idx_of(x, y)).x == x,
        point_of(idx_of(x, y)).y == y,
{
    assert((y * 80 + x) % 80 == x && (y * 80 + x) / 80 == y) by (nonlinear_arith)
        requires
            0 <= x < 80,
            0 <= y,
    ;
}

/// The point of an index, then the index of that point, gives back the index.
pub proof fn lemma_idx_of_point(idx: int)
    requires
        0 <= idx < NUM_TILES,
    ensures
        in_grid(point_of(idx).x as int, point_of(idx).y as int),
        idx_of(point_of(idx).x as int, point_of(idx).y as int) == idx,
{
    assert(0 <= idx % 80 < 80 && 0 <= idx / 80 < 50 && (idx / 80) * 80 + idx % 80 == idx)
        by (nonlinear_arith)
        requires
            0 <= idx < 4000,
    ;
}

/// Two in-grid points with the same index are the same point.
pub proof fn lemma_idx_injective(x1: int, y1: int, x2: int, y2: int)
    requires
        in_grid(x1, y1),
        in_grid(x2, y2),
        idx_of(x1, y1) == idx_of(x2, y2),
    ensures
        x1 == x2,
        y1 == y2,
{
    lemma_point_of_idx(x1, y1);
    lemma_point_of_idx(x2, y2);
}

/// The index of `(x, y)`. The point must lie on the grid.
pub fn map_idx(x: i32, y: i32) -> (r: usize)
    requires
        in_grid(x as int, y as int),
    ensures
        r == idx_of(x as int, y as int),
        r < NUM_TILES,
{
    proof {
        lemma_idx_in_range(x as int, y as int);
    }
    ((y * SCREEN_WIDTH) + x) as usize
}

impl DungeonMap {
    /// The map has one entry per grid cell in each of its layers.
    pub open spec fn wf(&self) -> bool {
        &&& self.tiles@.len() == NUM_TILES
        &&& self.revealed_tiles@.len() == NUM_TILES
        &&& self.far_revealed_tiles@.len() == NUM_TILES
    }

    /// Whether the map has one entry per grid cell in each of its layers (see `wf`).
    pub fn has_all_tiles(&self) -> (r: bool)
        ensures
            r == self.wf(),
    {
        self.tiles.len() == NUM_TILES && self.revealed_tiles.len() == NUM_TILES
            && self.far_revealed_tiles.len() == NUM_TILES
    }

    /// A map of floor tiles, none of them seen yet.
    pub fn new() -> (r: DungeonMap)
        ensures
            r.wf(),
            forall|i: int| 0 <= i < NUM_TILES ==> #[trigger] r.tiles@[i] == TileType::Floor,
            forall|i: int| 0 <= i < NUM_TILES ==> !#[trigger] r.revealed_tiles@[i],
            forall|i: int| 0 <= i < NUM_TILES ==> !#[trigger] r.far_revealed_tiles@[i],
    {
        let mut tiles: Vec<TileType> = Vec::new();
        let mut revealed_tiles: Vec<bool> = Vec::new();
        let mut far_revealed_tiles: Vec<bool> = Vec::new();
        for i in 0..NUM_TILES
            invariant
                tiles@.len() == i,
                revealed_tiles@.len() == i,
                far_revealed_tiles@.len() == i,
                forall|j: int| 0 <= j < i ==> #[trigger] tiles@[j] == TileType::Floor,
                forall|j: int| 0 <= j < i ==> !#[trigger] revealed_tiles@[j],
                forall|j: int| 0 <= j < i ==> !#[trigger] far_revealed_tiles@[j],
        {
            tiles.push(TileType::Floor);
            revealed_tiles.push(false);
            far_revealed_tiles.push(false);
        }
        DungeonMap { tiles, revealed_tiles, far_revealed_tiles }
    }

    /// Whether the point lies on the grid.
    pub fn in_bound(&self, point: Point) -> (r: bool)
        ensures
            r == in_grid(point.x as int, point.y as int),
    {
        point.x >= 0 && point.x < SCREEN_WIDTH && point.y >= 0 && point.y < SCREEN_HEIGHT
    }

    /// The index of the point, where it lies on the grid.
    pub fn try_idx(&self, point: Point) -> (r: Option<usize>)
        ensures
            r.is_some() == in_grid(point.x as int, point.y as int),
            r matches Some(i) ==> i == idx_of(point.x as int, point.y as int) && i < NUM_TILES,
    {
        if !self.in_bound(point) {
            None
        } else {
            Some(map_idx(point.x, point.y))
        }
    }

    /// The row-major index of a point; its index must not be negative.
    pub fn point2d_to_index(&self, pt: Point) -> (r: usize)
        requires
            crate::geometry::fits_i32(pt.y * SCREEN_WIDTH),
            0 <= idx_of(pt.x as int, pt.y as int) <= i32::MAX,
        ensures
            r == idx_of(pt.x as int, pt.y as int),
    {
        ((pt.y as i64 * SCREEN_WIDTH as i64) + pt.x as i64) as usize
    }

    /// The point of a row-major index: column `idx % SCREEN_WIDTH`, row `idx / SCREEN_WIDTH`
    /// (a row beyond `i32::MAX` becomes 0).
    pub fn index_to_point2d(&self, idx: usize) -> (r: Point)
        ensures
            r.x == idx as int % (SCREEN_WIDTH as int),
            r.y == (if idx as int / (SCREEN_WIDTH as int) <= i32::MAX {
                idx as int / (SCREEN_WIDTH as int)
            } else {
                0
            }),
            idx < NUM_TILES ==> r == point_of(idx as int),
    {
        let w: usize = 80;
        let row: usize = idx / w;
        let y: i32 = if row <= 2147483647 { row as i32 } else { 0 };
        Point { x: (idx % w) as i32, y }
    }
}

/// The exit from `p` by the step `(dx, dy)`, if it leads onto an enterable tile of the grid.
pub open spec fn exit_toward(tiles: Seq<TileType>, p: Point, dx: int, dy: int) -> Seq<usize> {
    let x = p.x + dx;
    let y = p.y + dy;
    if in_grid(x, y) && enterable(tile_at(tiles, x, y)) {
        seq![idx_of(x, y) as usize]
    } else {
        seq![]
    }
}

/// The indices of the enterable tiles next to tile `idx`: west, east, north, south.
pub open spec fn exits(tiles: Seq<TileType>, idx: int) -> Seq<usize> {
    let p = point_of(idx);
    exit_toward(tiles, p, -1, 0) + exit_toward(tiles, p, 1, 0) + exit_toward(tiles, p, 0, -1)
        + exit_toward(tiles, p, 0, 1)
}

impl DungeonMap {
    /// Whether the point lies on the grid on a tile that can be walked on.
    pub fn can_enter_tile(&self, point: Point) -> (r: bool)
        requires
            self.wf(),
        ensures
            r == (in_grid(point.x as int, point.y as int) && enterable(
                tile_at(self.tiles@, point.x as int, point.y as int),
            )),
    {
        if self.in_bound(point) {
            let t = self.tiles[map_idx(point.x, point.y)];
            t == TileType::Floor || t == TileType::Exit
        } else {
            false
        }
    }

    /// Whether tile `idx` blocks sight: every tile but floor does.
    pub fn is_opaque(&self, idx: usize) -> (r: bool)
        requires
            self.wf(),
            idx < NUM_TILES,
        ensures
            r == (self.tiles@[idx as int] != TileType::Floor),
    {
        self.tiles[idx] != TileType::Floor
    }

    /// The indices of the tiles that can be walked to in one step from tile `idx`, in the
    /// order west, east, north, south.
    pub fn available_exits(&self, idx: usize) -> (r: Vec<usize>)
        requires
            self.wf(),
            idx < NUM_TILES,
        ensures
            r@ == exits(self.tiles@, idx as int),
    {
        let location = self.index_to_point2d(idx);
        proof {
            lemma_idx_of_point(idx as int);
        }
        let mut r: Vec<usize> = Vec::new();
        let ghost p = location;
        let west = location.offset_by(Point::new(-1, 0));
        if self.can_enter_tile(west) {
            r.push(map_idx(west.x, west.y));
        }
        assert(r@ == exit_toward(self.tiles@, p, -1, 0));
        let east = location.offset_by(Point::new(1, 0));
        if self.can_enter_tile(east) {
            r.push(map_idx(east.x, east.y));
        }
        assert(r@ == exit_toward(self.tiles@, p, -1, 0) + exit_toward(self.tiles@, p, 1, 0));
        let north = location.offset_by(Point::new(0, -1));
        if self.can_enter_tile(north) {
            r.push(map_idx(north.x, north.y));
        }
        assert(r@ == exit_toward(self.tiles@, p, -1, 0) + exit_toward(self.tiles@, p, 1, 0)
            + exit_toward(self.tiles@, p, 0, -1));
        let south = location.offset_by(Point::new(0, 1));
        if self.can_enter_tile(south) {
            r.push(map_idx(south.x, south.y));
        }
        r
    }
}

/// For every in-grid point, the index and the point convert into one another.
pub proof fn law_index_point_round_trip(x: int, y: int, idx: int)
    requires
        in_grid(x, y),
        0 <= idx < NUM_TILES,
    ensures
        point_of(idx_of(x, y)) == (Point { x: x as i32, y: y as i32 }),
        idx_of(point_of(idx).x as int, point_of(idx).y as int) == idx,
{
    lemma_point_of_idx(x, y);
    lemma_idx_of_point(idx);
}

} // verus!
