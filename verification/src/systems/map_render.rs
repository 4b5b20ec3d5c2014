use vstd::prelude::*;

use crate::camera::Camera;
use crate::game::TILE_SIZE;
use crate::geometry::Point;
use crate::map::{idx_of, in_grid, lemma_idx_in_range, lemma_idx_injective, map_idx, tile_at, DungeonMap};
use crate::map_builder::{MapTheme, MyTile, Theme};

verus! {

/// The color a sprite or a tile is tinted with.
#[derive(Clone, Copy, Debug, PartialEq, Eq, Structural)]
pub enum Tint {
    White,
    Yellow,
    DarkGray,
    Red,
}

/// What the player and the lights see: the tiles in the player's field of view, in the
/// player's far field of view, and in each light's field of view.
pub struct FieldsOfView {
    pub player: Vec<Point>,
    pub player_far: Vec<Point>,
    pub lights: Vec<Vec<Point>>,
}

/// A map tile to draw: where on screen, which sheet cell, which tint.
#[derive(Clone, Copy, Debug, PartialEq, Eq, Structural)]
pub struct TileDraw {
    pub screen: Point,
    pub tile: MyTile,
    pub tint: Tint,
}

/// Whether a light shows `p` to the player: some light sees it, and so does the player's
/// far field of view.
pub open spec fn lit(f: FieldsOfView, p: Point) -> bool {
    &&& exists|l: int| 0 <= l < f.lights@.len() && (#[trigger] f.lights@[l])@.contains(p)
    &&& f.player_far@.contains(p)
}

/// How the tile at `(x, y)` is drawn, if it is: in yellow where a light shows it; otherwise,
/// if the player has already seen it, in white where the player sees it now and in dark gray
/// elsewhere. Only tiles on the grid that the player sees, has seen, or has seen from afar
/// are considered.
pub open spec fn tile_tint(map: DungeonMap, f: FieldsOfView, x: int, y: int) -> Option<Tint> {
    let p = Point { x: x as i32, y: y as i32 };
    let i = idx_of(x, y);
    let visible = f.player@.contains(p);
    if !in_grid(x, y) {
        None
    } else if !(visible || map.revealed_tiles@[i] || map.far_revealed_tiles@[i]) {
        None
    } else if lit(f, p) {
        Some(Tint::Yellow)
    } else if !map.revealed_tiles@[i] {
        None
    } else if visible {
        Some(Tint::White)
    } else {
        Some(Tint::DarkGray)
    }
}

/// Whether drawing the tile at `(x, y)` marks it as seen: a light shows it.
pub open spec fn reveals(map: DungeonMap, f: FieldsOfView, x: int, y: int) -> bool {
    tile_tint(map, f, x, y) == Some(Tint::Yellow)
}

/// The screen position of grid point `(x, y)` for the camera.
pub open spec fn screen_of(cam: Camera, x: int, y: int) -> Point {
    Point { x: ((x - cam.left_x) * TILE_SIZE) as i32, y: ((y - cam.top_y) * TILE_SIZE) as i32 }
}

/// The draw of the tile at `(x, y)`, if any.
pub open spec fn cell_draws(
    map: DungeonMap,
    cam: Camera,
    theme: Theme,
    f: FieldsOfView,
    x: int,
    y: int,
) -> Seq<TileDraw> {
    match tile_tint(map, f, x, y) {
        Some(t) => seq![
            TileDraw {
                screen: screen_of(cam, x, y),
                tile: theme.theme_tile(tile_at(map.tiles@, x, y)),
                tint: t,
            },
        ],
        None => seq![],
    }
}

/// The draws of row `y`, from the camera's left column up to column `x_end` (excluded).
pub open spec fn row_draws(
    map: DungeonMap,
    cam: Camera,
    theme: Theme,
    f: FieldsOfView,
    y: int,
    x_end: int,
) -> Seq<TileDraw>
    decreases x_end - cam.left_x,
{
    if x_end <= cam.left_x {
        seq![]
    } else {
        row_draws(map, cam, theme, f, y, x_end - 1) + cell_draws(map, cam, theme, f, x_end - 1, y)
    }
}

/// The draws of the rows from the camera's top row up to row `y_end` (excluded).
pub open spec fn window_draws(
    map: DungeonMap,
    cam: Camera,
    theme: Theme,
    f: FieldsOfView,
    y_end: int,
) -> Seq<TileDraw>
    decreases y_end - cam.top_y,
{
    if y_end <= cam.top_y {
        seq![]
    } else {
        window_draws(map, cam, theme, f, y_end - 1) + row_draws(
            map,
            cam,
            theme,
            f,
            y_end - 1,
            cam.right_x as int,
        )
    }
}

/// Whether the screen positions of the camera's window fit in an `i32`.
pub open spec fn camera_drawable(cam: Camera) -> bool {
    &&& (cam.right_x - cam.left_x) * TILE_SIZE <= i32::MAX
    &&& (cam.bottom_y - cam.top_y) * TILE_SIZE <= i32::MAX
}

/// Whether the screen positions of the camera's window fit in an `i32` (see `camera_drawable`).
pub fn camera_drawable_exec(cam: &Camera) -> (r: bool)
    ensures
        r == camera_drawable(*cam),
{
    let w: i64 = cam.right_x as i64 - cam.left_x as i64;
    let h: i64 = cam.bottom_y as i64 - cam.top_y as i64;
    w * 32 <= 2147483647 && h * 32 <= 2147483647
}

/// Whether the point is in the list.
pub fn contains_point(v: &Vec<Point>, p: Point) -> (r: bool)
    ensures
        r == v@.contains(p),
{
    for i in 0..v.len()
        invariant
            forall|j: int| 0 <= j < i ==> v@[j] != p,
    {
        if v[i] == p {
            return true;
        }
    }
    false
}

/// Whether a light shows `p` to the player (see `lit`).
pub fn light_shows(f: &FieldsOfView, p: Point) -> (r: bool)
    ensures
        r == lit(*f, p),
{
    for i in 0..f.lights.len()
        invariant
            forall|l: int|
                0 <= l < i ==> !((#[trigger] f.lights@[l])@.contains(p) && f.player_far@.contains(p)),
    {
        if contains_point(&f.lights[i], p) && contains_point(&f.player_far, p) {
            return true;
        }
    }
    false
}

/// The map drawing system. Goes over the camera's window row by row, from the top row to the
/// bottom row (both included) and from the left column to the right column (excluded), and
/// draws each tile as `tile_tint` says, in the theme's cell for its type. A tile that a
/// light shows is marked as seen.
pub fn map_render(map: &mut DungeonMap, camera: &Camera, theme: &Theme, fovs: &FieldsOfView) -> (r:
    Vec<TileDraw>)
    requires
        old(map).wf(),
        camera_drawable(*camera),
    ensures
        final(map).wf(),
        final(map).tiles == old(map).tiles,
        final(map).far_revealed_tiles == old(map).far_revealed_tiles,
        r@ == window_draws(*old(map), *camera, *theme, *fovs, camera.bottom_y + 1),
        forall|x: int, y: int|
            in_grid(x, y) ==> #[trigger] tile_at(final(map).revealed_tiles@, x, y) == (tile_at(
                old(map).revealed_tiles@,
                x,
                y,
            ) || (camera.top_y <= y <= camera.bottom_y && camera.left_x <= x < camera.right_x
                && reveals(*old(map), *fovs, x, y))),
{
    let ghost m0 = *map;
    let mut draws: Vec<TileDraw> = Vec::new();
    let mut y: i64 = camera.top_y as i64;
    while y <= camera.bottom_y as i64
        invariant
            map.wf(),
            map.tiles == m0.tiles,
            map.far_revealed_tiles == m0.far_revealed_tiles,
            m0 == *old(map),
            m0.wf(),
            camera_drawable(*camera),
            camera.top_y <= y <= camera.bottom_y + 1 || (y == camera.top_y && camera.bottom_y
                < camera.top_y),
            draws@ == window_draws(m0, *camera, *theme, *fovs, y as int),
            forall|gx: int, gy: int|
                in_grid(gx, gy) ==> #[trigger] tile_at(map.revealed_tiles@, gx, gy) == (tile_at(
                    m0.revealed_tiles@,
                    gx,
                    gy,
                ) || (camera.top_y <= gy < y && camera.left_x <= gx < camera.right_x && reveals(
                    m0,
                    *fovs,
                    gx,
                    gy,
                ))),
        decreases camera.bottom_y + 1 - y,
    {
        let mut x: i64 = camera.left_x as i64;
        let ghost row_start = draws@;
        while x < camera.right_x as i64
            invariant
                map.wf(),
                map.tiles == m0.tiles,
                map.far_revealed_tiles == m0.far_revealed_tiles,
                m0.wf(),
                camera_drawable(*camera),
                camera.top_y <= y <= camera.bottom_y,
                camera.left_x <= x <= camera.right_x || (x == camera.left_x && camera.right_x
                    < camera.left_x),
                row_start == window_draws(m0, *camera, *theme, *fovs, y as int),
                draws@ == row_start + row_draws(m0, *camera, *theme, *fovs, y as int, x as int),
                forall|gx: int, gy: int|
                    in_grid(gx, gy) ==> #[trigger] tile_at(map.revealed_tiles@, gx, gy) == (tile_at(
                        m0.revealed_tiles@,
                        gx,
                        gy,
                    ) || (((camera.top_y <= gy < y && camera.left_x <= gx < camera.right_x) || (gy
                        == y && camera.left_x <= gx < x)) && reveals(m0, *fovs, gx, gy))),
            decreases camera.right_x - x,
        {
            let pt = Point::new(x as i32, y as i32);
            let ghost before = map.revealed_tiles@;
            let ghost draws_before = draws@;
            if map.in_bound(pt) {
                let idx = map_idx(pt.x, pt.y);
                proof {
                    assert(tile_at(map.revealed_tiles@, x as int, y as int) == tile_at(
                        m0.revealed_tiles@,
                        x as int,
                        y as int,
                    ));
                }
                let visible = contains_point(&fovs.player, pt);
                if visible || map.revealed_tiles[idx] || map.far_revealed_tiles[idx] {
                    let shown = light_shows(fovs, pt);
                    let mut tint = Tint::Yellow;
                    let mut draw = true;
                    if shown {
                        map.revealed_tiles.set(idx, true);
                    } else if !map.revealed_tiles[idx] {
                        draw = false;
                    } else if visible {
                        tint = Tint::White;
                    } else {
                        tint = Tint::DarkGray;
                    }
                    if draw {
                        let offset = Point::new(camera.left_x, camera.top_y);
                        let screen = pt.relative_to(offset).scaled(TILE_SIZE);
                        let tile = theme.tile_to_render(map.tiles[idx]);
                        draws.push(TileDraw { screen, tile, tint });
                    }
                }
                proof {
                    assert forall|gx: int, gy: int|
                        in_grid(gx, gy) && (gx != x || gy != y) implies #[trigger] tile_at(
                        map.revealed_tiles@,
                        gx,
                        gy,
                    ) == tile_at(before, gx, gy) by {
                        lemma_idx_in_range(gx, gy);
                        if idx_of(gx, gy) == idx as int {
                            lemma_idx_injective(gx, gy, x as int, y as int);
                        }
                    }
                }
            }
            proof {
                assert(draws@ == draws_before + cell_draws(
                    m0,
                    *camera,
                    *theme,
                    *fovs,
                    x as int,
                    y as int,
                ));
            }
            x = x + 1;
        }
        y = y + 1;
    }
    draws
}

/// Every draw of the tile at `(x, y)` is among the draws of a row that reaches past `x`.
proof fn lemma_row_holds_cell(
    map: DungeonMap,
    cam: Camera,
    theme: Theme,
    f: FieldsOfView,
    y: int,
    x_end: int,
    x: int,
    d: TileDraw,
)
    requires
        cam.left_x <= x < x_end,
        cell_draws(map, cam, theme, f, x, y).contains(d),
    ensures
        row_draws(map, cam, theme, f, y, x_end).contains(d),
    decreases x_end - cam.left_x,
{
    let prev = row_draws(map, cam, theme, f, y, x_end - 1);
    let cell = cell_draws(map, cam, theme, f, x_end - 1, y);
    let k = if x == x_end - 1 {
        choose|k: int| 0 <= k < cell.len() && cell[k] == d
    } else {
        lemma_row_holds_cell(map, cam, theme, f, y, x_end - 1, x, d);
        choose|k: int| 0 <= k < prev.len() && prev[k] == d
    };
    if x == x_end - 1 {
        assert((prev + cell)[prev.len() + k] == d);
    } else {
        assert((prev + cell)[k] == d);
    }
}

/// Every draw of a tile in the camera's columns and in a row above `y_end` is among the
/// draws of the window down to `y_end`.
proof fn lemma_window_holds_cell(
    map: DungeonMap,
    cam: Camera,
    theme: Theme,
    f: FieldsOfView,
    y_end: int,
    x: int,
    y: int,
    d: TileDraw,
)
    requires
        cam.top_y <= y < y_end,
        cam.left_x <= x < cam.right_x,
        cell_draws(map, cam, theme, f, x, y).contains(d),
    ensures
        window_draws(map, cam, theme, f, y_end).contains(d),
    decreases y_end - cam.top_y,
{
    let prev = window_draws(map, cam, theme, f, y_end - 1);
    let row = row_draws(map, cam, theme, f, y_end - 1, cam.right_x as int);
    if y == y_end - 1 {
        lemma_row_holds_cell(map, cam, theme, f, y, cam.right_x as int, x, d);
        let k = choose|k: int| 0 <= k < row.len() && row[k] == d;
        assert((prev + row)[prev.len() + k] == d);
    } else {
        lemma_window_holds_cell(map, cam, theme, f, y_end - 1, x, y, d);
        let k = choose|k: int| 0 <= k < prev.len() && prev[k] == d;
        assert((prev + row)[k] == d);
    }
}

/// How `map_render` tints a tile of its window that lies on the grid: yellow when a light
/// shows it (and the player sees it, has seen it or has seen it from afar), otherwise white
/// when the player has seen it and sees it now, dark gray when the player has seen it but
/// does not see it now. The draw is at the tile's place relative to the camera, in the
/// theme's cell for the tile's type.
pub proof fn law_map_render_tints(
    map: DungeonMap,
    cam: Camera,
    theme: Theme,
    f: FieldsOfView,
    x: int,
    y: int,
)
    requires
        in_grid(x, y),
        cam.top_y <= y <= cam.bottom_y,
        cam.left_x <= x < cam.right_x,
    ensures
        ({
            let p = Point { x: x as i32, y: y as i32 };
            let seen = tile_at(map.revealed_tiles@, x, y);
            let seen_afar = tile_at(map.far_revealed_tiles@, x, y);
            let in_view = f.player@.contains(p);
            let shown = (exists|l: int|
                0 <= l < f.lights@.len() && (#[trigger] f.lights@[l])@.contains(p))
                && f.player_far@.contains(p);
            let drawn = window_draws(map, cam, theme, f, cam.bottom_y + 1);
            let draw = |t: Tint|
                TileDraw {
                    screen: Point {
                        x: ((x - cam.left_x) * TILE_SIZE) as i32,
                        y: ((y - cam.top_y) * TILE_SIZE) as i32,
                    },
                    tile: theme.theme_tile(tile_at(map.tiles@, x, y)),
                    tint: t,
                };
            &&& shown && (in_view || seen || seen_afar) ==> drawn.contains(draw(Tint::Yellow))
            &&& !shown && seen && in_view ==> drawn.contains(draw(Tint::White))
            &&& !shown && seen && !in_view ==> drawn.contains(draw(Tint::DarkGray))
        }),
{
    let p = Point { x: x as i32, y: y as i32 };
    let cell = cell_draws(map, cam, theme, f, x, y);
    if tile_tint(map, f, x, y) is Some {
        let d = cell[0];
        assert(cell.contains(d));
        lemma_window_holds_cell(map, cam, theme, f, cam.bottom_y + 1, x, y, d);
    }
}

} // verus!
