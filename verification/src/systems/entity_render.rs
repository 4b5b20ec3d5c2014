use vstd::prelude::*;

use crate::camera::Camera;
use crate::game::TILE_SIZE;
use crate::geometry::{fits_i32, Point};
use crate::spawner::Health;
use crate::systems::map_render::{contains_point, light_shows, lit, screen_of, FieldsOfView, Tint};

verus! {

/// An entity that can be drawn: where it stands, its glyph, and its hit points (current and
/// maximum) when it has any.
#[derive(Clone, Copy, Debug, PartialEq, Eq, Structural)]
pub struct Renderable {
    pub pos: Point,
    pub glyph: u16,
    pub health: Option<Health>,
}

/// A sprite to draw: where on screen, which glyph, which tint.
#[derive(Clone, Copy, Debug, PartialEq, Eq, Structural)]
pub struct SpriteDraw {
    pub screen: Point,
    pub glyph: u16,
    pub tint: Tint,
}

/// Whether the player sees an entity standing at `p`: in the player's field of view, or in
/// the far field of view where a light shows it.
pub open spec fn entity_visible(f: FieldsOfView, p: Point) -> bool {
    f.player@.contains(p) || (f.player_far@.contains(p) && lit(f, p))
}

/// Whether hit points are below their maximum.
pub open spec fn is_damaged(health: Health) -> bool {
    health.current < health.max
}

/// The tint of a sprite: red for a damaged entity, white otherwise.
pub open spec fn sprite_tint(health: Option<Health>) -> Tint {
    match health {
        Some(h) => if is_damaged(h) {
            Tint::Red
        } else {
            Tint::White
        },
        None => Tint::White,
    }
}

/// The sprites of the visible entities among the first `n`, in order.
pub open spec fn sprite_draws(cam: Camera, f: FieldsOfView, items: Seq<Renderable>, n: int) -> Seq<
    SpriteDraw,
>
    decreases n,
{
    if n <= 0 {
        seq![]
    } else {
        let prev = sprite_draws(cam, f, items, n - 1);
        let e = items[n - 1];
        if entity_visible(f, e.pos) {
            prev.push(
                SpriteDraw {
                    screen: screen_of(cam, e.pos.x as int, e.pos.y as int),
                    glyph: e.glyph,
                    tint: sprite_tint(e.health),
                },
            )
        } else {
            prev
        }
    }
}

/// Whether the screen position of `p` fits in an `i32`.
pub open spec fn sprite_drawable(cam: Camera, p: Point) -> bool {
    &&& fits_i32(p.x - cam.left_x)
    &&& fits_i32(p.y - cam.top_y)
    &&& fits_i32((p.x - cam.left_x) * TILE_SIZE)
    &&& fits_i32((p.y - cam.top_y) * TILE_SIZE)
}

/// Whether the screen position of `p` fits in an `i32` (see `sprite_drawable`).
pub fn sprite_drawable_exec(camera: &Camera, p: Point) -> (r: bool)
    ensures
        r == sprite_drawable(*camera, p),
{
    let dx: i64 = p.x as i64 - camera.left_x as i64;
    let dy: i64 = p.y as i64 - camera.top_y as i64;
    let lo: i64 = -2147483648;
    let hi: i64 = 2147483647;
    lo <= dx && dx <= hi && lo <= dy && dy <= hi && lo <= dx * 32 && dx * 32 <= hi && lo <= dy * 32
        && dy * 32 <= hi
}

/// The entity drawing system: the sprite of every entity that the player sees, in order.
pub fn entity_render(camera: &Camera, fovs: &FieldsOfView, renderables: &Vec<Renderable>) -> (r: Vec<
    SpriteDraw,
>)
    requires
        forall|k: int|
            0 <= k < renderables@.len() ==> sprite_drawable(*camera, (#[trigger] renderables@[k]).pos),
    ensures
        r@ == sprite_draws(*camera, *fovs, renderables@, renderables@.len() as int),
{
    let offset = Point::new(camera.left_x, camera.top_y);
    let mut draws: Vec<SpriteDraw> = Vec::new();
    for k in 0..renderables.len()
        invariant
            offset.x == camera.left_x && offset.y == camera.top_y,
            forall|j: int|
                0 <= j < renderables@.len() ==> sprite_drawable(
                    *camera,
                    (#[trigger] renderables@[j]).pos,
                ),
            draws@ == sprite_draws(*camera, *fovs, renderables@, k as int),
    {
        let e = renderables[k];
        let visible = contains_point(&fovs.player, e.pos) || (contains_point(
            &fovs.player_far,
            e.pos,
        ) && light_shows(fovs, e.pos));
        if visible {
            let tint = match e.health {
                Some(h) => if h.current < h.max {
                    Tint::Red
                } else {
                    Tint::White
                },
                None => Tint::White,
            };
            let screen = e.pos.relative_to(offset).scaled(TILE_SIZE);
            draws.push(SpriteDraw { screen, glyph: e.glyph, tint });
        }
    }
    draws
}

/// The sprite that `entity_render` draws for an entity: at its place relative to the camera,
/// with its glyph, red when it has hit points below their maximum and white otherwise.
pub open spec fn expected_sprite(cam: Camera, e: Renderable) -> SpriteDraw {
    SpriteDraw {
        screen: Point {
            x: ((e.pos.x - cam.left_x) * TILE_SIZE) as i32,
            y: ((e.pos.y - cam.top_y) * TILE_SIZE) as i32,
        },
        glyph: e.glyph,
        tint: if e.health matches Some(h) && h.current < h.max {
            Tint::Red
        } else {
            Tint::White
        },
    }
}

/// `entity_render` draws every entity that the player sees, tinted red exactly when its hit
/// points are below their maximum, and draws nothing else: each sprite drawn is that of an
/// entity the player sees.
pub proof fn law_entity_render_tints(cam: Camera, f: FieldsOfView, items: Seq<Renderable>, n: int)
    requires
        0 <= n <= items.len(),
    ensures
        forall|j: int|
            0 <= j < n && entity_visible(f, (#[trigger] items[j]).pos) ==> sprite_draws(
                cam,
                f,
                items,
                n,
            ).contains(expected_sprite(cam, items[j])),
        forall|k: int|
            0 <= k < sprite_draws(cam, f, items, n).len() ==> exists|j: int|
                0 <= j < n && entity_visible(f, items[j].pos) && #[trigger] sprite_draws(
                    cam,
                    f,
                    items,
                    n,
                )[k] == expected_sprite(cam, items[j]),
    decreases n,
{
    if n > 0 {
        law_entity_render_tints(cam, f, items, n - 1);
        let prev = sprite_draws(cam, f, items, n - 1);
        let cur = sprite_draws(cam, f, items, n);
        let e = items[n - 1];
        if entity_visible(f, e.pos) {
            assert(cur == prev.push(expected_sprite(cam, e)));
            assert forall|j: int| 0 <= j < n && entity_visible(f, (#[trigger] items[j]).pos) implies cur.contains(
                expected_sprite(cam, items[j]),
            ) by {
                if j < n - 1 {
                    let k = choose|k: int| 0 <= k < prev.len() && prev[k] == expected_sprite(cam, items[j]);
                    assert(cur[k] == prev[k]);
                } else {
                    assert(cur[prev.len() as int] == expected_sprite(cam, items[j]));
                }
            }
            assert forall|k: int| 0 <= k < cur.len() implies exists|j: int|
                0 <= j < n && entity_visible(f, items[j].pos) && #[trigger] cur[k]
                    == expected_sprite(cam, items[j]) by {
                if k < prev.len() {
                    assert(cur[k] == prev[k]);
                    let j = choose|j: int|
                        0 <= j < n - 1 && entity_visible(f, items[j].pos) && #[trigger] prev[k]
                            == expected_sprite(cam, items[j]);
                    assert(cur[k] == expected_sprite(cam, items[j]));
                } else {
                    assert(cur[k] == expected_sprite(cam, items[n - 1]));
                }
            }
        } else {
            assert(cur == prev);
        }
    }
}

} // verus!
