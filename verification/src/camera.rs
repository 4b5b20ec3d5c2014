use vstd::prelude::*;

use crate::geometry::{fits_i32, Point, DISPLAY_HEIGHT, DISPLAY_WIDTH};

verus! {

/// The part of the dungeon shown on screen: columns `left_x` to `right_x` (excluded) and
/// rows `top_y` to `bottom_y` (included).
#[derive(Clone, Copy, Debug, PartialEq, Eq, Structural)]
pub struct Camera {
    pub left_x: i32,
    pub right_x: i32,
    pub top_y: i32,
    pub bottom_y: i32,
}

/// Whether the camera is centered on `p`.
pub open spec fn centered_on(c: Camera, p: Point) -> bool {
    &&& c.left_x == p.x - DISPLAY_WIDTH / 2
    &&& c.right_x == p.x + DISPLAY_WIDTH / 2
    &&& c.top_y == p.y - DISPLAY_HEIGHT / 2
    &&& c.bottom_y == p.y + DISPLAY_HEIGHT / 2
}

/// Whether the player's position leaves room for the camera's edges in an `i32`.
pub open spec fn camera_fits(p: Point) -> bool {
    &&& fits_i32(p.x - DISPLAY_WIDTH / 2)
    &&& fits_i32(p.x + DISPLAY_WIDTH / 2)
    &&& fits_i32(p.y - DISPLAY_HEIGHT / 2)
    &&& fits_i32(p.y + DISPLAY_HEIGHT / 2)
}

/// Whether the player's position leaves room for the camera's edges (see `camera_fits`).
pub fn camera_fits_exec(p: Point) -> (r: bool)
    ensures
        r == camera_fits(p),
{
    let x: i64 = p.x as i64;
    let y: i64 = p.y as i64;
    let lo: i64 = -2147483648;
    let hi: i64 = 2147483647;
    lo <= x - 20 && x + 20 <= hi && lo <= y - 12 && y + 12 <= hi
}

impl Camera {
    /// The camera centered on the player.
    pub fn new(player_position: Point) -> (r: Camera)
        requires
            camera_fits(player_position),
        ensures
            centered_on(r, player_position),
    {
        Camera {
            left_x: player_position.x - DISPLAY_WIDTH / 2,
            right_x: player_position.x + DISPLAY_WIDTH / 2,
            top_y: player_position.y - DISPLAY_HEIGHT / 2,
            bottom_y: player_position.y + DISPLAY_HEIGHT / 2,
        }
    }

    /// Recenters the camera on the player.
    pub fn on_player_move(&mut self, player_position: Point)
        requires
            camera_fits(player_position),
        ensures
            centered_on(*final(self), player_position),
    {
        self.left_x = player_position.x - DISPLAY_WIDTH / 2;
        self.right_x = player_position.x + DISPLAY_WIDTH / 2;
        self.top_y = player_position.y - DISPLAY_HEIGHT / 2;
        self.bottom_y = player_position.y + DISPLAY_HEIGHT / 2;
    }
}

} // verus!
