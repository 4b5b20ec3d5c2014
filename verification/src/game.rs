use vstd::prelude::*;

use crate::geometry::{Point, DISPLAY_HEIGHT, DISPLAY_WIDTH};
use crate::map::{idx_of, in_grid, DungeonMap, TileType};
use crate::systems::player_inputs::Key;
use crate::turn_state::TurnState;

verus! {

/// Side of a tile on screen, in pixels.
pub const TILE_SIZE: i32 = 32;

/// The map level on which the Amulet of Yala lies instead of an exit.
pub const AMULET_LEVEL: u32 = 2;

/// What one frame of the game does.
#[derive(Clone, Copy, Debug, PartialEq, Eq, Structural)]
pub enum TickAction {
    RunInputSystems,
    RunPlayerSystems,
    RunMonsterSystems,
    ShowGameOver,
    ShowVictory,
    AdvanceLevel,
}

/// What a frame does in each turn state.
pub open spec fn tick_action(state: TurnState) -> TickAction {
    match state {
        TurnState::AwaitingInput => TickAction::RunInputSystems,
        TurnState::PlayerTurn => TickAction::RunPlayerSystems,
        TurnState::MonsterTurn => TickAction::RunMonsterSystems,
        TurnState::GameOver => TickAction::ShowGameOver,
        TurnState::Victory => TickAction::ShowVictory,
        TurnState::NextLevel => TickAction::AdvanceLevel,
    }
}

/// The action of a frame in the current turn state.
pub fn state_tick(current_state: TurnState) -> (r: TickAction)
    ensures
        r == tick_action(current_state),
{
    match current_state {
        TurnState::AwaitingInput => TickAction::RunInputSystems,
        TurnState::PlayerTurn => TickAction::RunPlayerSystems,
        TurnState::MonsterTurn => TickAction::RunMonsterSystems,
        TurnState::GameOver => TickAction::ShowGameOver,
        TurnState::Victory => TickAction::ShowVictory,
        TurnState::NextLevel => TickAction::AdvanceLevel,
    }
}

/// Whether the game-over and victory screens start a new game: when R was the last key
/// pressed.
pub fn restart_requested(last_key: Option<Key>) -> (r: bool)
    ensures
        r == (last_key == Some(Key::R)),
{
    match last_key {
        Some(Key::R) => true,
        _ => false,
    }
}

/// The key held for the systems after a frame: a newly pressed key replaces it; otherwise it
/// is dropped once released, and kept while held.
pub fn held_key(pressed: Option<Key>, held: Option<Key>, held_released: bool) -> (r: Option<Key>)
    ensures
        pressed is Some ==> r == pressed,
        pressed is None ==> r == (if held is Some && held_released {
            None
        } else {
            held
        }),
{
    if pressed.is_some() {
        pressed
    } else if held.is_some() && held_released {
        None
    } else {
        held
    }
}

/// Turns the tile at `pos` into the exit of the level.
pub fn place_exit(map: &mut DungeonMap, pos: Point)
    requires
        old(map).wf(),
        in_grid(pos.x as int, pos.y as int),
    ensures
        final(map).wf(),
        final(map).tiles@ == old(map).tiles@.update(idx_of(pos.x as int, pos.y as int), TileType::Exit),
        final(map).revealed_tiles == old(map).revealed_tiles,
        final(map).far_revealed_tiles == old(map).far_revealed_tiles,
{
    proof {
        crate::map::lemma_idx_in_range(pos.x as int, pos.y as int);
    }
    let exit_idx = map.point2d_to_index(pos);
    map.tiles.set(exit_idx, TileType::Exit);
}

/// What changes when the player takes the exit to the next level.
pub struct LevelChange {
    /// For each entity, whether it moves on to the new level.
    pub keep: Vec<bool>,
    /// The player's new map level.
    pub map_level: u32,
    /// Whether the amulet lies on the new level (otherwise an exit does).
    pub spawn_amulet: bool,
}

/// The change of level. For each entity (in the world's order), `is_player` says whether it
/// is the player and `carried_by_player` whether the player carries it: those two kinds of
/// entity move on, the others are removed. The player's map level goes up by one; on level
/// `AMULET_LEVEL` the amulet is placed, on the other levels an exit.
pub fn advance_level(is_player: &Vec<bool>, carried_by_player: &Vec<bool>, player_level: u32) -> (r:
    LevelChange)
    requires
        is_player@.len() == carried_by_player@.len(),
        player_level < u32::MAX,
    ensures
        r.keep@.len() == is_player@.len(),
        forall|k: int|
            0 <= k < r.keep@.len() ==> #[trigger] r.keep@[k] == (is_player@[k]
                || carried_by_player@[k]),
        r.map_level == player_level + 1,
        r.spawn_amulet == (player_level + 1 == AMULET_LEVEL),
{
    let mut keep: Vec<bool> = Vec::new();
    for k in 0..is_player.len()
        invariant
            is_player@.len() == carried_by_player@.len(),
            keep@.len() == k,
            forall|j: int|
                0 <= j < k ==> #[trigger] keep@[j] == (is_player@[j] || carried_by_player@[j]),
    {
        keep.push(is_player[k] || carried_by_player[k]);
    }
    let map_level = player_level + 1;
    LevelChange { keep, map_level, spawn_amulet: map_level == AMULET_LEVEL }
}

/// Width and height of the window, in pixels: the displayed tiles at `TILE_SIZE` each.
pub fn window_size() -> (r: (i32, i32))
    ensures
        r.0 == DISPLAY_WIDTH * TILE_SIZE,
        r.1 == DISPLAY_HEIGHT * TILE_SIZE,
{
    (DISPLAY_WIDTH * TILE_SIZE, DISPLAY_HEIGHT * TILE_SIZE)
}

} // verus!
