use rogue::camera::Camera;
use rogue::game::{
    advance_level, held_key, place_exit, restart_requested, state_tick, window_size, TickAction,
};
use rogue::geometry::Point;
use rogue::map::{map_idx, DungeonMap, TileType};
use rogue::systems::player_inputs::Key;
use rogue::turn_state::TurnState;

#[test]
fn each_turn_state_runs_its_action() {
    assert_eq!(state_tick(TurnState::AwaitingInput), TickAction::RunInputSystems);
    assert_eq!(state_tick(TurnState::PlayerTurn), TickAction::RunPlayerSystems);
    assert_eq!(state_tick(TurnState::MonsterTurn), TickAction::RunMonsterSystems);
    assert_eq!(state_tick(TurnState::GameOver), TickAction::ShowGameOver);
    assert_eq!(state_tick(TurnState::Victory), TickAction::ShowVictory);
    assert_eq!(state_tick(TurnState::NextLevel), TickAction::AdvanceLevel);
}

#[test]
fn only_r_restarts() {
    assert!(restart_requested(Some(Key::R)));
    assert!(!restart_requested(Some(Key::G)));
    assert!(!restart_requested(None));
}

#[test]
fn held_key_follows_presses_and_releases() {
    assert_eq!(held_key(Some(Key::Up), None, false), Some(Key::Up));
    assert_eq!(held_key(Some(Key::Up), Some(Key::Down), true), Some(Key::Up));
    assert_eq!(held_key(None, Some(Key::Down), false), Some(Key::Down));
    assert_eq!(held_key(None, Some(Key::Down), true), None);
    assert_eq!(held_key(None, None, true), None);
}

#[test]
fn exit_is_placed_on_one_tile() {
    let mut map = DungeonMap::new();
    place_exit(&mut map, Point::new(7, 3));
    assert_eq!(map.tiles[map_idx(7, 3)], TileType::Exit);
    assert_eq!(map.tiles.iter().filter(|t| **t == TileType::Exit).count(), 1);
}

#[test]
fn level_change_keeps_the_player_and_the_inventory() {
    let change = advance_level(
        &vec![true, false, false, false],
        &vec![false, true, false, false],
        0,
    );
    assert_eq!(change.keep, vec![true, true, false, false]);
    assert_eq!(change.map_level, 1);
    assert!(!change.spawn_amulet);
    let last = advance_level(&vec![true], &vec![false], 1);
    assert_eq!(last.map_level, 2);
    assert!(last.spawn_amulet);
    assert!(!advance_level(&vec![], &vec![], 2).spawn_amulet);
}

#[test]
fn window_is_the_display_in_pixels() {
    assert_eq!(window_size(), (1280, 800));
}

#[test]
fn camera_centers_on_the_player() {
    let c = Camera::new(Point::new(40, 25));
    assert_eq!(c, Camera { left_x: 20, right_x: 60, top_y: 13, bottom_y: 37 });
    let mut c = c;
    c.on_player_move(Point::new(0, 0));
    assert_eq!(c, Camera { left_x: -20, right_x: 20, top_y: -12, bottom_y: 12 });
}
