use rogue::camera::Camera;
use rogue::geometry::Point;
use rogue::map::{map_idx, DungeonMap, TileType};
use rogue::map_builder::{DungeonTheme, MyTile};
use rogue::spawner::Health;
use rogue::systems::entity_render::{entity_render, Renderable, SpriteDraw};
use rogue::systems::hud::{hud, HudItemLine};
use rogue::systems::map_render::{map_render, FieldsOfView, TileDraw, Tint};
use rogue::systems::player_inputs::{
    key_step_fits, player_inputs, use_item, GroundItem, InputCommand, InputWorld, Key,
};
use rogue::systems::{
    build_input_scheduler, build_monster_scheduler, build_player_scheduler, ScheduleStep,
    SystemKind,
};
use rogue::turn_state::TurnState;

#[test]
fn schedules() {
    assert_eq!(
        build_input_scheduler(),
        vec![ScheduleStep::Run(SystemKind::PlayerInputs), ScheduleStep::Run(SystemKind::Fov), ScheduleStep::Flush, ScheduleStep::Run(SystemKind::MapRender), ScheduleStep::Run(SystemKind::EntityRender), ScheduleStep::Run(SystemKind::Hud), ScheduleStep::Run(SystemKind::Tooltips)]
    );
    assert_eq!(
        build_player_scheduler(),
        vec![
            ScheduleStep::Run(SystemKind::UseItems), ScheduleStep::Run(SystemKind::Combat), ScheduleStep::Flush, ScheduleStep::Run(SystemKind::Movement), ScheduleStep::Flush, ScheduleStep::Run(SystemKind::Fov), ScheduleStep::Flush,
            ScheduleStep::Run(SystemKind::MapRender), ScheduleStep::Run(SystemKind::EntityRender), ScheduleStep::Run(SystemKind::Hud), ScheduleStep::Run(SystemKind::EndTurn)
        ]
    );
    assert_eq!(
        build_monster_scheduler(),
        vec![
            ScheduleStep::Run(SystemKind::RandomMove), ScheduleStep::Run(SystemKind::Chasing), ScheduleStep::Flush, ScheduleStep::Run(SystemKind::UseItems), ScheduleStep::Run(SystemKind::Combat), ScheduleStep::Flush,
            ScheduleStep::Run(SystemKind::Movement), ScheduleStep::Flush, ScheduleStep::Run(SystemKind::Fov), ScheduleStep::Flush, ScheduleStep::Run(SystemKind::MapRender), ScheduleStep::Run(SystemKind::EntityRender), ScheduleStep::Run(SystemKind::Hud),
            ScheduleStep::Run(SystemKind::EndTurn)
        ]
    );
}

fn world() -> InputWorld {
    InputWorld {
        player_pos: Point::new(10, 10),
        enemies: vec![Point::new(11, 10), Point::new(30, 30), Point::new(11, 10)],
        ground_items: vec![
            GroundItem { pos: Point::new(10, 10), is_weapon: false },
            GroundItem { pos: Point::new(12, 10), is_weapon: true },
            GroundItem { pos: Point::new(10, 10), is_weapon: true },
        ],
        carried_items: vec![false, true, true, false, true],
        carried_weapons: vec![true, false, true],
    }
}

#[test]
fn no_key_does_nothing() {
    let mut turn = TurnState::AwaitingInput;
    assert!(player_inputs(None, &world(), &mut turn).is_empty());
    assert_eq!(turn, TurnState::AwaitingInput);
}

#[test]
fn stepping_onto_enemies_attacks_them() {
    let mut turn = TurnState::AwaitingInput;
    let commands = player_inputs(Some(Key::Right), &world(), &mut turn);
    assert_eq!(commands, vec![InputCommand::Attack(0), InputCommand::Attack(2)]);
    assert_eq!(turn, TurnState::PlayerTurn);
}

#[test]
fn stepping_onto_free_tiles_moves() {
    let w = world();
    let cases = [
        (Key::Left, Point::new(9, 10)),
        (Key::Up, Point::new(10, 9)),
        (Key::Down, Point::new(10, 11)),
    ];
    for (key, dest) in cases.iter() {
        let mut turn = TurnState::MonsterTurn;
        assert_eq!(player_inputs(Some(*key), &w, &mut turn), vec![InputCommand::MoveTo(*dest)]);
        assert_eq!(turn, TurnState::PlayerTurn);
    }
}

#[test]
fn picking_up_a_weapon_drops_the_carried_ones() {
    let mut turn = TurnState::AwaitingInput;
    let commands = player_inputs(Some(Key::G), &world(), &mut turn);
    assert_eq!(
        commands,
        vec![
            InputCommand::PickUp(0),
            InputCommand::PickUp(2),
            InputCommand::RemoveWeapon(0),
            InputCommand::RemoveWeapon(2),
        ]
    );
    assert_eq!(turn, TurnState::PlayerTurn);
}

#[test]
fn function_keys_use_inventory_slots() {
    let w = world();
    let mut turn = TurnState::AwaitingInput;
    assert_eq!(player_inputs(Some(Key::F1), &w, &mut turn), vec![InputCommand::Activate(1)]);
    assert_eq!(player_inputs(Some(Key::F3), &w, &mut turn), vec![InputCommand::Activate(4)]);
    assert!(player_inputs(Some(Key::F4), &w, &mut turn).is_empty());
    assert!(player_inputs(Some(Key::Other), &w, &mut turn).is_empty());
    assert_eq!(turn, TurnState::PlayerTurn);
    assert_eq!(use_item(1, &w.carried_items), Some(2));
    assert_eq!(use_item(3, &w.carried_items), None);
}

fn fovs() -> FieldsOfView {
    FieldsOfView {
        player: vec![Point::new(2, 1)],
        player_far: vec![Point::new(2, 1), Point::new(3, 1), Point::new(1, 1)],
        lights: vec![vec![Point::new(3, 1)], vec![Point::new(0, 0)]],
    }
}

#[test]
fn map_render_draws_seen_tiles() {
    let mut map = DungeonMap::new();
    map.tiles[map_idx(1, 1)] = TileType::Wall;
    map.revealed_tiles[map_idx(1, 1)] = true;
    map.far_revealed_tiles[map_idx(3, 1)] = true;
    map.far_revealed_tiles[map_idx(0, 0)] = true;
    let camera = Camera { left_x: -1, right_x: 4, top_y: 0, bottom_y: 1 };
    let draws = map_render(&mut map, &camera, &DungeonTheme::build(), &fovs());
    assert_eq!(
        draws,
        vec![
            TileDraw { screen: Point::new(64, 32), tile: MyTile { x: 4, y: 3 }, tint: Tint::DarkGray },
            TileDraw { screen: Point::new(128, 32), tile: MyTile { x: 15, y: 3 }, tint: Tint::Yellow },
        ]
    );
    assert!(map.revealed_tiles[map_idx(3, 1)]);
    assert!(map.revealed_tiles[map_idx(1, 1)]);
    assert!(!map.revealed_tiles[map_idx(2, 1)]);
    assert!(!map.revealed_tiles[map_idx(0, 0)]);
    assert_eq!(map.revealed_tiles.iter().filter(|r| **r).count(), 2);
}

#[test]
fn entity_render_draws_visible_entities() {
    let camera = Camera { left_x: 0, right_x: 40, top_y: 0, bottom_y: 25 };
    let renderables = vec![
        Renderable { pos: Point::new(2, 1), glyph: 64, health: Some(Health { current: 10, max: 10 }) },
        Renderable { pos: Point::new(3, 1), glyph: 103, health: Some(Health { current: 1, max: 2 }) },
        Renderable { pos: Point::new(1, 1), glyph: 79, health: None },
        Renderable { pos: Point::new(9, 9), glyph: 115, health: None },
    ];
    let draws = entity_render(&camera, &fovs(), &renderables);
    assert_eq!(
        draws,
        vec![
            SpriteDraw { screen: Point::new(64, 32), glyph: 64, tint: Tint::White },
            SpriteDraw { screen: Point::new(96, 32), glyph: 103, tint: Tint::Red },
        ]
    );
}

#[test]
fn hud_lists_the_players_items() {
    let layout = hud(&vec![true, false, true]);
    assert_eq!(
        layout.lines,
        vec![
            HudItemLine { item: 0, y: 80, label: 60 },
            HudItemLine { item: 2, y: 90, label: 70 },
        ]
    );
    assert!(layout.show_header);
    let empty = hud(&vec![false, false]);
    assert!(empty.lines.is_empty());
    assert!(!empty.show_header);
}

#[test]
fn hud_lists_items_carried_by_others_without_a_line() {
    let carried = vec![false; 50_000];
    let layout = hud(&carried);
    assert!(layout.lines.is_empty());
    assert!(!layout.show_header);
}

#[test]
fn key_step_fits_at_the_edge_of_the_range() {
    let edge = Point::new(i32::MAX, i32::MIN);
    assert!(!key_step_fits(edge, Key::Right));
    assert!(key_step_fits(edge, Key::Left));
    assert!(!key_step_fits(edge, Key::Up));
    assert!(key_step_fits(edge, Key::Down));
    assert!(key_step_fits(edge, Key::G));
    let mut turn = TurnState::AwaitingInput;
    let w = InputWorld {
        player_pos: edge,
        enemies: vec![],
        ground_items: vec![],
        carried_items: vec![],
        carried_weapons: vec![],
    };
    assert_eq!(player_inputs(Some(Key::Left), &w, &mut turn), vec![InputCommand::MoveTo(Point::new(i32::MAX - 1, i32::MIN))]);
    assert!(player_inputs(Some(Key::G), &w, &mut turn).is_empty());
    assert_eq!(turn, TurnState::PlayerTurn);
}
