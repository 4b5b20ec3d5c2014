# rogue

A tile-based dungeon crawler. The library in `src/` holds the game's rules and is
verified with Verus; `app/` holds the window, the entity world and the drawing.

## Layout

- `src/geometry.rs`, `src/map.rs`: points, rectangles, the 80 x 50 tile grid and its
  row-major indexing.
- `src/map_builder/`: level generation. `rooms.rs` places non-overlapping rooms and joins
  them with L-shaped corridors; `mod.rs` places lanterns, monsters and the amulet;
  `paths.rs` proves that every floor tile of a generated level can be walked to from the
  player's start; `themes.rs` maps tile types to tile-sheet cells.
- `src/spawner.rs`: the components of each kind of entity, and the dice tables that choose
  monsters and items.
- `src/systems/`: the schedules of systems, the input system's decisions, and what the map,
  entity and inventory displays draw.
- `src/game.rs`, `src/camera.rs`, `src/turn_state.rs`: the turn loop's decisions, the
  change of level, and the camera.
- `src/random.rs`: the random number generator of bracket-lib, behind specified wrappers.

The app runs the schedules on a legion world, draws with macroquad, and computes walking
distances with bracket-lib's Dijkstra maps.
