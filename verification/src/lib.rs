//! Map generation and game rules of a tile-based dungeon crawler.
pub mod geometry;
pub mod map;
pub mod map_builder;
pub mod random;
pub mod spawner;
pub mod camera;
pub mod game;
pub mod systems;
pub mod turn_state;
