use vstd::prelude::*;

use crate::map::TileType;

verus! {

/// A cell of the tile sheet: its column and its row.
#[derive(Clone, Copy, Debug, PartialEq, Eq, Structural)]
pub struct MyTile {
    pub x: u32,
    pub y: u32,
}

/// The cell of the tile sheet, sixteen cells to a row, that draws `glyph`: its column is the
/// glyph's code modulo sixteen and its row the code divided by sixteen.
pub fn glyph_tile(glyph: u16) -> (r: MyTile)
    ensures
        r.x == glyph % 16,
        r.y == glyph / 16,
{
    MyTile { x: (glyph % 16) as u32, y: (glyph / 16) as u32 }
}

/// The theme that a coin toss picks: dungeon on 0, forest otherwise.
pub fn theme_for_coin(coin: i32) -> (r: Theme)
    ensures
        r == if coin == 0 {
            Theme::Dungeon(DungeonTheme {})
        } else {
            Theme::Forest(ForestTheme {})
        },
{
    if coin == 0 {
        DungeonTheme::build()
    } else {
        ForestTheme::build()
    }
}

/// How a theme draws each type of tile.
pub trait MapTheme: Sync + Send {
    /// The sheet cell that the theme draws for a tile type.
    spec fn theme_tile(&self, tile_type: TileType) -> MyTile;

    fn tile_to_render(&self, tile_type: TileType) -> (r: MyTile)
        ensures
            r == self.theme_tile(tile_type),
    ;
}

/// Stone walls and flagstones.
#[derive(Clone, Copy, Debug, PartialEq, Eq, Structural)]
pub struct DungeonTheme {}

/// Trees and grass.
#[derive(Clone, Copy, Debug, PartialEq, Eq, Structural)]
pub struct ForestTheme {}

/// The theme a map is drawn with.
#[derive(Clone, Copy, Debug, PartialEq, Eq, Structural)]
pub enum Theme {
    Dungeon(DungeonTheme),
    Forest(ForestTheme),
}

pub open spec fn dungeon_tile(tile_type: TileType) -> MyTile {
    match tile_type {
        TileType::Floor => MyTile { x: 15, y: 3 },
        TileType::Wall => MyTile { x: 4, y: 3 },
        TileType::Exit => MyTile { x: 15, y: 4 },
    }
}

pub open spec fn forest_tile(tile_type: TileType) -> MyTile {
    match tile_type {
        TileType::Floor => MyTile { x: 12, y: 4 },
        TileType::Wall => MyTile { x: 1, y: 2 },
        TileType::Exit => MyTile { x: 15, y: 4 },
    }
}

impl DungeonTheme {
    pub fn build() -> (r: Theme)
        ensures
            r == Theme::Dungeon(DungeonTheme {}),
    {
        Theme::Dungeon(DungeonTheme {})
    }
}

impl ForestTheme {
    pub fn build() -> (r: Theme)
        ensures
            r == Theme::Forest(ForestTheme {}),
    {
        Theme::Forest(ForestTheme {})
    }
}

impl MapTheme for DungeonTheme {
    open spec fn theme_tile(&self, tile_type: TileType) -> MyTile {
        dungeon_tile(tile_type)
    }

    fn tile_to_render(&self, tile_type: TileType) -> (r: MyTile) {
        match tile_type {
            TileType::Floor => MyTile { x: 15, y: 3 },
            TileType::Wall => MyTile { x: 4, y: 3 },
            TileType::Exit => MyTile { x: 15, y: 4 },
        }
    }
}

impl MapTheme for ForestTheme {
    open spec fn theme_tile(&self, tile_type: TileType) -> MyTile {
        forest_tile(tile_type)
    }

    fn tile_to_render(&self, tile_type: TileType) -> (r: MyTile) {
        match tile_type {
            TileType::Floor => MyTile { x: 12, y: 4 },
            TileType::Wall => MyTile { x: 1, y: 2 },
            TileType::Exit => MyTile { x: 15, y: 4 },
        }
    }
}

impl MapTheme for Theme {
    open spec fn theme_tile(&self, tile_type: TileType) -> MyTile {
        match self {
            Theme::Dungeon(_) => dungeon_tile(tile_type),
            Theme::Forest(_) => forest_tile(tile_type),
        }
    }

    fn tile_to_render(&self, tile_type: TileType) -> (r: MyTile) {
        match self {
            Theme::Dungeon(t) => t.tile_to_render(tile_type),
            Theme::Forest(t) => t.tile_to_render(tile_type),
        }
    }
}

} // verus!
