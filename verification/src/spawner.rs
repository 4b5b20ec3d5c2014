use vstd::prelude::*;

use bracket_lib::prelude::RandomNumberGenerator;

use crate::geometry::Point;
use crate::random::roll_dice;

verus! {

/// The code page 437 glyph of a character, as bracket-lib's `to_cp437` table gives it.
pub uninterp spec fn cp437_code(c: char) -> u16;

/// bracket-lib's `to_cp437`: the code page 437 glyph of a character. Its table maps each
/// printable ASCII character (space to `~`) to its own code; the other characters are named
/// by `cp437_code`, which says nothing more of them.
#[verifier::external_body]
fn to_cp437(c: char) -> (r: u16)
    ensures
        r == cp437_code(c),
        ' ' <= c <= '~' ==> r == c as u16,
{
    bracket_lib::prelude::to_cp437(c)
}

/// The colors that spawned entities are drawn with.
#[derive(Clone, Copy, Debug, PartialEq, Eq, Structural)]
pub enum ColorName {
    White,
    Black,
    Yellow,
    LightYellow,
}

/// Hit points: current and maximum.
#[derive(Clone, Copy, Debug, PartialEq, Eq, Structural)]
pub struct Health {
    pub current: i32,
    pub max: i32,
}

/// The two monsters of the dungeon.
#[derive(Clone, Copy, Debug, PartialEq, Eq, Structural)]
pub enum MonsterKind {
    Goblin,
    Orc,
}

/// What an entity is.
#[derive(Clone, Copy, Debug, PartialEq, Eq, Structural)]
pub enum EntityKind {
    Player,
    Monster(MonsterKind),
    AmuletOfYala,
    HealingPotion,
    MagicMap,
    Lantern,
}

/// An entity to create, with the values of its components.
pub struct Blueprint {
    pub kind: EntityKind,
    pub pos: Point,
    /// Glyph and foreground / background colors it is drawn with.
    pub glyph: u16,
    pub fg: ColorName,
    pub bg: ColorName,
    /// Hit points, current and maximum.
    pub health: Option<Health>,
    pub name: Option<String>,
    /// Radius of its field of view, and of its far field of view.
    pub fov_radius: Option<i32>,
    pub big_fov_radius: Option<i32>,
    /// Damage it deals, hit points it restores, color of the light it sheds.
    pub damage: Option<i32>,
    pub healing: Option<i32>,
    pub light: Option<(ColorName, ColorName)>,
}

/// Whether `name` is the component name `s`.
pub open spec fn named(name: Option<String>, s: Seq<char>) -> bool {
    name matches Some(n) && n@ == s
}

/// The glyph character an entity of `kind` is drawn with.
pub open spec fn glyph_char(kind: EntityKind) -> char {
    match kind {
        EntityKind::Player => '@',
        EntityKind::Monster(MonsterKind::Goblin) => 'g',
        EntityKind::Monster(MonsterKind::Orc) => 'O',
        EntityKind::AmuletOfYala => '|',
        EntityKind::HealingPotion => '!',
        EntityKind::MagicMap => '{',
        EntityKind::Lantern => 's',
    }
}

/// Whether `b` is the entity of kind `kind` standing at `pos`, with that kind's components.
pub open spec fn is_blueprint(b: Blueprint, kind: EntityKind, pos: Point) -> bool {
    &&& b.kind == kind
    &&& b.pos == pos
    &&& b.glyph == glyph_char(kind) as u16
    &&& b.bg == ColorName::Black
    &&& b.fg == (if kind == EntityKind::Lantern {
        ColorName::Yellow
    } else {
        ColorName::White
    })
    &&& b.health == match kind {
        EntityKind::Player => Some(Health { current: 10i32, max: 10i32 }),
        EntityKind::Monster(MonsterKind::Goblin) => Some(Health { current: 1i32, max: 1i32 }),
        EntityKind::Monster(MonsterKind::Orc) => Some(Health { current: 2i32, max: 2i32 }),
        _ => None,
    }
    &&& match kind {
        EntityKind::Player => b.name is None,
        EntityKind::Monster(MonsterKind::Goblin) => named(b.name, "Goblin"@),
        EntityKind::Monster(MonsterKind::Orc) => named(b.name, "Orc"@),
        EntityKind::AmuletOfYala => named(b.name, "Amulet of Yala"@),
        EntityKind::HealingPotion => named(b.name, "Healing Potion"@),
        EntityKind::MagicMap => named(b.name, "Dungeon Map"@),
        EntityKind::Lantern => named(b.name, "Lantern"@),
    }
    &&& b.fov_radius == match kind {
        EntityKind::Player => Some(6i32),
        EntityKind::Monster(_) => Some(6i32),
        EntityKind::Lantern => Some(2i32),
        _ => None,
    }
    &&& b.big_fov_radius == match kind {
        EntityKind::Player => Some(80i32),
        EntityKind::Monster(_) => Some(80i32),
        _ => None,
    }
    &&& b.damage == (if kind == EntityKind::Player {
        Some(1i32)
    } else {
        None
    })
    &&& b.healing == (if kind == EntityKind::HealingPotion {
        Some(6i32)
    } else {
        None
    })
    &&& b.light == (if kind == EntityKind::Lantern {
        Some((ColorName::LightYellow, ColorName::Black))
    } else {
        None
    })
}

/// The monster that a roll of one ten-sided die brings: a goblin on 1 to 8, an orc otherwise.
pub open spec fn monster_for_roll_spec(roll: i32) -> MonsterKind {
    if 1 <= roll <= 8 {
        MonsterKind::Goblin
    } else {
        MonsterKind::Orc
    }
}

/// What a roll of one twenty-sided die brings: a magic map on 1, a healing potion on 2 or 3,
/// a monster otherwise (`None`).
pub open spec fn item_for_roll_spec(roll: i32) -> Option<EntityKind> {
    if roll == 1 {
        Some(EntityKind::MagicMap)
    } else if 2 <= roll <= 3 {
        Some(EntityKind::HealingPotion)
    } else {
        None
    }
}

fn blueprint(kind: EntityKind, pos: Point, glyph: char, name: Option<String>) -> (r: Blueprint)
    requires
        glyph == glyph_char(kind),
        ' ' <= glyph <= '~',
        match kind {
            EntityKind::Player => name is None,
            EntityKind::Monster(MonsterKind::Goblin) => named(name, "Goblin"@),
            EntityKind::Monster(MonsterKind::Orc) => named(name, "Orc"@),
            EntityKind::AmuletOfYala => named(name, "Amulet of Yala"@),
            EntityKind::HealingPotion => named(name, "Healing Potion"@),
            EntityKind::MagicMap => named(name, "Dungeon Map"@),
            EntityKind::Lantern => named(name, "Lantern"@),
        },
    ensures
        is_blueprint(r, kind, pos),
{
    let fg = match kind {
        EntityKind::Lantern => ColorName::Yellow,
        _ => ColorName::White,
    };
    let health = match kind {
        EntityKind::Player => Some(Health { current: 10i32, max: 10i32 }),
        EntityKind::Monster(MonsterKind::Goblin) => Some(Health { current: 1i32, max: 1i32 }),
        EntityKind::Monster(MonsterKind::Orc) => Some(Health { current: 2i32, max: 2i32 }),
        _ => None,
    };
    let fov_radius = match kind {
        EntityKind::Player => Some(6i32),
        EntityKind::Monster(_) => Some(6i32),
        EntityKind::Lantern => Some(2i32),
        _ => None,
    };
    let big_fov_radius = match kind {
        EntityKind::Player => Some(80i32),
        EntityKind::Monster(_) => Some(80i32),
        _ => None,
    };
    let damage = match kind {
        EntityKind::Player => Some(1i32),
        _ => None,
    };
    let healing = match kind {
        EntityKind::HealingPotion => Some(6i32),
        _ => None,
    };
    let light = match kind {
        EntityKind::Lantern => Some((ColorName::LightYellow, ColorName::Black)),
        _ => None,
    };
    Blueprint {
        kind,
        pos,
        glyph: to_cp437(glyph),
        fg,
        bg: ColorName::Black,
        health,
        name,
        fov_radius,
        big_fov_radius,
        damage,
        healing,
        light,
    }
}

/// The player, at `pos`.
pub fn spawner_player(pos: Point) -> (r: Blueprint)
    ensures
        is_blueprint(r, EntityKind::Player, pos),
{
    blueprint(EntityKind::Player, pos, '@', None)
}

/// The monster that a roll of one ten-sided die brings.
pub fn monster_for_roll(roll: i32) -> (r: MonsterKind)
    ensures
        r == monster_for_roll_spec(roll),
{
    if 1 <= roll && roll <= 8 {
        MonsterKind::Goblin
    } else {
        MonsterKind::Orc
    }
}

/// Hit points, name and glyph of a goblin.
fn goblin() -> (r: (i32, String, char))
    ensures
        r.0 == 1,
        r.1@ == "Goblin"@,
        r.2 == glyph_char(EntityKind::Monster(MonsterKind::Goblin)),
{
    (1, "Goblin".to_owned(), 'g')
}

/// Hit points, name and glyph of an orc.
fn orc() -> (r: (i32, String, char))
    ensures
        r.0 == 2,
        r.1@ == "Orc"@,
        r.2 == glyph_char(EntityKind::Monster(MonsterKind::Orc)),
{
    (2, "Orc".to_owned(), 'O')
}

/// The monster that `roll` brings, at `pos`.
pub fn monster_at(roll: i32, pos: Point) -> (r: Blueprint)
    ensures
        is_blueprint(r, EntityKind::Monster(monster_for_roll_spec(roll)), pos),
{
    let kind = monster_for_roll(roll);
    let (_hp, name, glyph) = match kind {
        MonsterKind::Goblin => goblin(),
        MonsterKind::Orc => orc(),
    };
    blueprint(EntityKind::Monster(kind), pos, glyph, Some(name))
}

/// A monster at `pos`, chosen by rolling one ten-sided die (see `monster_at`).
pub fn spawn_monster(rng: &mut RandomNumberGenerator, pos: Point) -> (r: Blueprint)
    ensures
        exists|roll: i32|
            1 <= roll <= 10 && is_blueprint(
                r,
                EntityKind::Monster(#[trigger] monster_for_roll_spec(roll)),
                pos,
            ),
{
    let roll = roll_dice(rng, 1, 10);
    monster_at(roll, pos)
}

/// The Amulet of Yala, at `pos`.
pub fn spawn_amulet_of_yala(pos: Point) -> (r: Blueprint)
    ensures
        is_blueprint(r, EntityKind::AmuletOfYala, pos),
{
    blueprint(EntityKind::AmuletOfYala, pos, '|', Some("Amulet of Yala".to_owned()))
}

/// A healing potion, at `pos`.
pub fn spawn_healing_potion(pos: Point) -> (r: Blueprint)
    ensures
        is_blueprint(r, EntityKind::HealingPotion, pos),
{
    blueprint(EntityKind::HealingPotion, pos, '!', Some("Healing Potion".to_owned()))
}

/// A magic map, at `pos`.
pub fn spawn_magic_map(pos: Point) -> (r: Blueprint)
    ensures
        is_blueprint(r, EntityKind::MagicMap, pos),
{
    blueprint(EntityKind::MagicMap, pos, '{', Some("Dungeon Map".to_owned()))
}

/// A lantern, at `pos`.
pub fn spawn_lantern(pos: Point) -> (r: Blueprint)
    ensures
        is_blueprint(r, EntityKind::Lantern, pos),
{
    blueprint(EntityKind::Lantern, pos, 's', Some("Lantern".to_owned()))
}

/// The item that a roll of one twenty-sided die brings, or `None` for a monster.
pub fn item_for_roll(roll: i32) -> (r: Option<EntityKind>)
    ensures
        r == item_for_roll_spec(roll),
{
    if roll == 1 {
        Some(EntityKind::MagicMap)
    } else if 2 <= roll && roll <= 3 {
        Some(EntityKind::HealingPotion)
    } else {
        None
    }
}

/// Whether `b` is an entity that `spawn_entity` can place at `pos`.
pub open spec fn spawnable_entity(b: Blueprint, pos: Point) -> bool {
    ||| is_blueprint(b, EntityKind::MagicMap, pos)
    ||| is_blueprint(b, EntityKind::HealingPotion, pos)
    ||| is_blueprint(b, EntityKind::Monster(MonsterKind::Goblin), pos)
    ||| is_blueprint(b, EntityKind::Monster(MonsterKind::Orc), pos)
}

/// Whether `b` is what some roll of one twenty-sided die brings at `pos`: the item that
/// `item_for_roll` names, or a monster where it names none.
pub open spec fn rolled_entity(b: Blueprint, pos: Point) -> bool {
    exists|roll: i32|
        1 <= roll <= 20 && match #[trigger] item_for_roll_spec(roll) {
            Some(kind) => is_blueprint(b, kind, pos),
            None => exists|m: MonsterKind| is_blueprint(b, EntityKind::Monster(m), pos),
        }
}

/// The entity that the twenty-sided roll `roll` brings at `pos`: the dungeon map on 1, a
/// healing potion on 2 or 3, and otherwise a monster chosen by `spawn_monster`.
pub fn entity_for_roll(rng: &mut RandomNumberGenerator, roll: i32, pos: Point) -> (r: Blueprint)
    ensures
        roll == 1 ==> is_blueprint(r, EntityKind::MagicMap, pos),
        2 <= roll <= 3 ==> is_blueprint(r, EntityKind::HealingPotion, pos),
        !(1 <= roll <= 3) ==> exists|mroll: i32|
            1 <= mroll <= 10 && is_blueprint(
                r,
                EntityKind::Monster(#[trigger] monster_for_roll_spec(mroll)),
                pos,
            ),
        match item_for_roll_spec(roll) {
            Some(kind) => is_blueprint(r, kind, pos),
            None => exists|m: MonsterKind| is_blueprint(r, EntityKind::Monster(m), pos),
        },
        spawnable_entity(r, pos),
{
    match item_for_roll(roll) {
        Some(EntityKind::MagicMap) => spawn_magic_map(pos),
        Some(_) => spawn_healing_potion(pos),
        None => {
            let r = spawn_monster(rng, pos);
            proof {
                let mroll = choose|mroll: i32|
                    1 <= mroll <= 10 && is_blueprint(
                        r,
                        EntityKind::Monster(#[trigger] monster_for_roll_spec(mroll)),
                        pos,
                    );
                assert(is_blueprint(r, EntityKind::Monster(monster_for_roll_spec(mroll)), pos));
            }
            r
        },
    }
}

/// An entity at `pos`, chosen by rolling one twenty-sided die (see `entity_for_roll`).
pub fn spawn_entity(rng: &mut RandomNumberGenerator, pos: Point) -> (r: Blueprint)
    ensures
        rolled_entity(r, pos),
        spawnable_entity(r, pos),
{
    let roll = roll_dice(rng, 1, 20);
    let r = entity_for_roll(rng, roll, pos);
    proof {
        assert(1 <= roll <= 20 && match item_for_roll_spec(roll) {
            Some(kind) => is_blueprint(r, kind, pos),
            None => exists|m: MonsterKind| is_blueprint(r, EntityKind::Monster(m), pos),
        });
    }
    r
}

/// One entity per spawn point, each chosen by `spawn_entity`, in the order of the points;
/// the level does not change the tables.
pub fn spawn_level(rng: &mut RandomNumberGenerator, level: usize, spawn_points: &Vec<Point>) -> (r:
    Vec<Blueprint>)
    ensures
        r@.len() == spawn_points@.len(),
        forall|k: int|
            0 <= k < r@.len() ==> rolled_entity(#[trigger] r@[k], spawn_points@[k])
                && spawnable_entity(r@[k], spawn_points@[k]),
{
    let mut spawned: Vec<Blueprint> = Vec::new();
    for i in 0..spawn_points.len()
        invariant
            spawned@.len() == i,
            forall|k: int|
                0 <= k < spawned@.len() ==> rolled_entity(#[trigger] spawned@[k], spawn_points@[k])
                    && spawnable_entity(spawned@[k], spawn_points@[k]),
    {
        let b = spawn_entity(rng, spawn_points[i]);
        spawned.push(b);
    }
    spawned
}

} // verus!
