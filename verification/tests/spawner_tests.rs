use bracket_lib::prelude::RandomNumberGenerator;
use rogue::geometry::Point;
use rogue::spawner::{
    item_for_roll, monster_at, monster_for_roll, spawn_amulet_of_yala, spawn_entity,
    spawn_healing_potion, spawn_lantern, spawn_level, spawn_magic_map, spawn_monster,
    spawner_player, Blueprint, ColorName, EntityKind, Health, MonsterKind,
};

fn name_of(b: &Blueprint) -> Option<&str> {
    b.name.as_deref()
}

#[test]
fn player_blueprint() {
    let b = spawner_player(Point::new(3, 4));
    assert_eq!(b.kind, EntityKind::Player);
    assert_eq!(b.pos, Point::new(3, 4));
    assert_eq!(b.glyph, 64);
    assert_eq!((b.fg, b.bg), (ColorName::White, ColorName::Black));
    assert_eq!(b.health, Some(Health { current: 10, max: 10 }));
    assert_eq!(name_of(&b), None);
    assert_eq!(b.fov_radius, Some(6));
    assert_eq!(b.big_fov_radius, Some(80));
    assert_eq!(b.damage, Some(1));
    assert_eq!(b.healing, None);
    assert_eq!(b.light, None);
}

#[test]
fn monster_table() {
    for roll in 1..=8 {
        assert_eq!(monster_for_roll(roll), MonsterKind::Goblin);
    }
    assert_eq!(monster_for_roll(9), MonsterKind::Orc);
    assert_eq!(monster_for_roll(10), MonsterKind::Orc);
    let g = monster_at(1, Point::new(1, 1));
    assert_eq!(g.kind, EntityKind::Monster(MonsterKind::Goblin));
    assert_eq!(g.glyph, 'g' as u16);
    assert_eq!(g.health, Some(Health { current: 1, max: 1 }));
    assert_eq!(name_of(&g), Some("Goblin"));
    assert_eq!(g.fov_radius, Some(6));
    let o = monster_at(10, Point::new(2, 2));
    assert_eq!(o.kind, EntityKind::Monster(MonsterKind::Orc));
    assert_eq!(o.glyph, 'O' as u16);
    assert_eq!(o.health, Some(Health { current: 2, max: 2 }));
    assert_eq!(name_of(&o), Some("Orc"));
    assert_eq!(o.damage, None);
}

#[test]
fn item_blueprints() {
    let a = spawn_amulet_of_yala(Point::new(5, 5));
    assert_eq!((a.kind, a.glyph, name_of(&a)), (EntityKind::AmuletOfYala, 124, Some("Amulet of Yala")));
    let h = spawn_healing_potion(Point::new(5, 5));
    assert_eq!((h.kind, h.glyph, name_of(&h)), (EntityKind::HealingPotion, 33, Some("Healing Potion")));
    assert_eq!(h.healing, Some(6));
    let m = spawn_magic_map(Point::new(5, 5));
    assert_eq!((m.kind, m.glyph, name_of(&m)), (EntityKind::MagicMap, 123, Some("Dungeon Map")));
    let l = spawn_lantern(Point::new(5, 6));
    assert_eq!((l.kind, l.glyph, name_of(&l)), (EntityKind::Lantern, 115, Some("Lantern")));
    assert_eq!((l.fg, l.bg), (ColorName::Yellow, ColorName::Black));
    assert_eq!(l.light, Some((ColorName::LightYellow, ColorName::Black)));
    assert_eq!(l.fov_radius, Some(2));
    assert_eq!(l.health, None);
}

#[test]
fn item_table() {
    assert_eq!(item_for_roll(1), Some(EntityKind::MagicMap));
    assert_eq!(item_for_roll(2), Some(EntityKind::HealingPotion));
    assert_eq!(item_for_roll(3), Some(EntityKind::HealingPotion));
    for roll in 4..=20 {
        assert_eq!(item_for_roll(roll), None);
    }
}

#[test]
fn random_spawns_come_from_the_tables() {
    let mut rng = RandomNumberGenerator::seeded(42);
    let mut kinds = Vec::new();
    for _ in 0..400 {
        let m = spawn_monster(&mut rng, Point::new(1, 2));
        assert!(matches!(m.kind, EntityKind::Monster(_)));
        assert_eq!(m.pos, Point::new(1, 2));
        let e = spawn_entity(&mut rng, Point::new(3, 4));
        assert!(matches!(
            e.kind,
            EntityKind::Monster(_) | EntityKind::HealingPotion | EntityKind::MagicMap
        ));
        kinds.push(e.kind);
    }
    assert!(kinds.contains(&EntityKind::MagicMap));
    assert!(kinds.contains(&EntityKind::HealingPotion));
    assert!(kinds.contains(&EntityKind::Monster(MonsterKind::Goblin)));
    assert!(kinds.contains(&EntityKind::Monster(MonsterKind::Orc)));
}

#[test]
fn level_spawns_one_entity_per_point() {
    let mut rng = RandomNumberGenerator::seeded(1);
    let points = vec![Point::new(1, 1), Point::new(2, 3), Point::new(4, 5)];
    let spawned = spawn_level(&mut rng, 0, &points);
    assert_eq!(spawned.len(), 3);
    for (b, p) in spawned.iter().zip(points.iter()) {
        assert_eq!(b.pos, *p);
    }
    assert!(spawn_level(&mut rng, 1, &Vec::new()).is_empty());
}
