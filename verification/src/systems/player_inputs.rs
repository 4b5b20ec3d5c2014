use vstd::prelude::*;

use crate::geometry::{fits_i32, Point};
use crate::turn_state::TurnState;

verus! {

/// The keys that the game reads.
#[derive(Clone, Copy, Debug, PartialEq, Eq, Structural)]
pub enum Key {
    Left,
    Right,
    Up,
    Down,
    G,
    R,
    F1,
    F2,
    F3,
    F4,
    F5,
    F6,
    F7,
    F8,
    F9,
    Other,
}

/// An item lying on the map: where, and whether it is a weapon.
#[derive(Clone, Copy, Debug, PartialEq, Eq, Structural)]
pub struct GroundItem {
    pub pos: Point,
    pub is_weapon: bool,
}

/// What the input system reads of the world, each list in the world's order.
pub struct InputWorld {
    /// Where the player stands.
    pub player_pos: Point,
    /// Where each enemy stands.
    pub enemies: Vec<Point>,
    /// The items lying on the map.
    pub ground_items: Vec<GroundItem>,
    /// For each carried item, whether the player carries it.
    pub carried_items: Vec<bool>,
    /// For each carried weapon, whether the player carries it.
    pub carried_weapons: Vec<bool>,
}

/// A command that the input system queues. Indices refer to the lists of `InputWorld`.
#[derive(Clone, Copy, Debug, PartialEq, Eq, Structural)]
pub enum InputCommand {
    /// The player picks up ground item `i`: it leaves the map and is carried by the player.
    PickUp(usize),
    /// Carried weapon `i` is destroyed.
    RemoveWeapon(usize),
    /// The player uses carried item `i`.
    Activate(usize),
    /// The player attacks enemy `i`.
    Attack(usize),
    /// The player walks to the point.
    MoveTo(Point),
}

/// The step that a key moves the player by.
pub open spec fn key_delta(key: Key) -> (int, int) {
    match key {
        Key::Left => (-1, 0),
        Key::Right => (1, 0),
        Key::Up => (0, -1),
        Key::Down => (0, 1),
        _ => (0, 0),
    }
}

/// The inventory slot that a function key uses.
pub open spec fn use_slot(key: Key) -> Option<int> {
    match key {
        Key::F1 => Some(0),
        Key::F2 => Some(1),
        Key::F3 => Some(2),
        Key::F4 => Some(3),
        Key::F5 => Some(4),
        Key::F6 => Some(5),
        Key::F7 => Some(6),
        Key::F8 => Some(7),
        Key::F9 => Some(8),
        _ => None,
    }
}

/// The removal of every weapon of index below `n` that the player carries.
pub open spec fn weapon_removals(carried_weapons: Seq<bool>, n: int) -> Seq<InputCommand>
    decreases n,
{
    if n <= 0 {
        seq![]
    } else if carried_weapons[n - 1] {
        weapon_removals(carried_weapons, n - 1).push(InputCommand::RemoveWeapon((n - 1) as usize))
    } else {
        weapon_removals(carried_weapons, n - 1)
    }
}

/// The commands of picking up, among the ground items of index below `n`, those lying at
/// `pos`: each is picked up, and a weapon makes the player drop every weapon carried.
pub open spec fn pickups(
    items: Seq<GroundItem>,
    pos: Point,
    carried_weapons: Seq<bool>,
    n: int,
) -> Seq<InputCommand>
    decreases n,
{
    if n <= 0 {
        seq![]
    } else {
        let prev = pickups(items, pos, carried_weapons, n - 1);
        if items[n - 1].pos == pos {
            let picked = prev.push(InputCommand::PickUp((n - 1) as usize));
            if items[n - 1].is_weapon {
                picked + weapon_removals(carried_weapons, carried_weapons.len() as int)
            } else {
                picked
            }
        } else {
            prev
        }
    }
}

/// The indices, below `n`, of the items that the player carries, in order.
pub open spec fn player_items(carried_items: Seq<bool>, n: int) -> Seq<usize>
    decreases n,
{
    if n <= 0 {
        seq![]
    } else if carried_items[n - 1] {
        player_items(carried_items, n - 1).push((n - 1) as usize)
    } else {
        player_items(carried_items, n - 1)
    }
}

/// The command of using the player's item in `slot`, if there is one.
pub open spec fn activation(carried_items: Seq<bool>, slot: int) -> Seq<InputCommand> {
    let items = player_items(carried_items, carried_items.len() as int);
    if 0 <= slot < items.len() {
        seq![InputCommand::Activate(items[slot])]
    } else {
        seq![]
    }
}

/// The attacks on the enemies of index below `n` that stand at `dest`.
pub open spec fn attacks(enemies: Seq<Point>, dest: Point, n: int) -> Seq<InputCommand>
    decreases n,
{
    if n <= 0 {
        seq![]
    } else if enemies[n - 1] == dest {
        attacks(enemies, dest, n - 1).push(InputCommand::Attack((n - 1) as usize))
    } else {
        attacks(enemies, dest, n - 1)
    }
}

/// The commands of a step by `delta`: none for no step; otherwise an attack on each enemy at
/// the destination, or, when there is none, a move there.
pub open spec fn step_commands(world: InputWorld, delta: (int, int)) -> Seq<InputCommand> {
    if delta == (0int, 0int) {
        seq![]
    } else {
        let dest = Point {
            x: (world.player_pos.x + delta.0) as i32,
            y: (world.player_pos.y + delta.1) as i32,
        };
        let hits = attacks(world.enemies@, dest, world.enemies@.len() as int);
        if hits.len() == 0 {
            seq![InputCommand::MoveTo(dest)]
        } else {
            hits
        }
    }
}

/// The commands that a key press queues.
pub open spec fn input_commands(key: Key, world: InputWorld) -> Seq<InputCommand> {
    let action = if key == Key::G {
        pickups(
            world.ground_items@,
            world.player_pos,
            world.carried_weapons@,
            world.ground_items@.len() as int,
        )
    } else if use_slot(key) is Some {
        activation(world.carried_items@, use_slot(key)->0)
    } else {
        seq![]
    };
    action + step_commands(world, key_delta(key))
}

fn weapon_removals_exec(carried_weapons: &Vec<bool>) -> (r: Vec<InputCommand>)
    ensures
        r@ == weapon_removals(carried_weapons@, carried_weapons@.len() as int),
{
    let mut r: Vec<InputCommand> = Vec::new();
    for i in 0..carried_weapons.len()
        invariant
            r@ == weapon_removals(carried_weapons@, i as int),
    {
        if carried_weapons[i] {
            r.push(InputCommand::RemoveWeapon(i));
        }
    }
    r
}

fn pickups_exec(world: &InputWorld) -> (r: Vec<InputCommand>)
    ensures
        r@ == pickups(
            world.ground_items@,
            world.player_pos,
            world.carried_weapons@,
            world.ground_items@.len() as int,
        ),
{
    let mut r: Vec<InputCommand> = Vec::new();
    for i in 0..world.ground_items.len()
        invariant
            r@ == pickups(
                world.ground_items@,
                world.player_pos,
                world.carried_weapons@,
                i as int,
            ),
    {
        let item = world.ground_items[i];
        if item.pos == world.player_pos {
            r.push(InputCommand::PickUp(i));
            if item.is_weapon {
                let mut removals = weapon_removals_exec(&world.carried_weapons);
                r.append(&mut removals);
            }
        }
    }
    r
}

/// The index of the item that the player carries in inventory slot `n`, if any.
pub fn use_item(n: usize, carried_items: &Vec<bool>) -> (r: Option<usize>)
    ensures
        r == (if n < player_items(carried_items@, carried_items@.len() as int).len() {
            Some(player_items(carried_items@, carried_items@.len() as int)[n as int])
        } else {
            None
        }),
{
    let mut items: Vec<usize> = Vec::new();
    for i in 0..carried_items.len()
        invariant
            items@ == player_items(carried_items@, i as int),
    {
        if carried_items[i] {
            items.push(i);
        }
    }
    if n < items.len() {
        Some(items[n])
    } else {
        None
    }
}

fn attacks_exec(enemies: &Vec<Point>, dest: Point) -> (r: Vec<InputCommand>)
    ensures
        r@ == attacks(enemies@, dest, enemies@.len() as int),
{
    let mut r: Vec<InputCommand> = Vec::new();
    for i in 0..enemies.len()
        invariant
            r@ == attacks(enemies@, dest, i as int),
    {
        if enemies[i] == dest {
            r.push(InputCommand::Attack(i));
        }
    }
    r
}

/// Whether the step that `key` calls for, taken from `p`, stays in the `i32` range.
pub open spec fn step_fits(p: Point, key: Key) -> bool {
    fits_i32(p.x + key_delta(key).0) && fits_i32(p.y + key_delta(key).1)
}

/// Whether the step that `key` calls for, taken from `pos`, stays in the `i32` range.
pub fn key_step_fits(pos: Point, key: Key) -> (r: bool)
    ensures
        r == step_fits(pos, key),
{
    match key {
        Key::Left => pos.x > i32::MIN,
        Key::Right => pos.x < i32::MAX,
        Key::Up => pos.y > i32::MIN,
        Key::Down => pos.y < i32::MAX,
        _ => true,
    }
}

/// The input system. Without a key it does nothing. With a key it queues the commands that
/// the key calls for (see `input_commands`) and hands the turn to the player.
pub fn player_inputs(key: Option<Key>, world: &InputWorld, turn_state: &mut TurnState) -> (r: Vec<
    InputCommand,
>)
    requires
        key matches Some(k) ==> step_fits(world.player_pos, k),
    ensures
        key is None ==> r@.len() == 0 && *final(turn_state) == *old(turn_state),
        key matches Some(k) ==> r@ == input_commands(k, *world) && *final(turn_state)
            == TurnState::PlayerTurn,
{
    match key {
        None => Vec::new(),
        Some(k) => {
            let mut commands: Vec<InputCommand> = Vec::new();
            let (dx, dy): (i32, i32) = match k {
                Key::Left => (-1, 0),
                Key::Right => (1, 0),
                Key::Up => (0, -1),
                Key::Down => (0, 1),
                Key::G => {
                    commands = pickups_exec(world);
                    (0, 0)
                },
                Key::F1 | Key::F2 | Key::F3 | Key::F4 | Key::F5 | Key::F6 | Key::F7 | Key::F8
                | Key::F9 => {
                    let n: usize = match k {
                        Key::F1 => 0,
                        Key::F2 => 1,
                        Key::F3 => 2,
                        Key::F4 => 3,
                        Key::F5 => 4,
                        Key::F6 => 5,
                        Key::F7 => 6,
                        Key::F8 => 7,
                        _ => 8,
                    };
                    if let Some(item) = use_item(n, &world.carried_items) {
                        commands.push(InputCommand::Activate(item));
                    }
                    (0, 0)
                },
                _ => (0, 0),
            };
            let ghost action = commands@;
            if dx != 0 || dy != 0 {
                let destination = world.player_pos.offset_by(Point::new(dx, dy));
                let mut hits = attacks_exec(&world.enemies, destination);
                if hits.len() == 0 {
                    commands.push(InputCommand::MoveTo(destination));
                } else {
                    commands.append(&mut hits);
                }
            }
            *turn_state = TurnState::PlayerTurn;
            commands
        },
    }
}

/// The attacks listed for the enemies below `n` are exactly those on the enemies standing at
/// `dest`.
proof fn lemma_attacks(enemies: Seq<Point>, dest: Point, n: int)
    requires
        0 <= n <= enemies.len(),
        enemies.len() <= usize::MAX,
    ensures
        forall|i: int|
            0 <= i < n && enemies[i] == dest ==> #[trigger] attacks(enemies, dest, n).contains(
                InputCommand::Attack(i as usize),
            ),
        forall|k: int|
            0 <= k < attacks(enemies, dest, n).len() ==> (#[trigger] attacks(enemies, dest, n)[k] is Attack
                && attacks(enemies, dest, n)[k]->Attack_0 < n && enemies[attacks(
                enemies,
                dest,
                n,
            )[k]->Attack_0 as int] == dest),
    decreases n,
{
    if n > 0 {
        lemma_attacks(enemies, dest, n - 1);
        let prev = attacks(enemies, dest, n - 1);
        let cur = attacks(enemies, dest, n);
        assert forall|i: int| 0 <= i < n && enemies[i] == dest implies #[trigger] cur.contains(
            InputCommand::Attack(i as usize),
        ) by {
            if i < n - 1 {
                assert(prev.contains(InputCommand::Attack(i as usize)));
                let k = choose|k: int| 0 <= k < prev.len() && prev[k] == InputCommand::Attack(i as usize);
                assert(cur[k] == prev[k]);
            } else {
                assert(cur[prev.len() as int] == InputCommand::Attack(i as usize));
            }
        }
        assert forall|k: int| 0 <= k < cur.len() implies (#[trigger] cur[k] is Attack
            && cur[k]->Attack_0 < n && enemies[cur[k]->Attack_0 as int] == dest) by {
            if k < prev.len() {
                assert(cur[k] == prev[k]);
            } else {
                assert(cur[k] == InputCommand::Attack((n - 1) as usize));
            }
        }
    }
}

/// Stepping onto an enemy attacks it instead of moving there; stepping onto a tile without
/// an enemy moves there.
pub proof fn law_bump_to_attack(world: InputWorld, delta: (int, int), i: int)
    requires
        delta != (0int, 0int),
        world.enemies@.len() <= usize::MAX,
    ensures
        ({
            let dest = Point {
                x: (world.player_pos.x + delta.0) as i32,
                y: (world.player_pos.y + delta.1) as i32,
            };
            &&& (0 <= i < world.enemies@.len() && world.enemies@[i] == dest) ==> step_commands(
                world,
                delta,
            ).contains(InputCommand::Attack(i as usize))
            &&& step_commands(world, delta).contains(InputCommand::MoveTo(dest)) <==> forall|j: int|
                0 <= j < world.enemies@.len() ==> #[trigger] world.enemies@[j] != dest
        }),
{
    let dest = Point {
        x: (world.player_pos.x + delta.0) as i32,
        y: (world.player_pos.y + delta.1) as i32,
    };
    let n = world.enemies@.len() as int;
    lemma_attacks(world.enemies@, dest, n);
    let hits = attacks(world.enemies@, dest, n);
    if exists|j: int| 0 <= j < n && #[trigger] world.enemies@[j] == dest {
        let j = choose|j: int| 0 <= j < n && #[trigger] world.enemies@[j] == dest;
        assert(hits.contains(InputCommand::Attack(j as usize)));
        assert(hits.len() > 0);
        if hits.contains(InputCommand::MoveTo(dest)) {
            let k = choose|k: int| 0 <= k < hits.len() && hits[k] == InputCommand::MoveTo(dest);
            assert(hits[k] is Attack);
        }
    } else {
        if hits.len() > 0 {
            assert(hits[0] is Attack);
            assert(world.enemies@[hits[0]->Attack_0 as int] == dest);
        }
        assert(step_commands(world, delta) == seq![InputCommand::MoveTo(dest)]);
        assert(seq![InputCommand::MoveTo(dest)][0] == InputCommand::MoveTo(dest));
    }
}

/// What a function key queues: F1 uses the first item that the player carries (carried
/// items taken in the world's order), F2 the second, and so on up to F9 and the ninth; a key
/// whose place is beyond the player's items queues nothing.
pub proof fn law_function_keys_use_their_slot(world: InputWorld)
    ensures
        ({
            let items = player_items(world.carried_items@, world.carried_items@.len() as int);
            let uses = |n: int|
                if n < items.len() {
                    seq![InputCommand::Activate(items[n])]
                } else {
                    Seq::<InputCommand>::empty()
                };
            &&& input_commands(Key::F1, world) == uses(0)
            &&& input_commands(Key::F2, world) == uses(1)
            &&& input_commands(Key::F3, world) == uses(2)
            &&& input_commands(Key::F4, world) == uses(3)
            &&& input_commands(Key::F5, world) == uses(4)
            &&& input_commands(Key::F6, world) == uses(5)
            &&& input_commands(Key::F7, world) == uses(6)
            &&& input_commands(Key::F8, world) == uses(7)
            &&& input_commands(Key::F9, world) == uses(8)
        }),
{
    let items = player_items(world.carried_items@, world.carried_items@.len() as int);
    assert forall|k: Key| #[trigger] use_slot(k) is Some implies input_commands(k, world) == activation(
        world.carried_items@,
        use_slot(k)->0,
    ) by {
        assert(step_commands(world, key_delta(k)) == Seq::<InputCommand>::empty());
        assert(activation(world.carried_items@, use_slot(k)->0) + Seq::<InputCommand>::empty()
            == activation(world.carried_items@, use_slot(k)->0));
    }
    assert(use_slot(Key::F1) is Some);
    assert(use_slot(Key::F2) is Some);
    assert(use_slot(Key::F3) is Some);
    assert(use_slot(Key::F4) is Some);
    assert(use_slot(Key::F5) is Some);
    assert(use_slot(Key::F6) is Some);
    assert(use_slot(Key::F7) is Some);
    assert(use_slot(Key::F8) is Some);
    assert(use_slot(Key::F9) is Some);
}

} // verus!
