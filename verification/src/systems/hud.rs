use vstd::prelude::*;

use crate::systems::player_inputs::player_items;

verus! {

/// Screen row of the first inventory line, in pixels.
pub const HUD_FIRST_ITEM_Y: i32 = 80;

/// Height of an inventory line, in pixels.
pub const HUD_LINE_HEIGHT: i32 = 10;

/// How far above its row an inventory line's number lies.
pub const HUD_LABEL_OFFSET: i32 = 20;

/// One inventory line: which carried item, at which screen row, with which number.
#[derive(Clone, Copy, Debug, PartialEq, Eq, Structural)]
pub struct HudItemLine {
    pub item: usize,
    pub y: i32,
    pub label: i32,
}

/// The inventory part of the heads-up display.
pub struct HudLayout {
    pub lines: Vec<HudItemLine>,
    /// Whether the "Item carried" heading is shown.
    pub show_header: bool,
}

/// The inventory line of the `k`-th item that the player carries, which is carried item `item`.
pub open spec fn hud_line(item: usize, k: int) -> HudItemLine {
    HudItemLine {
        item,
        y: (HUD_FIRST_ITEM_Y + HUD_LINE_HEIGHT * k) as i32,
        label: (HUD_FIRST_ITEM_Y + HUD_LINE_HEIGHT * k - HUD_LABEL_OFFSET) as i32,
    }
}

/// Most items that the inventory can list: below the last of them the row counter would
/// leave the range of `i32`.
pub open spec fn hud_capacity() -> int {
    (i32::MAX - HUD_FIRST_ITEM_Y) / HUD_LINE_HEIGHT as int
}

/// A prefix of the carried items holds no more of the player's items than a longer one.
proof fn lemma_player_items_grow(carried: Seq<bool>, i: int, n: int)
    requires
        0 <= i <= n,
    ensures
        player_items(carried, i).len() <= player_items(carried, n).len(),
    decreases n - i,
{
    if i < n {
        lemma_player_items_grow(carried, i, n - 1);
    }
}

/// The inventory of the heads-up display. For each carried item (in the world's order),
/// `carried_by_player` says whether the player carries it. The player's items are listed one
/// line each, ten pixels apart from row 80 down, each numbered with its row less twenty; the
/// heading is shown when there is at least one.
pub fn hud(carried_by_player: &Vec<bool>) -> (r: HudLayout)
    requires
        player_items(carried_by_player@, carried_by_player@.len() as int).len() <= hud_capacity(),
    ensures
        r.lines@.len() == player_items(carried_by_player@, carried_by_player@.len() as int).len(),
        forall|k: int|
            0 <= k < r.lines@.len() ==> #[trigger] r.lines@[k] == hud_line(
                player_items(carried_by_player@, carried_by_player@.len() as int)[k],
                k,
            ),
        r.show_header == (r.lines@.len() > 0),
{
    let mut lines: Vec<HudItemLine> = Vec::new();
    let mut y: i32 = HUD_FIRST_ITEM_Y;
    for i in 0..carried_by_player.len()
        invariant
            player_items(carried_by_player@, carried_by_player@.len() as int).len()
                <= hud_capacity(),
            lines@.len() == player_items(carried_by_player@, i as int).len(),
            lines@.len() <= i,
            y == HUD_FIRST_ITEM_Y + HUD_LINE_HEIGHT * lines@.len(),
            forall|k: int|
                0 <= k < lines@.len() ==> #[trigger] lines@[k] == hud_line(
                    player_items(carried_by_player@, i as int)[k],
                    k,
                ),
    {
        let ghost before = player_items(carried_by_player@, i as int);
        proof {
            lemma_player_items_grow(carried_by_player@, i + 1, carried_by_player@.len() as int);
        }
        if carried_by_player[i] {
            lines.push(HudItemLine { item: i, y, label: y - HUD_LABEL_OFFSET });
            y = y + HUD_LINE_HEIGHT;
        }
        proof {
            let after = player_items(carried_by_player@, i + 1);
            assert forall|k: int| 0 <= k < lines@.len() implies #[trigger] lines@[k] == hud_line(
                after[k],
                k,
            ) by {
                if k < before.len() {
                    assert(after[k] == before[k]);
                }
            }
        }
    }
    HudLayout { lines, show_header: y > HUD_FIRST_ITEM_Y }
}

} // verus!
