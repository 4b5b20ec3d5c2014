use vstd::prelude::*;

pub mod entity_render;
pub mod hud;
pub mod map_render;
pub mod player_inputs;

verus! {

/// The systems that the game runs each frame.
#[derive(Clone, Copy, Debug, PartialEq, Eq, Structural)]
pub enum SystemKind {
    PlayerInputs,
    Fov,
    MapRender,
    EntityRender,
    Hud,
    Tooltips,
    UseItems,
    Combat,
    Movement,
    EndTurn,
    RandomMove,
    Chasing,
}

/// One step of a schedule: run a system, or apply the commands queued so far.
#[derive(Clone, Copy, Debug, PartialEq, Eq, Structural)]
pub enum ScheduleStep {
    Run(SystemKind),
    Flush,
}

/// The schedule run while the game awaits the player's input.
pub open spec fn input_schedule() -> Seq<ScheduleStep> {
    seq![
        ScheduleStep::Run(SystemKind::PlayerInputs),
        ScheduleStep::Run(SystemKind::Fov),
        ScheduleStep::Flush,
        ScheduleStep::Run(SystemKind::MapRender),
        ScheduleStep::Run(SystemKind::EntityRender),
        ScheduleStep::Run(SystemKind::Hud),
        ScheduleStep::Run(SystemKind::Tooltips),
    ]
}

/// The schedule run on the player's turn.
pub open spec fn player_schedule() -> Seq<ScheduleStep> {
    seq![
        ScheduleStep::Run(SystemKind::UseItems),
        ScheduleStep::Run(SystemKind::Combat),
        ScheduleStep::Flush,
        ScheduleStep::Run(SystemKind::Movement),
        ScheduleStep::Flush,
        ScheduleStep::Run(SystemKind::Fov),
        ScheduleStep::Flush,
        ScheduleStep::Run(SystemKind::MapRender),
        ScheduleStep::Run(SystemKind::EntityRender),
        ScheduleStep::Run(SystemKind::Hud),
        ScheduleStep::Run(SystemKind::EndTurn),
    ]
}

/// The schedule run on the monsters' turn.
pub open spec fn monster_schedule() -> Seq<ScheduleStep> {
    seq![
        ScheduleStep::Run(SystemKind::RandomMove),
        ScheduleStep::Run(SystemKind::Chasing),
        ScheduleStep::Flush,
        ScheduleStep::Run(SystemKind::UseItems),
        ScheduleStep::Run(SystemKind::Combat),
        ScheduleStep::Flush,
        ScheduleStep::Run(SystemKind::Movement),
        ScheduleStep::Flush,
        ScheduleStep::Run(SystemKind::Fov),
        ScheduleStep::Flush,
        ScheduleStep::Run(SystemKind::MapRender),
        ScheduleStep::Run(SystemKind::EntityRender),
        ScheduleStep::Run(SystemKind::Hud),
        ScheduleStep::Run(SystemKind::EndTurn),
    ]
}

pub fn build_input_scheduler() -> (r: Vec<ScheduleStep>)
    ensures
        r@ == input_schedule(),
{
    let mut s: Vec<ScheduleStep> = Vec::new();
    s.push(ScheduleStep::Run(SystemKind::PlayerInputs));
    s.push(ScheduleStep::Run(SystemKind::Fov));
    s.push(ScheduleStep::Flush);
    s.push(ScheduleStep::Run(SystemKind::MapRender));
    s.push(ScheduleStep::Run(SystemKind::EntityRender));
    s.push(ScheduleStep::Run(SystemKind::Hud));
    s.push(ScheduleStep::Run(SystemKind::Tooltips));
    s
}

pub fn build_player_scheduler() -> (r: Vec<ScheduleStep>)
    ensures
        r@ == player_schedule(),
{
    let mut s: Vec<ScheduleStep> = Vec::new();
    s.push(ScheduleStep::Run(SystemKind::UseItems));
    s.push(ScheduleStep::Run(SystemKind::Combat));
    s.push(ScheduleStep::Flush);
    s.push(ScheduleStep::Run(SystemKind::Movement));
    s.push(ScheduleStep::Flush);
    s.push(ScheduleStep::Run(SystemKind::Fov));
    s.push(ScheduleStep::Flush);
    s.push(ScheduleStep::Run(SystemKind::MapRender));
    s.push(ScheduleStep::Run(SystemKind::EntityRender));
    s.push(ScheduleStep::Run(SystemKind::Hud));
    s.push(ScheduleStep::Run(SystemKind::EndTurn));
    s
}

pub fn build_monster_scheduler() -> (r: Vec<ScheduleStep>)
    ensures
        r@ == monster_schedule(),
{
    let mut s: Vec<ScheduleStep> = Vec::new();
    s.push(ScheduleStep::Run(SystemKind::RandomMove));
    s.push(ScheduleStep::Run(SystemKind::Chasing));
    s.push(ScheduleStep::Flush);
    s.push(ScheduleStep::Run(SystemKind::UseItems));
    s.push(ScheduleStep::Run(SystemKind::Combat));
    s.push(ScheduleStep::Flush);
    s.push(ScheduleStep::Run(SystemKind::Movement));
    s.push(ScheduleStep::Flush);
    s.push(ScheduleStep::Run(SystemKind::Fov));
    s.push(ScheduleStep::Flush);
    s.push(ScheduleStep::Run(SystemKind::MapRender));
    s.push(ScheduleStep::Run(SystemKind::EntityRender));
    s.push(ScheduleStep::Run(SystemKind::Hud));
    s.push(ScheduleStep::Run(SystemKind::EndTurn));
    s
}

} // verus!
