//! The one controller lane below the note grid, and the tools.

use crate::midi::MidiControllerKind;
use vstd::prelude::*;

verus! {

/// A tool of the piano roll.
#[derive(Debug, Clone, Copy, PartialEq, Eq, Structural)]
pub enum PianoTool {
    Draw,
    Select,
    /// Draws a straight ramp in the controller lane.
    Line,
    /// Deletes notes.
    Erase,
    /// Splits a note at the pointer.
    Split,
    /// Mutes and unmutes a note.
    Mute,
}

/// What the controller lane shows and edits.
#[derive(Debug, Clone, Copy, PartialEq, Eq, Structural)]
pub enum ControllerLaneKind {
    Velocity,
    Controller(MidiControllerKind),
    Articulations,
}

/// View of the controller lane. `Controller` shows the active controller.
#[derive(Debug, Clone, Copy, PartialEq, Eq, Structural)]
pub enum PianoLaneView {
    Velocity,
    Controller,
    Articulations,
}

/// A dropdown of the toolbar.
#[derive(Debug, Clone, Copy, PartialEq, Eq, Structural)]
pub enum PianoSelectMenu {
    Grid,
    ScaleRoot,
    ScaleKind,
    Lane,
    Channel,
    Articulation,
}

/// How many lanes the lane commands step through.
pub const LANE_CYCLE_LEN: i32 = 10;

/// The lane at a place of the cycle.
pub open spec fn lane_at(i: int) -> ControllerLaneKind {
    if i == 0 {
        ControllerLaneKind::Velocity
    } else if i == 1 {
        ControllerLaneKind::Controller(MidiControllerKind::CC(1))
    } else if i == 2 {
        ControllerLaneKind::Controller(MidiControllerKind::CC(7))
    } else if i == 3 {
        ControllerLaneKind::Controller(MidiControllerKind::CC(10))
    } else if i == 4 {
        ControllerLaneKind::Controller(MidiControllerKind::CC(11))
    } else if i == 5 {
        ControllerLaneKind::Controller(MidiControllerKind::CC(64))
    } else if i == 6 {
        ControllerLaneKind::Controller(MidiControllerKind::PitchBend)
    } else if i == 7 {
        ControllerLaneKind::Controller(MidiControllerKind::ChannelPressure)
    } else if i == 8 {
        ControllerLaneKind::Controller(MidiControllerKind::PolyPressure)
    } else {
        ControllerLaneKind::Articulations
    }
}

/// The lane at place `i` of the cycle.
pub fn lane_of_cycle(i: i32) -> (k: ControllerLaneKind)
    requires
        0 <= i < LANE_CYCLE_LEN,
    ensures
        k == lane_at(i as int),
{
    match i {
        0 => ControllerLaneKind::Velocity,
        1 => ControllerLaneKind::Controller(MidiControllerKind::CC(1)),
        2 => ControllerLaneKind::Controller(MidiControllerKind::CC(7)),
        3 => ControllerLaneKind::Controller(MidiControllerKind::CC(10)),
        4 => ControllerLaneKind::Controller(MidiControllerKind::CC(11)),
        5 => ControllerLaneKind::Controller(MidiControllerKind::CC(64)),
        6 => ControllerLaneKind::Controller(MidiControllerKind::PitchBend),
        7 => ControllerLaneKind::Controller(MidiControllerKind::ChannelPressure),
        8 => ControllerLaneKind::Controller(MidiControllerKind::PolyPressure),
        _ => ControllerLaneKind::Articulations,
    }
}

/// Place of a lane in the cycle; the first place for a lane that is not in it.
pub open spec fn lane_place(kind: ControllerLaneKind) -> int {
    match kind {
        ControllerLaneKind::Velocity => 0,
        ControllerLaneKind::Controller(MidiControllerKind::CC(n)) => if n == 1 {
            1
        } else if n == 7 {
            2
        } else if n == 10 {
            3
        } else if n == 11 {
            4
        } else if n == 64 {
            5
        } else {
            0
        },
        ControllerLaneKind::Controller(MidiControllerKind::PitchBend) => 6,
        ControllerLaneKind::Controller(MidiControllerKind::ChannelPressure) => 7,
        ControllerLaneKind::Controller(MidiControllerKind::PolyPressure) => 8,
        ControllerLaneKind::Articulations => 9,
    }
}

/// Place of `kind` in the cycle; the first place for a lane that is not in it.
pub fn place_in_cycle(kind: ControllerLaneKind) -> (i: i32)
    ensures
        i == lane_place(kind),
        0 <= i < LANE_CYCLE_LEN,
{
    match kind {
        ControllerLaneKind::Velocity => 0,
        ControllerLaneKind::Controller(MidiControllerKind::CC(n)) => match n {
            1 => 1,
            7 => 2,
            10 => 3,
            11 => 4,
            64 => 5,
            _ => 0,
        },
        ControllerLaneKind::Controller(MidiControllerKind::PitchBend) => 6,
        ControllerLaneKind::Controller(MidiControllerKind::ChannelPressure) => 7,
        ControllerLaneKind::Controller(MidiControllerKind::PolyPressure) => 8,
        ControllerLaneKind::Articulations => 9,
    }
}

/// The lane `dir` places further round the cycle.
pub open spec fn lane_after(kind: ControllerLaneKind, dir: int) -> ControllerLaneKind {
    lane_at((lane_place(kind) + dir) % LANE_CYCLE_LEN as int)
}

/// The lane `dir` places further round the cycle.
pub fn next_lane(kind: ControllerLaneKind, dir: i32) -> (k: ControllerLaneKind)
    requires
        lane_place(kind) + dir <= i32::MAX,
    ensures
        k == lane_after(kind, dir as int),
{
    let i: i32 = place_in_cycle(kind) + dir;
    let m: u64 = (i as i64 + 2_147_483_650) as u64 % 10;
    assert(m == i as int % 10) by {
        assert((i as int + 2_147_483_650) % 10 == i as int % 10);
    }
    lane_of_cycle(m as i32)
}

/// Stepping back undoes stepping forward for lanes of the cycle, and ten steps
/// pass every lane once.
pub proof fn law_lane_cycle_turns_back(i: int, dir: int)
    requires
        0 <= i < LANE_CYCLE_LEN,
    ensures
        lane_place(lane_at(i)) == i,
        lane_after(lane_after(lane_at(i), 1), -1) == lane_at(i),
        lane_after(lane_at(i), 10) == lane_at(i),
        lane_after(lane_at(i), dir) == lane_at((i + dir) % 10),
{
    assert((i + 1) % 10 == if i == 9 {
        0
    } else {
        i + 1
    });
}

} // verus!
