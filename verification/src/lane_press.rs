//! A button goes down on a velocity bar or in the lane.

use crate::articulation::{
    articulation_at, articulation_left_press, articulation_right_press, copy_events, nearest_marker, LanePress,
    ART_PALETTE_H,
};
use crate::cc_paint::{value_at_height, value_from_local_y};
use crate::cc_points::{copy_points, points_in, select_points};
use crate::drag::{
    notes_in_song, on_surface, points_in_song, CcLineDrag, CcMoveDrag, CcPaintDrag, LineDrag, PaintDrag, PianoDrag,
    VelocityDrag,
};
use crate::fixed::ID_LIMIT;
use crate::hit::{first_point_near, nearest_bar};
use crate::id_set::IdSet;
use crate::lane_edits::{event_delete_asks, point_delete_asks, point_deleted};
use crate::lane_motion::{cc_lined, cc_stroke_asks, cc_stroked, painted, status_is, velocity_lined, velocity_painted};
use crate::lanes::PianoTool;
use crate::marquee::{Marquee, MarqueeSelectionMode, Modifiers};
use crate::midi::{
    notes_in, snapshot_notes, ArticulationId, MidiControllerKind, MidiControllerPoint, MidiNote, DEFAULT_NOTE_VELOCITY,
};
use crate::motion::Pointer;
use crate::order::sorted;
use crate::press::retargeted;
use crate::roll::{clip_valid, local_point, ClipView, PianoRoll};
use crate::roll_edit::{asked, EditView, RollEdit};
use crate::scope::owner_index;
use crate::status::{grabbed_status, grabbed_text, reset_status, reset_text};
use crate::velocity::{snapshot_velocities, velocity_at, velocity_from_local_y, velocity_snapshot, VelocityCurve};
use crate::velocity_lane::{shown_notes, velocity_gesture_notes, Ramp, Stroke};
use crate::viewport::{beat_of_x, local_x_to_beat};
use vstd::prelude::*;

verus! {

/// Every id at the default velocity.
pub open spec fn all_default(ids: Seq<u64>) -> Seq<(u64, u8)> {
    ids.map_values(|id: u64| (id, DEFAULT_NOTE_VELOCITY))
}

fn defaults_for(ids: &Vec<u64>) -> (out: Vec<(u64, u8)>)
    ensures
        out@ == all_default(ids@),
{
    let mut out: Vec<(u64, u8)> = Vec::new();
    let mut i: usize = 0;
    while i < ids.len()
        invariant
            i <= ids@.len(),
            out@.len() == i,
            forall|k: int| 0 <= k < i ==> #[trigger] out@[k] == (ids@[k], DEFAULT_NOTE_VELOCITY),
        decreases ids@.len() - i,
    {
        out.push((ids[i], DEFAULT_NOTE_VELOCITY));
        i = i + 1;
    }
    assert(out@ =~= all_default(ids@));
    out
}

/// What a press on a velocity bar does.
#[derive(Debug, Clone, Copy, PartialEq, Eq, Structural)]
pub enum BarPress {
    /// Nothing: no clip is edited.
    Ignore,
    /// Turns the note's selection.
    Toggle,
    /// Adds the note to the selection.
    Extend,
    /// Resets the selection to the default velocity.
    Reset,
    /// Drags the bar.
    Grab,
}

/// Control toggles; Shift adds an unselected note; a double click resets.
pub open spec fn bar_press(selected: bool, m: Modifiers, clicks: usize, editing: bool) -> BarPress {
    if !editing {
        BarPress::Ignore
    } else if m.control || m.platform {
        BarPress::Toggle
    } else if m.shift && !selected {
        BarPress::Extend
    } else if clicks >= 2 {
        BarPress::Reset
    } else {
        BarPress::Grab
    }
}

/// A velocity bar has been pressed.
pub open spec fn bar_pressed(
    pre: PianoRoll,
    post: PianoRoll,
    id: u64,
    velocity: u8,
    p: Pointer,
    clicks: usize,
    clip: Option<&ClipView>,
) -> bool {
    let mid = PianoRoll { open_velocity_menu: None, ..pre };
    match bar_press(pre.selection@.contains(id), p.modifiers, clicks, clip is Some) {
        BarPress::Ignore => post == mid,
        BarPress::Toggle => {
            &&& post.selection@ == (if pre.selection@.contains(id) {
                pre.selection@.remove(id)
            } else {
                pre.selection@.insert(id)
            })
            &&& post == (PianoRoll { selection: post.selection, ..mid })
        },
        BarPress::Extend => {
            &&& post.selection@ == pre.selection@.insert(id)
            &&& post == (PianoRoll { selection: post.selection, ..mid })
        },
        BarPress::Reset => {
            &&& post.selection@ == retargeted(pre.selection@, id)
            &&& status_is(post, reset_text(post.selection.listed().len() as int))
            &&& post == (PianoRoll { selection: post.selection, drag_value_status: post.drag_value_status, ..mid })
        },
        BarPress::Grab => {
            let held = velocity_snapshot(notes_in(clip->0.notes@, post.selection@));
            &&& post.selection@ == retargeted(pre.selection@, id)
            &&& post.drag matches PianoDrag::Velocity(d) && d.prev@ == held && d.clip_id@ == clip->0.id@ && d == (
            VelocityDrag {
                clip_id: d.clip_id,
                prev: d.prev,
                anchor_orig: velocity,
                start_mouse_y: p.y,
                absolute: p.modifiers.alt,
                fine: p.modifiers.shift,
            })
            &&& status_is(post, grabbed_text(velocity as int, held.len() as int))
            &&& post == (PianoRoll {
                selection: post.selection,
                drag: post.drag,
                drag_value_status: post.drag_value_status,
                ..mid
            })
        },
    }
}

pub open spec fn bar_press_asks(pre: PianoRoll, post: PianoRoll, id: u64, p: Pointer, clicks: usize, clip: Option<&ClipView>) -> Option<
    EditView,
> {
    match bar_press(pre.selection@.contains(id), p.modifiers, clicks, clip is Some) {
        BarPress::Reset => Some(EditView::SetVelocities(clip->0.id@, all_default(post.selection.listed()))),
        _ => None,
    }
}

/// The visible notes in the order of their starts.
pub open spec fn gesture_notes(roll: PianoRoll, notes: Seq<MidiNote>) -> Seq<MidiNote> {
    sorted(shown_notes(notes, roll.channel_view))
}

/// A velocity paint has begun at a point of the lane.
pub open spec fn paint_begun(pre: PianoRoll, mid: PianoRoll, clip: ClipView, lx: i64, ly: i64) -> bool {
    &&& mid.drag matches PianoDrag::VelocityPaint(d) && d.clip_id@ == clip.id@ && d.original_notes@ == gesture_notes(
        pre,
        clip.notes@,
    ) && d.touched@ == Set::<u64>::empty() && d.last_x == lx && d.last_y == ly
    &&& mid == (PianoRoll { drag: mid.drag, ..pre })
}

/// A velocity ramp has begun at a point of the lane.
pub open spec fn line_begun(pre: PianoRoll, mid: PianoRoll, clip: ClipView, lx: int, ly: int, unsnap: bool) -> bool {
    let beat = pre.live_beat(lx, unsnap);
    let value = velocity_at(ly, pre.lane_size().1);
    &&& mid.drag matches PianoDrag::VelocityLine(d) && d.clip_id@ == clip.id@ && d.original_notes@ == gesture_notes(
        pre,
        clip.notes@,
    ) && d.affected@ == Set::<u64>::empty() && d.anchor_beat == beat && d.current_beat == beat && d.anchor_value
        == value && d.current_value == value && d.curve == VelocityCurve::Linear && d.unsnap == unsnap
    &&& mid == (PianoRoll { drag: mid.drag, ..pre })
}

/// A selection by velocity bars has begun.
pub open spec fn bar_select_begun(pre: PianoRoll, post: PianoRoll, clip: ClipView, lx: i64, ly: i64, mode: MarqueeSelectionMode) -> bool {
    &&& post.selection_before_marquee@ == pre.selection@
    &&& post.drag matches PianoDrag::VelocitySelect(id, m) && id@ == clip.id@ && m == Marquee::pressed(lx, ly, mode)
    &&& post == (PianoRoll { selection_before_marquee: post.selection_before_marquee, drag: post.drag, ..pre })
}

/// The velocity lane has been pressed.
pub open spec fn velocity_lane_pressed(pre: PianoRoll, post: PianoRoll, p: Pointer, clip: Option<&ClipView>) -> bool {
    let mid = PianoRoll { open_velocity_menu: None, ..pre };
    match (local_point(pre.lane_bounds, p.x, p.y), clip) {
        (Some(q), Some(c)) => if pre.tool == PianoTool::Line {
            exists|begun: PianoRoll| #[trigger]
                line_begun(mid, begun, *c, q.0 as int, q.1 as int, p.modifiers.shift) && velocity_lined(
                    begun,
                    post,
                    q.0 as int,
                    q.1 as int,
                )
        } else if pre.tool == PianoTool::Select || p.modifiers.shift || p.modifiers.control || p.modifiers.platform {
            bar_select_begun(mid, post, *c, q.0, q.1, MarqueeSelectionMode::for_modifiers(p.modifiers))
        } else {
            exists|begun: PianoRoll| #[trigger]
                paint_begun(mid, begun, *c, q.0, q.1) && velocity_painted(
                    begun,
                    post,
                    (Stroke { from_x: q.0, from_y: q.1, to_x: q.0, to_y: q.1 }),
                )
        },
        _ => post == mid,
    }
}

/// The values that a ramp sets where it begins.
pub open spec fn line_start_asks(pre: PianoRoll, clip: ClipView, lx: int, ly: int, unsnap: bool) -> Option<EditView> {
    let beat = pre.live_beat(lx, unsnap) as i64;
    let value = velocity_at(ly, pre.lane_size().1) as u8;
    let ramp = Ramp {
        anchor_beat: beat,
        anchor_value: value,
        cursor_beat: beat,
        cursor_value: value,
        curve: VelocityCurve::Linear,
    };
    Some(
        EditView::LiveVelocities(
            clip.id@,
            ramp.updates(gesture_notes(pre, clip.notes@), pre.selection@, Set::empty()),
        ),
    )
}

/// The values that painting sets where it begins.
pub open spec fn paint_start_asks(pre: PianoRoll, clip: ClipView, lx: i64, ly: i64) -> Option<EditView> {
    let values = painted(
        pre,
        gesture_notes(pre, clip.notes@),
        (Stroke { from_x: lx, from_y: ly, to_x: lx, to_y: ly }),
    );
    if values.len() == 0 {
        None
    } else {
        Some(EditView::LiveVelocities(clip.id@, values))
    }
}

/// The values that a press in the velocity lane sets at once.
pub open spec fn velocity_lane_asks(pre: PianoRoll, p: Pointer, clip: Option<&ClipView>) -> Option<EditView> {
    match (local_point(pre.lane_bounds, p.x, p.y), clip) {
        (Some(q), Some(c)) => if pre.tool == PianoTool::Line {
            line_start_asks(pre, *c, q.0 as int, q.1 as int, p.modifiers.shift)
        } else if pre.tool == PianoTool::Select || p.modifiers.shift || p.modifiers.control || p.modifiers.platform {
            None
        } else {
            paint_start_asks(pre, *c, q.0, q.1)
        },
        _ => None,
    }
}

/// The velocity menu has been opened, for a selection that it can act on.
pub open spec fn velocity_menu_opened(pre: PianoRoll, post: PianoRoll, p: Pointer, clip: Option<&ClipView>) -> bool {
    match (local_point(pre.lane_bounds, p.x, p.y), clip) {
        (Some(q), Some(c)) => {
            let selection = match nearest_bar(pre, c.notes@, q.0 as int) {
                Some(i) => retargeted(pre.selection@, c.notes@[i].id),
                None => pre.selection@,
            };
            &&& post.selection@ == selection
            &&& post == (PianoRoll {
                selection: post.selection,
                open_velocity_menu: if selection == Set::<u64>::empty() {
                    None
                } else {
                    Some((q.0, q.1))
                },
                ..pre
            })
        },
        _ => post == pre,
    }
}

/// What a left press in the controller lane does.
#[derive(Debug, Clone, Copy, PartialEq, Eq, Structural)]
pub enum CcPress {
    /// Draws freely, from an empty selection.
    Paint { free: bool },
    /// Draws a ramp.
    Ramp { unsnap: bool },
    /// Moves the point under the pointer with the selected ones.
    Grab { id: u64, unsnap: bool },
    /// Adds the point to the selection and moves it.
    GrabMore { id: u64, unsnap: bool },
    /// Takes the point out of the selection.
    Release { id: u64 },
    /// Adds the point to the selection.
    Extend { id: u64 },
    /// Selects by a rectangle.
    Select,
}

/// What a left press does, with the point under the pointer.
pub open spec fn cc_press(tool: PianoTool, m: Modifiers, point: Option<u64>, selection: Set<u64>) -> CcPress {
    if m.alt && tool != PianoTool::Line {
        match point {
            Some(id) => CcPress::Grab { id, unsnap: true },
            None => CcPress::Paint { free: true },
        }
    } else if tool == PianoTool::Line || (m.shift && tool != PianoTool::Select) {
        CcPress::Ramp { unsnap: m.alt || (tool == PianoTool::Line && m.shift) }
    } else {
        match point {
            Some(id) => if m.control || m.platform {
                if selection.contains(id) {
                    CcPress::Release { id }
                } else {
                    CcPress::GrabMore { id, unsnap: m.alt }
                }
            } else if m.shift && tool == PianoTool::Select {
                CcPress::Extend { id }
            } else {
                CcPress::Grab { id, unsnap: m.alt || m.shift }
            },
            None => if tool == PianoTool::Select {
                CcPress::Select
            } else {
                CcPress::Paint { free: m.alt }
            },
        }
    }
}

/// Alt is never taken for a selection: it draws freely in every tool but the
/// line tool, which keeps it for a free ramp.
pub proof fn law_alt_always_draws_free(tool: PianoTool, m: Modifiers, point: Option<u64>, selection: Set<u64>)
    requires
        m.alt,
    ensures
        match cc_press(tool, m, point, selection) {
            CcPress::Paint { free } => free,
            CcPress::Ramp { unsnap } => unsnap,
            CcPress::Grab { id, unsnap } => unsnap,
            _ => false,
        },
{
}

/// What a left press does, with the point under the pointer.
pub fn cc_left_press(tool: PianoTool, m: Modifiers, point: Option<u64>, selection: &IdSet) -> (r: CcPress)
    ensures
        r == cc_press(tool, m, point, selection@),
{
    if m.alt && tool != PianoTool::Line {
        return match point {
            Some(id) => CcPress::Grab { id, unsnap: true },
            None => CcPress::Paint { free: true },
        };
    }
    if tool == PianoTool::Line || (m.shift && tool != PianoTool::Select) {
        return CcPress::Ramp { unsnap: m.alt || (tool == PianoTool::Line && m.shift) };
    }
    match point {
        Some(id) => {
            if m.control || m.platform {
                if selection.contains(id) {
                    CcPress::Release { id }
                } else {
                    CcPress::GrabMore { id, unsnap: m.alt }
                }
            } else if m.shift && tool == PianoTool::Select {
                CcPress::Extend { id }
            } else {
                CcPress::Grab { id, unsnap: m.alt || m.shift }
            }
        },
        None => {
            if tool == PianoTool::Select {
                CcPress::Select
            } else {
                CcPress::Paint { free: m.alt }
            }
        },
    }
}

/// The roll remembers the lane's points for the end of a gesture.
pub open spec fn lane_remembered(post: PianoRoll, kind: MidiControllerKind, clip: ClipView) -> bool {
    &&& post.cc_edit_prev matches Some(p) && p@ == clip.points@
    &&& post.cc_edit_target matches Some(t) && t.0@ == clip.id@ && t.1 == kind
}

/// A controller stroke has begun.
pub open spec fn cc_paint_begun(pre: PianoRoll, mid: PianoRoll, clip: ClipView, erase: bool, unsnap: bool) -> bool {
    &&& lane_remembered(mid, pre.active_cc, clip)
    &&& mid == (PianoRoll {
        cc_edit_prev: mid.cc_edit_prev,
        cc_edit_target: mid.cc_edit_target,
        drag: PianoDrag::CcPaint(CcPaintDrag { erase, last: None, unsnap }),
        ..pre
    })
}

/// A controller stroke has begun and made its first point.
pub open spec fn cc_painted(
    pre: PianoRoll,
    post: PianoRoll,
    clip: Option<&ClipView>,
    erase: bool,
    unsnap: bool,
    lx: i64,
    ly: i64,
) -> bool {
    match clip {
        Some(c) => exists|mid: PianoRoll| #[trigger]
            cc_paint_begun(pre, mid, *c, erase, unsnap) && cc_stroked(mid, post, lx, ly, clip),
        None => post == pre,
    }
}

pub open spec fn cc_paint_asks(
    pre: PianoRoll,
    clip: Option<&ClipView>,
    erase: bool,
    unsnap: bool,
    lx: i64,
    ly: i64,
    next_id: u64,
) -> Option<EditView> {
    cc_stroke_asks(
        (PianoRoll { drag: PianoDrag::CcPaint(CcPaintDrag { erase, last: None, unsnap }), ..pre }),
        lx,
        ly,
        clip,
        next_id,
    )
}

/// A controller ramp has begun.
pub open spec fn cc_line_begun(pre: PianoRoll, mid: PianoRoll, clip: ClipView, lx: int, ly: int, unsnap: bool) -> bool {
    &&& lane_remembered(mid, pre.active_cc, clip)
    &&& mid == (PianoRoll {
        cc_edit_prev: mid.cc_edit_prev,
        cc_edit_target: mid.cc_edit_target,
        drag: PianoDrag::CcLine(
            CcLineDrag {
                anchor_beat: pre.live_beat(lx, unsnap) as i64,
                anchor_value: value_at_height(ly, pre.lane_size().1) as i64,
                unsnap,
            },
        ),
        ..pre
    })
}

/// A controller ramp has begun and made its first point.
pub open spec fn cc_ramped(pre: PianoRoll, post: PianoRoll, clip: Option<&ClipView>, lx: int, ly: int, unsnap: bool) -> bool {
    match clip {
        Some(c) => exists|mid: PianoRoll| #[trigger]
            cc_line_begun(pre, mid, *c, lx, ly, unsnap) && cc_lined(mid, post, lx, ly, clip),
        None => post == pre,
    }
}

/// Id, beat and value of each point.
pub open spec fn point_places(points: Seq<MidiControllerPoint>) -> Seq<(u64, i64, i64)> {
    points.map_values(|p: MidiControllerPoint| (p.id, p.beat, p.value))
}

/// Beat and value of the first entry for an id.
pub open spec fn place_of(places: Seq<(u64, i64, i64)>, id: u64) -> (i64, i64)
    decreases places.len(),
{
    if places.len() == 0 {
        (0, 0)
    } else if places[0].0 == id {
        (places[0].1, places[0].2)
    } else {
        place_of(places.drop_first(), id)
    }
}

/// A move of controller points has begun.
pub open spec fn cc_move_begun(pre: PianoRoll, post: PianoRoll, id: u64, unsnap: bool, clip: Option<&ClipView>) -> bool {
    match clip {
        Some(c) => {
            let places = point_places(points_in(c.points@, post.cc_selection@));
            &&& post.cc_selection@ == retargeted(pre.cc_selection@, id)
            &&& lane_remembered(post, pre.active_cc, *c)
            &&& post.drag matches PianoDrag::CcMove(d) && d.prev@ == places && d.ids@ == places.map_values(
                |q: (u64, i64, i64)| q.0,
            ) && d == (CcMoveDrag {
                ids: d.ids,
                prev: d.prev,
                anchor_beat: place_of(places, id).0,
                anchor_value: place_of(places, id).1,
                unsnap,
            })
            &&& post == (PianoRoll {
                cc_selection: post.cc_selection,
                cc_edit_prev: post.cc_edit_prev,
                cc_edit_target: post.cc_edit_target,
                drag: post.drag,
                ..pre
            })
        },
        None => post == pre,
    }
}

/// A selection of controller points has begun.
pub open spec fn cc_select_begun(pre: PianoRoll, post: PianoRoll, clip: Option<&ClipView>, lx: i64, ly: i64, mode: MarqueeSelectionMode) -> bool {
    match clip {
        Some(c) => {
            &&& post.cc_selection_before_marquee@ == pre.cc_selection@
            &&& post.drag matches PianoDrag::CcSelect(id, kind, m) && id@ == c.id@ && kind == pre.active_cc && m
                == Marquee::pressed(lx, ly, mode)
            &&& post == (PianoRoll {
                cc_selection_before_marquee: post.cc_selection_before_marquee,
                drag: post.drag,
                ..pre
            })
        },
        None => post == pre,
    }
}

/// The point of the lane under the pointer.
pub open spec fn point_under(roll: PianoRoll, clip: Option<&ClipView>, lx: int, ly: int) -> Option<u64> {
    match clip {
        Some(c) => first_point_near(roll, c.points@, lx, ly),
        None => None,
    }
}

/// The selection of points is another.
pub open spec fn points_selected(pre: PianoRoll, post: PianoRoll, ids: Set<u64>) -> bool {
    post.cc_selection@ == ids && post == (PianoRoll { cc_selection: post.cc_selection, ..pre })
}

/// The controller lane has been pressed with the left button.
pub open spec fn cc_lane_pressed(pre: PianoRoll, post: PianoRoll, p: Pointer, clip: Option<&ClipView>) -> bool {
    let closed = PianoRoll { open_cc_curve_menu: None, ..pre };
    match local_point(pre.lane_bounds, p.x, p.y) {
        None => post == closed,
        Some(q) => match cc_press(
            pre.tool,
            p.modifiers,
            point_under(pre, clip, q.0 as int, q.1 as int),
            pre.cc_selection@,
        ) {
            CcPress::Paint { free } => exists|mid: PianoRoll| #[trigger]
                points_selected(closed, mid, Set::empty()) && cc_painted(mid, post, clip, false, free, q.0, q.1),
            CcPress::Ramp { unsnap } => cc_ramped(closed, post, clip, q.0 as int, q.1 as int, unsnap),
            CcPress::Grab { id, unsnap } => cc_move_begun(closed, post, id, unsnap, clip),
            CcPress::GrabMore { id, unsnap } => exists|mid: PianoRoll| #[trigger]
                points_selected(closed, mid, pre.cc_selection@.insert(id)) && cc_move_begun(mid, post, id, unsnap, clip),
            CcPress::Release { id } => points_selected(closed, post, pre.cc_selection@.remove(id)),
            CcPress::Extend { id } => points_selected(closed, post, pre.cc_selection@.insert(id)),
            CcPress::Select => cc_select_begun(
                closed,
                post,
                clip,
                q.0,
                q.1,
                MarqueeSelectionMode::for_modifiers(p.modifiers),
            ),
        },
    }
}

pub open spec fn cc_lane_asks(pre: PianoRoll, p: Pointer, clip: Option<&ClipView>, next_id: u64) -> Option<EditView> {
    match local_point(pre.lane_bounds, p.x, p.y) {
        None => None,
        Some(q) => match cc_press(
            pre.tool,
            p.modifiers,
            point_under(pre, clip, q.0 as int, q.1 as int),
            pre.cc_selection@,
        ) {
            CcPress::Paint { free } => cc_paint_asks(pre, clip, false, free, q.0, q.1, next_id),
            CcPress::Ramp { unsnap } => cc_ramp_asks(pre, clip, q.0 as int, q.1 as int, unsnap, next_id),
            _ => None,
        },
    }
}

/// The first points of a ramp: a single one under the pointer.
pub open spec fn cc_ramp_asks(pre: PianoRoll, clip: Option<&ClipView>, lx: int, ly: int, unsnap: bool, next_id: u64) -> Option<
    EditView,
> {
    match clip {
        Some(c) => {
            let d = CcLineDrag {
                anchor_beat: pre.live_beat(lx, unsnap) as i64,
                anchor_value: value_at_height(ly, pre.lane_size().1) as i64,
                unsnap,
            };
            Some(
                EditView::LivePoints(
                    c.id@,
                    pre.active_cc,
                    crate::cc_paint::line_points(c.points@, crate::lane_motion::cc_ramp(pre, d, lx, ly), next_id),
                ),
            )
        },
        None => None,
    }
}

/// The controller lane has been pressed with the right button: a point is
/// deleted, Alt erases along a stroke, and an empty place opens the curve menu.
pub open spec fn cc_lane_right_pressed(pre: PianoRoll, post: PianoRoll, p: Pointer, clip: Option<&ClipView>) -> bool {
    match local_point(pre.lane_bounds, p.x, p.y) {
        None => post == pre,
        Some(q) => if p.modifiers.alt {
            cc_painted(pre, post, clip, true, true, q.0, q.1)
        } else {
            match point_under(pre, clip, q.0 as int, q.1 as int) {
                Some(id) => point_deleted(pre, post, id, clip),
                None => post == (PianoRoll { open_cc_curve_menu: Some((q.0, q.1)), ..pre }),
            }
        },
    }
}

pub open spec fn cc_lane_right_asks(pre: PianoRoll, p: Pointer, clip: Option<&ClipView>, next_id: u64) -> Option<EditView> {
    match local_point(pre.lane_bounds, p.x, p.y) {
        None => None,
        Some(q) => if p.modifiers.alt {
            cc_paint_asks(pre, clip, true, true, q.0, q.1, next_id)
        } else {
            match point_under(pre, clip, q.0 as int, q.1 as int) {
                Some(id) => point_delete_asks(pre, id, clip),
                None => None,
            }
        },
    }
}

/// Another clip of the track that a point of the lane lies in.
pub open spec fn other_clip_under(roll: PianoRoll, lx: int) -> Option<Seq<char>> {
    let spans = roll.scope@;
    match owner_index(spans, beat_of_x(lx, roll.ppb as int, roll.scroll_x as int)) {
        Some(i) => if spans[i].editable {
            None
        } else {
            Some(spans[i].clip_id@)
        },
        None => None,
    }
}

/// A move of an articulation has begun.
pub open spec fn event_move_begun(pre: PianoRoll, post: PianoRoll, id: u64, clip: Option<&ClipView>) -> bool {
    match clip {
        Some(c) => {
            &&& post.art_edit_prev matches Some(e) && e@ == c.articulations@
            &&& post == (PianoRoll {
                art_edit_prev: post.art_edit_prev,
                selected_articulation: Some(id),
                drag: PianoDrag::ArtMove(id),
                ..pre
            })
        },
        None => post == pre,
    }
}

/// The marker of the lane under the pointer.
pub open spec fn marker_under(roll: PianoRoll, clip: Option<&ClipView>, lx: int) -> Option<u64> {
    match clip {
        Some(c) => match nearest_marker(c.articulations@, roll.axis(), lx) {
            Some(i) => Some(c.articulations@[i].id),
            None => None,
        },
        None => None,
    }
}

/// What a left press in the articulation lane does.
pub open spec fn event_press(roll: PianoRoll, clip: Option<&ClipView>, lx: int, ly: int) -> LanePress {
    if ly <= ART_PALETTE_H || clip is None {
        LanePress::Ignore
    } else {
        match marker_under(roll, clip, lx) {
            Some(id) => LanePress::Move(id),
            None => LanePress::Insert,
        }
    }
}

fn point_places_of(points: &Vec<MidiControllerPoint>) -> (r: (Vec<(u64, i64, i64)>, Vec<u64>))
    ensures
        r.0@ == point_places(points@),
        r.1@ == point_places(points@).map_values(|q: (u64, i64, i64)| q.0),
{
    let mut places: Vec<(u64, i64, i64)> = Vec::new();
    let mut ids: Vec<u64> = Vec::new();
    let mut i: usize = 0;
    while i < points.len()
        invariant
            i <= points@.len(),
            places@.len() == i,
            ids@.len() == i,
            forall|k: int| 0 <= k < i ==> #[trigger] places@[k] == (points@[k].id, points@[k].beat, points@[k].value),
            forall|k: int| 0 <= k < i ==> #[trigger] ids@[k] == points@[k].id,
        decreases points@.len() - i,
    {
        places.push((points[i].id, points[i].beat, points[i].value));
        ids.push(points[i].id);
        i = i + 1;
    }
    assert(places@ =~= point_places(points@));
    assert(ids@ =~= point_places(points@).map_values(|q: (u64, i64, i64)| q.0));
    (places, ids)
}

proof fn lemma_place_found(places: Seq<(u64, i64, i64)>, id: u64, at: int)
    requires
        0 <= at <= places.len(),
        forall|k: int| 0 <= k < at ==> (#[trigger] places[k]).0 != id,
        at < places.len() ==> places[at].0 == id,
    ensures
        place_of(places, id) == (if at < places.len() {
            (places[at].1, places[at].2)
        } else {
            (0i64, 0i64)
        }),
    decreases places.len(),
{
    if places.len() > 0 && at > 0 {
        let rest = places.drop_first();
        assert forall|k: int| 0 <= k < at - 1 implies (#[trigger] rest[k]).0 != id by {
            assert(rest[k] == places[k + 1]);
        }
        if at < places.len() {
            assert(rest[at - 1] == places[at]);
        }
        lemma_place_found(rest, id, at - 1);
    }
}

fn find_place(places: &Vec<(u64, i64, i64)>, id: u64) -> (r: (i64, i64))
    requires
        forall|k: int|
            0 <= k < places@.len() ==> crate::drag::reachable((#[trigger] places@[k]).1 as int)
                && crate::drag::is_value(places@[k].2 as int),
    ensures
        r == place_of(places@, id),
        crate::drag::reachable(r.0 as int),
        crate::drag::is_value(r.1 as int),
{
    let mut i: usize = 0;
    while i < places.len()
        invariant
            i <= places@.len(),
            forall|k: int| 0 <= k < i ==> (#[trigger] places@[k]).0 != id,
            forall|k: int|
                0 <= k < places@.len() ==> crate::drag::reachable((#[trigger] places@[k]).1 as int)
                    && crate::drag::is_value(places@[k].2 as int),
        decreases places@.len() - i,
    {
        if places[i].0 == id {
            proof {
                lemma_place_found(places@, id, i as int);
            }
            return (places[i].1, places[i].2);
        }
        i = i + 1;
    }
    proof {
        lemma_place_found(places@, id, i as int);
    }
    (0, 0)
}

proof fn lemma_gesture_notes_in_song(notes: Seq<MidiNote>, view: crate::midi::MidiChannelMask)
    requires
        notes_in_song(notes),
    ensures
        notes_in_song(sorted(shown_notes(notes, view))),
{
    let p = |n: MidiNote| view.shows(n.channel);
    let s = shown_notes(notes, view);
    notes.lemma_filter_len(p);
    crate::order::law_sorted_is_an_ordered_arrangement(s);
    assert forall|i: int| 0 <= i < sorted(s).len() implies crate::drag::note_in_song(#[trigger] sorted(s)[i]) by {
        let e = sorted(s)[i];
        assert(sorted(s).contains(e));
        crate::order::lemma_sorted_contains(s, e);
        notes.lemma_filter_contains_rev(p, e);
    }
}

proof fn lemma_points_in_song(points: Seq<MidiControllerPoint>, ids: Set<u64>)
    requires
        points_in_song(points),
    ensures
        forall|k: int|
            0 <= k < point_places(points_in(points, ids)).len() ==> crate::drag::reachable(
                (#[trigger] point_places(points_in(points, ids))[k]).1 as int,
            ) && crate::drag::is_value(point_places(points_in(points, ids))[k].2 as int),
{
    let q = |p: MidiControllerPoint| ids.contains(p.id);
    let s = points_in(points, ids);
    assert forall|k: int| 0 <= k < point_places(s).len() implies crate::drag::reachable(
        (#[trigger] point_places(s)[k]).1 as int,
    ) && crate::drag::is_value(point_places(s)[k].2 as int) by {
        points.lemma_filter_contains_rev(q, s[k]);
        let j = choose|j: int| 0 <= j < points.len() && points[j] == s[k];
        assert(points[j] == s[k]);
    }
}

impl PianoRoll {
    /// Does what the modifiers make of a press on a velocity bar.
    #[verifier::rlimit(60)]
    pub fn begin_velocity_drag(
        &mut self,
        id: u64,
        velocity: u8,
        p: Pointer,
        clicks: usize,
        clip: Option<&ClipView>,
    ) -> (edit: Option<RollEdit>)
        requires
            old(self).valid(),
            p.valid(),
            clip_valid(clip),
        ensures
            bar_pressed(*old(self), *final(self), id, velocity, p, clicks, clip),
            asked(edit) == bar_press_asks(*old(self), *final(self), id, p, clicks, clip),
            final(self).valid(),
    {
        self.open_velocity_menu = None;
        let c = match clip {
            Some(c) => c,
            None => {
                return None;
            },
        };
        if p.modifiers.control || p.modifiers.platform {
            self.selection.toggle(id);
            return None;
        }
        if p.modifiers.shift && !self.selection.contains(id) {
            self.selection.insert(id);
            return None;
        }
        if clicks >= 2 {
            self.retarget_selection(id);
            let ids = self.selection.to_list();
            self.drag_value_status = Some(reset_status(ids.len()));
            return Some(RollEdit::SetVelocities { clip_id: c.id.clone(), targets: defaults_for(&ids) });
        }
        self.retarget_selection(id);
        let held = snapshot_notes(&c.notes, &self.selection);
        let prev = snapshot_velocities(&held);
        self.drag_value_status = Some(grabbed_status(velocity, prev.len()));
        self.drag = PianoDrag::Velocity(
            VelocityDrag {
                clip_id: c.id.clone(),
                prev,
                anchor_orig: velocity,
                start_mouse_y: p.y,
                absolute: p.modifiers.alt,
                fine: p.modifiers.shift,
            },
        );
        None
    }

    /// Begins what the tool makes of a press in the velocity lane.
    pub fn begin_velocity_lane_click(&mut self, p: Pointer, clip: Option<&ClipView>) -> (edit: Option<RollEdit>)
        requires
            old(self).valid(),
            p.valid(),
            clip_valid(clip),
        ensures
            velocity_lane_pressed(*old(self), *final(self), p, clip),
            asked(edit) == velocity_lane_asks(*old(self), p, clip),
            final(self).valid(),
    {
        self.open_velocity_menu = None;
        let c = match clip {
            Some(c) => c,
            None => {
                return None;
            },
        };
        let (lx, ly) = match self.cc_local(p.x, p.y) {
            Some(q) => q,
            None => {
                return None;
            },
        };
        let m = p.modifiers;
        if self.tool == PianoTool::Line {
            self.begin_velocity_line(c, lx, ly, m.shift)
        } else if self.tool == PianoTool::Select || m.shift || m.control || m.platform {
            let mode = MarqueeSelectionMode::from_modifiers(m);
            self.selection_before_marquee = self.selection.copy();
            self.drag = PianoDrag::VelocitySelect(c.id.clone(), Marquee::at(lx, ly, mode));
            None
        } else {
            self.begin_velocity_paint(c, lx, ly)
        }
    }

    /// Begins a velocity ramp.
    pub fn begin_velocity_line(&mut self, clip: &ClipView, lx: i64, ly: i64, unsnap: bool) -> (edit: Option<RollEdit>)
        requires
            old(self).valid(),
            clip.valid(),
            on_surface(lx as int) && on_surface(ly as int),
        ensures
            exists|begun: PianoRoll| #[trigger]
                line_begun(*old(self), begun, *clip, lx as int, ly as int, unsnap) && velocity_lined(
                    begun,
                    *final(self),
                    lx as int,
                    ly as int,
                ),
            asked(edit) == line_start_asks(*old(self), *clip, lx as int, ly as int, unsnap),
            final(self).valid(),
    {
        let beat = self.live_beat_at(lx, unsnap);
        let (_w, lane_h) = self.cc_view_size();
        let value = velocity_from_local_y(ly, lane_h);
        let original_notes = velocity_gesture_notes(&clip.notes, self.channel_view);
        proof {
            lemma_gesture_notes_in_song(clip.notes@, self.channel_view);
        }
        self.drag = PianoDrag::VelocityLine(
            LineDrag {
                clip_id: clip.id.clone(),
                original_notes,
                affected: IdSet::new(),
                anchor_beat: beat,
                anchor_value: value,
                current_beat: beat,
                current_value: value,
                curve: VelocityCurve::Linear,
                unsnap,
            },
        );
        assert(line_begun(*old(self), *self, *clip, lx as int, ly as int, unsnap));
        self.update_velocity_line(lx, ly)
    }

    /// Begins to paint velocities.
    pub fn begin_velocity_paint(&mut self, clip: &ClipView, lx: i64, ly: i64) -> (edit: Option<RollEdit>)
        requires
            old(self).valid(),
            clip.valid(),
            on_surface(lx as int) && on_surface(ly as int),
        ensures
            exists|begun: PianoRoll| #[trigger]
                paint_begun(*old(self), begun, *clip, lx, ly) && velocity_painted(
                    begun,
                    *final(self),
                    (Stroke { from_x: lx, from_y: ly, to_x: lx, to_y: ly }),
                ),
            asked(edit) == paint_start_asks(*old(self), *clip, lx, ly),
            final(self).valid(),
    {
        let original_notes = velocity_gesture_notes(&clip.notes, self.channel_view);
        proof {
            lemma_gesture_notes_in_song(clip.notes@, self.channel_view);
        }
        self.drag = PianoDrag::VelocityPaint(
            PaintDrag { clip_id: clip.id.clone(), original_notes, touched: IdSet::new(), last_x: lx, last_y: ly },
        );
        assert(paint_begun(*old(self), *self, *clip, lx, ly));
        let stroke = Stroke { from_x: lx, from_y: ly, to_x: lx, to_y: ly };
        assert(painted(*self, gesture_notes(*old(self), clip.notes@), stroke) =~= painted(
            *old(self),
            gesture_notes(*old(self), clip.notes@),
            stroke,
        ));
        self.paint_velocity_segment(stroke)
    }

    /// Opens the velocity menu for the bar under the pointer.
    pub fn open_velocity_context_menu(&mut self, p: Pointer, clip: Option<&ClipView>)
        requires
            old(self).valid(),
            p.valid(),
            clip_valid(clip),
        ensures
            velocity_menu_opened(*old(self), *final(self), p, clip),
            final(self).valid(),
    {
        let c = match clip {
            Some(c) => c,
            None => {
                return ;
            },
        };
        let (lx, ly) = match self.cc_local(p.x, p.y) {
            Some(q) => q,
            None => {
                return ;
            },
        };
        match self.velocity_note_at_x(&c.notes, lx) {
            Some(hit) => {
                self.retarget_selection(hit.0);
            },
            None => {},
        }
        if self.selection.is_empty() {
            self.open_velocity_menu = None;
        } else {
            self.open_velocity_menu = Some((lx, ly));
        }
    }

    /// Begins to draw or erase controller points.
    pub fn begin_cc_paint(
        &mut self,
        erase: bool,
        unsnap: bool,
        lx: i64,
        ly: i64,
        clip: Option<&ClipView>,
        next_id: u64,
    ) -> (edit: Option<RollEdit>)
        requires
            old(self).valid(),
            clip_valid(clip),
            on_surface(lx as int) && on_surface(ly as int),
            next_id <= ID_LIMIT,
        ensures
            cc_painted(*old(self), *final(self), clip, erase, unsnap, lx, ly),
            asked(edit) == cc_paint_asks(*old(self), clip, erase, unsnap, lx, ly, next_id),
            final(self).valid(),
    {
        let c = match clip {
            Some(c) => c,
            None => {
                return None;
            },
        };
        self.cc_edit_prev = Some(copy_points(&c.points));
        self.cc_edit_target = Some((c.id.clone(), self.active_cc));
        self.drag = PianoDrag::CcPaint(CcPaintDrag { erase, last: None, unsnap });
        assert(cc_paint_begun(*old(self), *self, *c, erase, unsnap));
        self.cc_paint_stroke_to(lx, ly, clip, next_id)
    }

    /// Begins to draw a controller ramp.
    pub fn begin_cc_line(&mut self, lx: i64, ly: i64, unsnap: bool, clip: Option<&ClipView>, next_id: u64) -> (edit: Option<
        RollEdit,
    >)
        requires
            old(self).valid(),
            clip_valid(clip),
            on_surface(lx as int) && on_surface(ly as int),
            next_id <= ID_LIMIT,
        ensures
            cc_ramped(*old(self), *final(self), clip, lx as int, ly as int, unsnap),
            asked(edit) == cc_ramp_asks(*old(self), clip, lx as int, ly as int, unsnap, next_id),
            final(self).valid(),
    {
        let c = match clip {
            Some(c) => c,
            None => {
                return None;
            },
        };
        self.cc_edit_prev = Some(copy_points(&c.points));
        self.cc_edit_target = Some((c.id.clone(), self.active_cc));
        let anchor_beat = self.live_beat_at(lx, unsnap);
        let (_w, lane_h) = self.cc_view_size();
        let anchor_value = value_from_local_y(ly, lane_h);
        self.drag = PianoDrag::CcLine(CcLineDrag { anchor_beat, anchor_value, unsnap });
        assert(cc_line_begun(*old(self), *self, *c, lx as int, ly as int, unsnap));
        self.cc_line_to(lx, ly, clip, next_id)
    }

    /// Begins to move a controller point, and the selected ones with it.
    pub fn begin_cc_move(&mut self, id: u64, unsnap: bool, clip: Option<&ClipView>)
        requires
            old(self).valid(),
            clip_valid(clip),
        ensures
            cc_move_begun(*old(self), *final(self), id, unsnap, clip),
            final(self).valid(),
    {
        let c = match clip {
            Some(c) => c,
            None => {
                return ;
            },
        };
        if !self.cc_selection.contains(id) {
            self.cc_selection = IdSet::single(id);
        }
        let held = select_points(&c.points, &self.cc_selection);
        let (prev, ids) = point_places_of(&held);
        proof {
            lemma_points_in_song(c.points@, self.cc_selection@);
        }
        let (anchor_beat, anchor_value) = find_place(&prev, id);
        self.cc_edit_prev = Some(copy_points(&c.points));
        self.cc_edit_target = Some((c.id.clone(), self.active_cc));
        self.drag = PianoDrag::CcMove(CcMoveDrag { ids, prev, anchor_beat, anchor_value, unsnap });
    }

    /// Begins to select controller points by a rectangle.
    pub fn begin_cc_select(&mut self, lx: i64, ly: i64, mode: MarqueeSelectionMode, clip: Option<&ClipView>)
        requires
            old(self).valid(),
            on_surface(lx as int) && on_surface(ly as int),
        ensures
            cc_select_begun(*old(self), *final(self), clip, lx, ly, mode),
            final(self).valid(),
    {
        match clip {
            Some(c) => {
                self.cc_selection_before_marquee = self.cc_selection.copy();
                self.drag = PianoDrag::CcSelect(c.id.clone(), self.active_cc, Marquee::at(lx, ly, mode));
            },
            None => {},
        }
    }

    /// Does what the tool and the modifiers make of a left press in the
    /// controller lane.
    pub fn cc_lane_down(&mut self, p: Pointer, clip: Option<&ClipView>, next_id: u64) -> (edit: Option<RollEdit>)
        requires
            old(self).valid(),
            p.valid(),
            clip_valid(clip),
            next_id <= ID_LIMIT,
        ensures
            cc_lane_pressed(*old(self), *final(self), p, clip),
            asked(edit) == cc_lane_asks(*old(self), p, clip, next_id),
            final(self).valid(),
    {
        let (lx, ly) = match self.cc_local(p.x, p.y) {
            Some(q) => q,
            None => {
                self.open_cc_curve_menu = None;
                return None;
            },
        };
        let point = match clip {
            Some(c) => self.cc_point_at(&c.points, lx, ly),
            None => None,
        };
        let what = cc_left_press(self.tool, p.modifiers, point, &self.cc_selection);
        self.open_cc_curve_menu = None;
        let ghost closed = *self;
        match what {
            CcPress::Paint { free } => {
                self.cc_selection.clear();
                assert(points_selected(closed, *self, Set::empty()));
                self.begin_cc_paint(false, free, lx, ly, clip, next_id)
            },
            CcPress::Ramp { unsnap } => self.begin_cc_line(lx, ly, unsnap, clip, next_id),
            CcPress::Grab { id, unsnap } => {
                self.begin_cc_move(id, unsnap, clip);
                None
            },
            CcPress::GrabMore { id, unsnap } => {
                self.cc_selection.insert(id);
                assert(points_selected(closed, *self, closed.cc_selection@.insert(id)));
                self.begin_cc_move(id, unsnap, clip);
                None
            },
            CcPress::Release { id } => {
                self.cc_selection.remove(id);
                None
            },
            CcPress::Extend { id } => {
                self.cc_selection.insert(id);
                None
            },
            CcPress::Select => {
                self.begin_cc_select(lx, ly, MarqueeSelectionMode::from_modifiers(p.modifiers), clip);
                None
            },
        }
    }

    /// Does what the modifiers make of a right press in the controller lane.
    pub fn cc_lane_right_down(&mut self, p: Pointer, clip: Option<&ClipView>, next_id: u64) -> (edit: Option<RollEdit>)
        requires
            old(self).valid(),
            p.valid(),
            clip_valid(clip),
            next_id <= ID_LIMIT,
        ensures
            cc_lane_right_pressed(*old(self), *final(self), p, clip),
            asked(edit) == cc_lane_right_asks(*old(self), p, clip, next_id),
            final(self).valid(),
    {
        let (lx, ly) = match self.cc_local(p.x, p.y) {
            Some(q) => q,
            None => {
                return None;
            },
        };
        if p.modifiers.alt {
            return self.begin_cc_paint(true, true, lx, ly, clip, next_id);
        }
        let point = match clip {
            Some(c) => self.cc_point_at(&c.points, lx, ly),
            None => None,
        };
        match point {
            Some(id) => self.delete_cc_point(id, clip).1,
            None => {
                self.open_cc_curve_menu = Some((lx, ly));
                None
            },
        }
    }

    /// Another clip of the track under a point of the lane, which becomes the
    /// edited one before anything is written.
    pub fn retarget_to_clip_under(&self, lx: i64) -> (r: Option<String>)
        requires
            self.valid(),
            on_surface(lx as int),
        ensures
            match r {
                Some(id) => other_clip_under(*self, lx as int) == Some(id@),
                None => other_clip_under(*self, lx as int) is None,
            },
    {
        proof {
            crate::roll::lemma_scroll_bound(self.scroll_x as int, self.ppb as int);
        }
        let beat = local_x_to_beat(lx, self.ppb, self.scroll_x);
        match self.scope.owner_at(beat) {
            Some(span) => {
                if span.editable {
                    None
                } else {
                    Some(span.clip_id.clone())
                }
            },
            None => None,
        }
    }

    /// Begins to move an articulation.
    pub fn begin_articulation_move(&mut self, id: u64, clip: Option<&ClipView>)
        requires
            old(self).valid(),
            clip_valid(clip),
        ensures
            event_move_begun(*old(self), *final(self), id, clip),
            final(self).valid(),
    {
        match clip {
            Some(c) => {
                self.art_edit_prev = Some(copy_events(&c.articulations));
                self.selected_articulation = Some(id);
                self.drag = PianoDrag::ArtMove(id);
            },
            None => {},
        }
    }

    /// Asks for the palette's articulation at a beat.
    pub fn insert_articulation_at(&self, clip: &ClipView, beat: i64) -> (edit: RollEdit)
        ensures
            edit@ == EditView::InsertEvent(clip.id@, beat as int, self.insert_articulation),
    {
        RollEdit::InsertEvent { clip_id: clip.id.clone(), beat, articulation: self.insert_articulation }
    }

    fn marker_at(&self, clip: Option<&ClipView>, lx: i64) -> (r: Option<u64>)
        requires
            self.valid(),
            clip_valid(clip),
            on_surface(lx as int),
        ensures
            r == marker_under(*self, clip, lx as int),
    {
        match clip {
            Some(c) => articulation_at(&c.articulations, self.clip_axis(), lx),
            None => None,
        }
    }

    /// Grabs or inserts an articulation with a left press in the lane. A press
    /// in a neighbouring clip names that clip, which is edited from then on, and
    /// does nothing else.
    pub fn articulation_lane_down(&mut self, p: Pointer, clip: Option<&ClipView>) -> (r: (
        Option<String>,
        Option<RollEdit>,
    ))
        requires
            old(self).valid(),
            p.valid(),
            clip_valid(clip),
        ensures
            ({
                let there = local_point(old(self).lane_bounds, p.x, p.y);
                let other = match there {
                    Some(q) => if q.1 <= ART_PALETTE_H {
                        None
                    } else {
                        other_clip_under(*old(self), q.0 as int)
                    },
                    None => None,
                };
                &&& match r.0 {
                    Some(id) => other == Some(id@),
                    None => other is None,
                }
                &&& if there is None || other is Some {
                    *final(self) == *old(self) && r.1 is None
                } else {
                    let q = there->0;
                    match event_press(*old(self), clip, q.0 as int, q.1 as int) {
                        LanePress::Move(id) => event_move_begun(*old(self), *final(self), id, clip) && r.1 is None,
                        LanePress::Insert => *final(self) == *old(self) && asked(r.1) == Some(
                            EditView::InsertEvent(
                                clip->0.id@,
                                old(self).live_beat(q.0 as int, false),
                                old(self).insert_articulation,
                            ),
                        ),
                        _ => *final(self) == *old(self) && r.1 is None,
                    }
                }
            }),
            final(self).valid(),
    {
        let (lx, ly) = match self.cc_local(p.x, p.y) {
            Some(q) => q,
            None => {
                return (None, None);
            },
        };
        if ly <= ART_PALETTE_H {
            return (None, None);
        }
        match self.retarget_to_clip_under(lx) {
            Some(id) => {
                return (Some(id), None);
            },
            None => {},
        }
        let marker = self.marker_at(clip, lx);
        match articulation_left_press(ly, clip.is_some(), marker) {
            LanePress::Move(id) => {
                self.begin_articulation_move(id, clip);
                (None, None)
            },
            LanePress::Insert => match clip {
                Some(c) => {
                    let beat = self.live_beat_at(lx, false);
                    (None, Some(self.insert_articulation_at(c, beat)))
                },
                None => (None, None),
            },
            _ => (None, None),
        }
    }

    /// Chooses what a press in the articulation lane inserts.
    pub fn choose_articulation(&mut self, articulation: ArticulationId)
        requires
            old(self).valid(),
        ensures
            *final(self) == (PianoRoll { insert_articulation: articulation, ..*old(self) }),
            final(self).valid(),
    {
        self.insert_articulation = articulation;
    }

    /// Deletes an articulation with a right press in the lane.
    pub fn articulation_lane_right_down(&mut self, p: Pointer, clip: Option<&ClipView>) -> (edit: Option<RollEdit>)
        requires
            old(self).valid(),
            p.valid(),
            clip_valid(clip),
        ensures
            ({
                let hit = match local_point(old(self).lane_bounds, p.x, p.y) {
                    Some(q) => if q.1 <= ART_PALETTE_H {
                        None
                    } else {
                        marker_under(*old(self), clip, q.0 as int)
                    },
                    None => None,
                };
                match hit {
                    Some(id) => {
                        &&& asked(edit) == event_delete_asks(clip, id)
                        &&& *final(self) == (PianoRoll {
                            selected_articulation: if old(self).selected_articulation == Some(id) {
                                None
                            } else {
                                old(self).selected_articulation
                            },
                            ..*old(self)
                        })
                    },
                    None => *final(self) == *old(self) && edit is None,
                }
            }),
            final(self).valid(),
    {
        let (lx, ly) = match self.cc_local(p.x, p.y) {
            Some(q) => q,
            None => {
                return None;
            },
        };
        let marker = self.marker_at(clip, lx);
        match articulation_right_press(ly, clip.is_some(), marker) {
            LanePress::Delete(id) => self.delete_articulation(id, clip),
            _ => None,
        }
    }
}

} // verus!
