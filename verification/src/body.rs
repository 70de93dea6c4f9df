//! The body of the editor: everything that is on screen for the edited clip.

use crate::articulation::{articulation_palette, articulation_regions, regions_upto, ArticulationRegion, PaletteChip};
use crate::canvas::{
    build_velocity_grid, chip_text, clip_overhang, edges_of, empty_lane_hint, first_row, key_of, lane_hint, lane_lines,
    lane_shown, loop_band, loop_mark, playhead_frame, row_count, row_of, thumb_of, ClipEdges, CursorShape, LaneBody,
    LoopBand, PianoKey, PianoRollPlayheadFrame, PitchRow, Thumb, Transport, SCROLLBAR_GAP, THUMB_MIN_H, THUMB_MIN_W,
};
use crate::cc_curve::{handle_shows, CcCurveKind, HANDLE_R};
use crate::drag::{notes_in_song, points_in_song, PianoDrag};
use crate::fixed::{clamp_i64, clamp_to, max_i64, max_of, min_i64, min_of, on_axis, PX, TICKS_PER_BEAT};
use crate::grid::{near_multiple, GridLineKind};
use crate::hit::{lemma_displayed_reach, note_width, width_of_note};
use crate::inspector::{inspector_rows, note_menu_shown, rows_view, InspectorRow, MenuEntry, NoteNames};
use crate::lane_image::{lane_drawn, point_outline, CcLaneSnapshot};
use crate::midi::{lemma_filter_step, notes_in, ArticulationId, MidiControllerPoint, MidiNote};
use crate::note_blocks::{
    bar_drawn, block_of, draw_outline, drawn_bars, drawn_blocks, erase_outline, note_drawn, marquee_outline,
    quantize_outlines, row_y, velocity_overlay, LaneOverlay, NoteBlock, Outline, VelocityBar,
};
use crate::roll::{lane_span, lane_title, ClipView, PianoRoll};
use crate::velocity::LANE_H;
use crate::velocity_lane::BAR_W;
use crate::velocity_ops::{VelocityOperation, VELOCITY_OPERATION_COUNT};
use crate::viewport::{
    bar_length, beat_of_x, end_step, first_step, ruler_label, ruler_step, x_of_beat, PianoRollViewport, RulerMark,
    RULER_MARK_LIMIT,
};
use vstd::prelude::*;

verus! {

/// The grid lines of a stretch of beats.
pub open spec fn lines_drawn(v: PianoRollViewport, start: int, end: int, bpb: int, out: Seq<(i64, GridLineKind)>) -> bool {
    let lines = v.lines_shown(start, end, bpb);
    &&& out.len() == lines.len()
    &&& forall|i: int|
        0 <= i < out.len() ==> (#[trigger] out[i]).0 == x_of_beat(lines[i].0, v.ppb as int, v.scroll_x as int)
            && out[i].1 == lines[i].1
}

/// The ruler's marks of a stretch of beats.
pub open spec fn marks_drawn(v: PianoRollViewport, start: int, end: int, bpb: int, out: Seq<RulerMark>) -> bool {
    let step = ruler_step(v.ppb as int, bpb);
    let first = first_step(start, step);
    let last = end_step(start, end, step, RULER_MARK_LIMIT as int);
    &&& out.len() == max_of(last - first, 0)
    &&& forall|i: int|
        0 <= i < out.len() ==> {
            let beat = (first + i) * step;
            &&& (#[trigger] out[i]).beat == beat
            &&& out[i].x == x_of_beat(beat, v.ppb as int, v.scroll_x as int)
            &&& out[i].label@ == ruler_label(beat, v.ppb as int, bpb)
            &&& out[i].on_bar == near_multiple(beat, bar_length(bpb))
        }
}

/// First beat of the song in view.
pub open spec fn view_start(roll: PianoRoll) -> int {
    beat_of_x(0, roll.ppb as int, roll.scroll_x as int)
}

/// Last beat of the song in view.
pub open spec fn view_end(roll: PianoRoll) -> int {
    beat_of_x(roll.grid_size().0, roll.ppb as int, roll.scroll_x as int)
}

/// Length of a bar, a beat at least.
pub open spec fn bar_of(t: Transport) -> int {
    max_of(t.beats_per_bar as int, TICKS_PER_BEAT as int)
}

/// Last beat that has grid lines: a bar past the end of the clip.
pub open spec fn lines_end(roll: PianoRoll, clip: ClipView, t: Transport) -> int {
    min_of(view_end(roll), roll.edit_origin + clip.duration + bar_of(t))
}

/// A small menu of the lane: where it opens, and its rows.
pub struct LaneMenu<T> {
    pub left: i64,
    pub top: i64,
    pub rows: Vec<T>,
}

/// The menu of velocity operations, where it is open.
pub open spec fn velocity_menu_shown(r: Option<LaneMenu<VelocityOperation>>, roll: PianoRoll) -> bool {
    match r {
        Some(m) => {
            &&& roll.open_velocity_menu matches Some(at) && m.left == clamp_to(at.0 as int, 4 * PX, 260 * PX) && m.top
                == clamp_to(at.1 as int, 4 * PX, 28 * PX)
            &&& m.rows@.len() == VELOCITY_OPERATION_COUNT
            &&& forall|i: int| 0 <= i < m.rows@.len() ==> (#[trigger] m.rows@[i]).rank() == i
        },
        None => roll.open_velocity_menu is None,
    }
}

/// The menu of curves, where it is open, and the beat that they are laid at.
pub open spec fn curve_menu_shown(r: Option<(LaneMenu<CcCurveKind>, i64)>, roll: PianoRoll) -> bool {
    match r {
        Some(m) => {
            &&& roll.open_cc_curve_menu matches Some(at) && m.0.left == clamp_to(at.0 as int, 4 * PX, 240 * PX)
                && m.0.top == clamp_to(at.1 as int, 4 * PX, 40 * PX) && m.1 == roll.axis().beat_at(at.0 as int)
            &&& m.0.rows@.len() == crate::cc_curve::CC_CURVE_COUNT
            &&& forall|i: int| 0 <= i < m.0.rows@.len() ==> (#[trigger] m.0.rows@[i]).rank() == i
        },
        None => roll.open_cc_curve_menu is None,
    }
}

/// The articulation lane: its directions, and the palette above them.
pub struct ArticulationLane {
    pub regions: Vec<ArticulationRegion>,
    pub palette: Vec<PaletteChip>,
}

impl ArticulationLane {
    pub open spec fn shows(self, roll: PianoRoll, clip: ClipView, available: Seq<ArticulationId>) -> bool {
        &&& self.regions@ == regions_upto(
            clip.articulations@,
            roll.axis(),
            clip.duration as int,
            roll.lane_size().0,
            roll.selected_articulation,
            clip.articulations@.len() as int,
        )
        &&& self.palette@ == available.map_values(
            |a: ArticulationId| PaletteChip { articulation: a, active: a == roll.insert_articulation },
        )
    }
}

/// The velocity lane.
pub struct VelocityLane {
    pub bars: Vec<VelocityBar>,
    pub overlay: LaneOverlay,
    pub menu: Option<LaneMenu<VelocityOperation>>,
}

impl VelocityLane {
    pub open spec fn shows(self, roll: PianoRoll, clip: ClipView) -> bool {
        &&& self.bars@ == drawn_bars(roll, clip.notes@)
        &&& self.overlay == velocity_overlay(roll)
        &&& velocity_menu_shown(self.menu, roll)
    }
}

/// The lane of a controller.
pub struct CcLane {
    pub curve: CcLaneSnapshot,
    pub overlay: Option<Outline>,
    pub menu: Option<(LaneMenu<CcCurveKind>, i64)>,
}

impl CcLane {
    pub open spec fn shows(self, roll: PianoRoll, clip: ClipView, scale: int) -> bool {
        &&& lane_drawn(self.curve, roll, clip.points@, scale)
        &&& self.overlay == point_outline(roll)
        &&& curve_menu_shown(self.menu, roll)
    }
}

/// What the lane under the grid shows.
pub enum LanePlan {
    Hidden,
    Articulations(ArticulationLane),
    Velocity(VelocityLane),
    Controller(CcLane),
}

/// The lane that a drag belongs to.
pub open spec fn lane_of_drag(drag: PianoDrag) -> LaneBody {
    match drag {
        PianoDrag::Velocity(_) | PianoDrag::VelocityPaint(_) | PianoDrag::VelocityLine(_) => LaneBody::Velocity,
        PianoDrag::CcPaint(_) | PianoDrag::CcMove(_) | PianoDrag::CcLine(_) => LaneBody::Controller,
        PianoDrag::ArtMove(_) => LaneBody::Articulations,
        _ => LaneBody::Hidden,
    }
}

/// Value that a lane shows beside the drag in it.
pub open spec fn lane_chip(roll: PianoRoll, body: LaneBody) -> Option<Seq<char>> {
    if lane_of_drag(roll.drag) == body {
        chip_text(roll)
    } else {
        None
    }
}

/// The lane under the grid shows the clip.
pub open spec fn lane_planned(
    plan: LanePlan,
    roll: PianoRoll,
    clip: ClipView,
    available: Seq<ArticulationId>,
    own_lanes: bool,
    scale: int,
) -> bool {
    match lane_shown(roll, own_lanes) {
        LaneBody::Hidden => plan is Hidden,
        LaneBody::Articulations => plan matches LanePlan::Articulations(l) && l.shows(roll, clip, available),
        LaneBody::Velocity => plan matches LanePlan::Velocity(l) && l.shows(roll, clip),
        LaneBody::Controller => plan matches LanePlan::Controller(l) && l.shows(roll, clip, scale),
    }
}

/// Everything that is on screen for the edited clip.
pub struct BodyPlan {
    pub keys: Vec<PianoKey>,
    pub rows: Vec<PitchRow>,
    pub lines: Vec<(i64, GridLineKind)>,
    pub marks: Vec<RulerMark>,
    pub edges: ClipEdges,
    pub loop_band: Option<LoopBand>,
    pub loop_mark: Option<(i64, i64)>,
    pub playhead: PianoRollPlayheadFrame,
    pub blocks: Vec<NoteBlock>,
    pub quantize: Vec<Outline>,
    pub marquee: Option<Outline>,
    pub drawing: Option<Outline>,
    pub erasing: Option<Outline>,
    /// Menu of the selected notes: where it opens, and what it holds.
    pub note_menu: Option<((i64, i64), Vec<MenuEntry>)>,
    pub inspector: Vec<InspectorRow>,
    /// Hint on a grid without notes.
    pub hint: Option<&'static str>,
    pub cursor: CursorShape,
    /// Name and range of the lane under the grid.
    pub lane_header: Option<(String, &'static str)>,
    pub lane: LanePlan,
    pub lane_lines: Vec<(i64, u8)>,
    pub lane_hint: Option<&'static str>,
    pub lane_chip: Option<String>,
    /// The upright thumb, the level one, and how far the level one is from the
    /// bottom.
    pub scrollbars: (Option<Thumb>, Option<Thumb>, i64),
}

impl BodyPlan {
    /// The plan shows the clip.
    pub open spec fn shows(
        self,
        roll: PianoRoll,
        clip: ClipView,
        t: Transport,
        available: Seq<ArticulationId>,
        names: NoteNames,
        own_lanes: bool,
        scale: int,
    ) -> bool {
        let bpb = bar_of(t);
        let region = t.loop_in(clip.start as int);
        &&& self.keys@.len() == row_count(roll)
        &&& forall|i: int| 0 <= i < self.keys@.len() ==> #[trigger] self.keys@[i] == key_of(roll, first_row(roll) + i)
        &&& self.rows@.len() == row_count(roll)
        &&& forall|i: int| 0 <= i < self.rows@.len() ==> #[trigger] self.rows@[i] == row_of(roll, first_row(roll) + i)
        &&& exists|v: PianoRollViewport| #[trigger]
            is_view_of(v, roll) && lines_drawn(v, view_start(roll), lines_end(roll, clip, t), bpb, self.lines@)
        &&& exists|v: PianoRollViewport| #[trigger]
            is_view_of(v, roll) && marks_drawn(v, view_start(roll), view_end(roll), bpb, self.marks@)
        &&& exists|v: PianoRollViewport, all: Seq<(i64, GridLineKind)>|
            #![trigger is_view_of(v, roll), lane_lines(all)]
            is_view_of(v, roll) && lines_drawn(v, view_start(roll), view_end(roll), bpb, all) && self.lane_lines@
                == lane_lines(all)
        &&& self.edges == edges_of(roll, clip.duration as int)
        &&& self.loop_band == loop_band(roll, region)
        &&& self.loop_mark == loop_mark(roll, region)
        &&& self.playhead == playhead_frame(roll, clip, t)
        &&& self.blocks@ == drawn_blocks(roll, clip.notes@)
        &&& self.quantize@ == quantize_outlines(roll, clip.notes@)
        &&& self.marquee == marquee_outline(roll)
        &&& self.drawing == draw_outline(roll)
        &&& self.erasing == erase_outline(roll)
        &&& note_menu_shown(self.note_menu, roll, clip, available, names.articulations@)
        &&& rows_view(self.inspector@) == inspector_rows(roll, notes_in(clip.notes@, roll.selection@), available, names)
        &&& match self.hint {
            Some(h) => clip.notes@.len() == 0 && h@ == "Draw notes with the Draw tool, or record onto this clip"@,
            None => clip.notes@.len() > 0,
        }
        &&& self.cursor == (if roll.tool == crate::lanes::PianoTool::Draw || roll.tool == crate::lanes::PianoTool::Line {
            CursorShape::Crosshair
        } else {
            CursorShape::Arrow
        })
        &&& match self.lane_header {
            Some(h) => lane_shown(roll, own_lanes) !is Hidden && h.0@ == lane_title(roll.lane()) && h.1@ == lane_span(
                roll.lane(),
            ),
            None => lane_shown(roll, own_lanes) is Hidden,
        }
        &&& lane_planned(self.lane, roll, clip, available, own_lanes, scale)
        &&& match self.lane_chip {
            Some(c) => lane_chip(roll, lane_shown(roll, own_lanes)) == Some(c@),
            None => lane_chip(roll, lane_shown(roll, own_lanes)) is None,
        }
        &&& self.scrollbars.0 == thumb_of(
            roll.grid_size().1,
            roll.farthest_y(roll.grid_size().1),
            roll.scroll_y as int,
            THUMB_MIN_H as int,
        )
        &&& self.scrollbars.1 == thumb_of(
            roll.grid_size().0,
            clip_overhang(roll, clip.duration as int),
            roll.scroll_x as int,
            THUMB_MIN_W as int,
        )
        &&& self.scrollbars.2 == (if lane_shown(roll, own_lanes) is Hidden {
            SCROLLBAR_GAP as int
        } else {
            LANE_H + SCROLLBAR_GAP
        })
        &&& match self.lane_hint {
            Some(h) => lane_hint(
                lane_shown(roll, own_lanes),
                clip.notes@.len() as int,
                clip.points@.len() as int,
                clip.articulations@.len() as int,
            ) == Some(h@),
            None => lane_hint(
                lane_shown(roll, own_lanes),
                clip.notes@.len() as int,
                clip.points@.len() as int,
                clip.articulations@.len() as int,
            ) is None,
        }
    }
}

/// The view that the editor shares has its scale, scroll and steps.
pub open spec fn is_view_of(v: PianoRollViewport, roll: PianoRoll) -> bool {
    &&& v.ppb == roll.ppb && v.scroll_x == roll.scroll_x && v.row_h == roll.row_h && v.scroll_y == roll.scroll_y
    &&& v.sub_step_beats == max_of(roll.step(), crate::fixed::MIN_NOTE_TICKS as int)
}

/// A note as the dense view draws it.
#[derive(Debug, Clone, Copy, PartialEq, Eq, Structural)]
pub struct NoteRenderItem {
    pub id: u64,
    pub pitch: u8,
    pub x: i64,
    pub y: i64,
    pub w: i64,
    pub selected: bool,
    pub muted: bool,
}

/// A velocity as the dense view draws it.
#[derive(Debug, Clone, Copy, PartialEq, Eq, Structural)]
pub struct VelocityRenderItem {
    pub id: u64,
    pub x: i64,
    pub velocity: u8,
    pub selected: bool,
}

/// A controller point as the dense view draws it.
#[derive(Debug, Clone, Copy, PartialEq, Eq, Structural)]
pub struct ControllerPointRenderItem {
    pub id: u64,
    pub x: i64,
    pub value: i64,
}

/// Everything that the dense view draws.
#[derive(Debug)]
pub struct MidiEditorRenderSnapshot {
    pub clip_id: String,
    pub visible_beat_range: (i64, i64),
    pub visible_pitch_range: (u8, u8),
    pub notes: Vec<NoteRenderItem>,
    pub velocity: Vec<VelocityRenderItem>,
    pub controller_points: Vec<ControllerPointRenderItem>,
}

/// A note as the dense view draws it.
pub open spec fn item_of(roll: PianoRoll, n: MidiNote) -> NoteRenderItem {
    let d = roll.displayed(n);
    NoteRenderItem {
        id: n.id,
        pitch: d.pitch,
        x: roll.axis().x_at(d.start as int) as i64,
        y: row_y(roll, d.pitch as int) as i64,
        w: note_width(d.duration as int, roll.ppb as int) as i64,
        selected: roll.selection@.contains(n.id),
        muted: n.muted,
    }
}

/// A velocity as the dense view draws it.
pub open spec fn velocity_of(roll: PianoRoll, n: MidiNote) -> VelocityRenderItem {
    VelocityRenderItem {
        id: n.id,
        x: roll.axis().x_at(roll.displayed(n).start as int) as i64,
        velocity: n.velocity,
        selected: roll.selection@.contains(n.id),
    }
}

/// A controller point as the dense view draws it.
pub open spec fn point_item(roll: PianoRoll, p: MidiControllerPoint) -> ControllerPointRenderItem {
    ControllerPointRenderItem { id: p.id, x: roll.axis().x_at(p.beat as int) as i64, value: p.value }
}

/// The dense view draws notes and velocities where the elements are.
pub proof fn law_dense_view_matches_the_elements(roll: PianoRoll, n: MidiNote)
    requires
        roll.valid(),
        crate::drag::note_in_song(n),
    ensures
        item_of(roll, n).x == block_of(roll, n).left,
        item_of(roll, n).w == block_of(roll, n).width,
        item_of(roll, n).y + PX == block_of(roll, n).top,
        item_of(roll, n).selected == block_of(roll, n).selected,
        velocity_of(roll, n).x == crate::note_blocks::bar_of(roll, n).left,
        velocity_of(roll, n).velocity == crate::note_blocks::bar_of(roll, n).velocity,
{
    let d = roll.displayed(n);
    lemma_displayed_reach(roll, n);
    assert(0 <= (127 - d.pitch) * roll.row_h <= 127 * 200_000_000) by (nonlinear_arith)
        requires
            0 <= d.pitch <= 127,
            0 <= roll.row_h <= 200_000_000,
    ;
}

impl PianoRoll {
    fn plan_lane(&self, clip: &ClipView, available: &Vec<ArticulationId>, own_lanes: bool, scale: i64) -> (plan: LanePlan)
        requires
            self.valid(),
            clip.valid(),
        ensures
            lane_planned(plan, *self, *clip, available@, own_lanes, scale as int),
    {
        match self.lane_body(own_lanes) {
            LaneBody::Hidden => LanePlan::Hidden,
            LaneBody::Articulations => LanePlan::Articulations(self.render_articulation_lane(clip, available)),
            LaneBody::Velocity => LanePlan::Velocity(self.render_velocity_lane(clip)),
            LaneBody::Controller => LanePlan::Controller(self.render_cc_lane(clip, scale)),
        }
    }

    /// The directions of the articulation lane and the palette above them.
    pub fn render_articulation_lane(&self, clip: &ClipView, available: &Vec<ArticulationId>) -> (l: ArticulationLane)
        requires
            self.valid(),
            clip.valid(),
        ensures
            l.shows(*self, *clip, available@),
    {
        let (view_w, _view_h) = self.cc_view_size();
        assert(crate::articulation::valid_events(clip.articulations@)) by {
            assert forall|i: int| 0 <= i < clip.articulations@.len() implies on_axis(
                (#[trigger] clip.articulations@[i]).beat as int,
            ) by {
                assert(crate::drag::reachable(clip.articulations@[i].beat as int));
            }
        }
        let regions = articulation_regions(
            &clip.articulations,
            self.clip_axis(),
            clip.duration,
            view_w,
            self.selected_articulation,
        );
        ArticulationLane { regions, palette: articulation_palette(available, self.insert_articulation) }
    }

    /// The bars of the velocity lane and what is over them.
    pub fn render_velocity_lane(&self, clip: &ClipView) -> (l: VelocityLane)
        requires
            self.valid(),
            clip.valid(),
        ensures
            l.shows(*self, *clip),
    {
        VelocityLane {
            bars: self.build_velocity_bars(&clip.notes),
            overlay: self.build_velocity_gesture_overlay(),
            menu: self.build_velocity_context_menu(),
        }
    }

    /// The curve of the controller lane and what is over it.
    pub fn render_cc_lane(&self, clip: &ClipView, scale: i64) -> (l: CcLane)
        requires
            self.valid(),
            clip.valid(),
        ensures
            l.shows(*self, *clip, scale as int),
    {
        CcLane {
            curve: self.build_cc_curve(&clip.points, scale),
            overlay: self.build_cc_selection_overlay(),
            menu: self.build_cc_curve_menu(),
        }
    }

    fn lane_value_chip(&self, body: LaneBody) -> (r: Option<String>)
        ensures
            match r {
                Some(c) => lane_chip(*self, body) == Some(c@),
                None => lane_chip(*self, body) is None,
            },
    {
        let of_drag = match &self.drag {
            PianoDrag::Velocity(_) | PianoDrag::VelocityPaint(_) | PianoDrag::VelocityLine(_) => LaneBody::Velocity,
            PianoDrag::CcPaint(_) | PianoDrag::CcMove(_) | PianoDrag::CcLine(_) => LaneBody::Controller,
            PianoDrag::ArtMove(_) => LaneBody::Articulations,
            _ => LaneBody::Hidden,
        };
        if of_drag == body {
            self.value_chip()
        } else {
            None
        }
    }

    /// The beats of the song in view.
    fn beats_in_view(&self) -> (r: (i64, i64))
        requires
            self.valid(),
        ensures
            r.0 == view_start(*self),
            r.1 == view_end(*self),
            on_axis(r.0 as int) && on_axis(r.1 as int),
            0 <= r.0 <= crate::fixed::BEAT_LIMIT && 0 <= r.1 <= crate::fixed::BEAT_LIMIT,
    {
        let (view_w, _view_h) = self.grid_view_size();
        let v = self.viewport(0);
        proof {
            crate::roll::lemma_beat_in_reach(0, self.scroll_x as int, self.ppb as int);
            crate::roll::lemma_beat_in_reach(view_w as int, self.scroll_x as int, self.ppb as int);
        }
        v.visible_beats(view_w)
    }

    /// The timing lines of the grid: none further than a bar past the clip.
    pub fn build_grid_lines(&self, clip: &ClipView, t: &Transport) -> (out: Vec<(i64, GridLineKind)>)
        requires
            self.valid(),
            clip.valid(),
            t.valid(),
        ensures
            exists|v: PianoRollViewport| #[trigger]
                is_view_of(v, *self) && lines_drawn(v, view_start(*self), lines_end(*self, *clip, *t), bar_of(*t), out@),
    {
        let bpb = max_i64(t.beats_per_bar, TICKS_PER_BEAT);
        let (start, end) = self.beats_in_view();
        let v = self.viewport(0);
        let out = v.grid_lines(start, min_i64(end, self.edit_origin + clip.duration + bpb), bpb);
        assert(is_view_of(v, *self));
        assert(lines_drawn(v, view_start(*self), lines_end(*self, *clip, *t), bar_of(*t), out@));
        out
    }

    /// The marks of the ruler.
    pub fn build_ruler(&self, t: &Transport) -> (out: Vec<RulerMark>)
        requires
            self.valid(),
            t.valid(),
        ensures
            exists|v: PianoRollViewport| #[trigger]
                is_view_of(v, *self) && marks_drawn(v, view_start(*self), view_end(*self), bar_of(*t), out@),
    {
        let bpb = max_i64(t.beats_per_bar, TICKS_PER_BEAT);
        let (start, end) = self.beats_in_view();
        let v = self.viewport(0);
        let out = v.ruler_marks(start, end, bpb);
        assert(is_view_of(v, *self));
        assert(marks_drawn(v, view_start(*self), view_end(*self), bar_of(*t), out@));
        out
    }

    /// The timing lines of a lane under the grid.
    pub fn visible_lane_lines(&self, t: &Transport) -> (out: Vec<(i64, u8)>)
        requires
            self.valid(),
            t.valid(),
        ensures
            exists|v: PianoRollViewport, all: Seq<(i64, GridLineKind)>|
                #![trigger is_view_of(v, *self), lane_lines(all)]
                is_view_of(v, *self) && lines_drawn(v, view_start(*self), view_end(*self), bar_of(*t), all) && out@
                    == lane_lines(all),
    {
        let bpb = max_i64(t.beats_per_bar, TICKS_PER_BEAT);
        let (start, end) = self.beats_in_view();
        let v = self.viewport(0);
        let all = v.grid_lines(start, end, bpb);
        assert(is_view_of(v, *self));
        assert(lines_drawn(v, view_start(*self), view_end(*self), bar_of(*t), all@));
        build_velocity_grid(&all)
    }

    /// Everything that is on screen for the edited clip.
    pub fn render_body(
        &self,
        clip: &ClipView,
        t: &Transport,
        available: &Vec<ArticulationId>,
        names: &NoteNames,
        own_lanes: bool,
        scale: i64,
    ) -> (plan: BodyPlan)
        requires
            self.valid(),
            clip.valid(),
            t.valid(),
            names.valid(),
        ensures
            plan.shows(*self, *clip, *t, available@, *names, own_lanes, scale as int),
    {
        let body = self.lane_body(own_lanes);
        let lane_header = if self.unified_lane_visible(own_lanes) {
            Some((self.lane_name(), self.lane_range()))
        } else {
            None
        };
        let region = t.loop_region(clip.start);
        let hint = if clip.notes.len() == 0 {
            Some("Draw notes with the Draw tool, or record onto this clip")
        } else {
            None
        };
        BodyPlan {
            keys: self.piano_keys(),
            rows: self.pitch_rows(),
            lines: self.build_grid_lines(clip, t),
            marks: self.build_ruler(t),
            edges: self.build_clip_bounds_overlay(clip.duration),
            loop_band: self.build_loop_overlay(region),
            loop_mark: self.build_loop_ruler_markers(region),
            playhead: self.playhead_frame_now(Some(clip), t),
            blocks: self.build_note_elements(&clip.notes),
            quantize: self.build_quantize_preview(&clip.notes),
            marquee: self.build_marquee_overlay(),
            drawing: self.build_draw_note_preview(),
            erasing: self.build_erase_overlay(),
            note_menu: self.build_note_context_menu(clip, available, names.articulations),
            inspector: self.render_note_inspector(clip, available, names),
            hint,
            cursor: self.grid_cursor(),
            lane_header,
            lane: self.plan_lane(clip, available, own_lanes, scale),
            lane_lines: self.visible_lane_lines(t),
            lane_hint: empty_lane_hint(body, clip.notes.len(), clip.points.len(), clip.articulations.len()),
            lane_chip: self.lane_value_chip(body),
            scrollbars: self.render_scrollbars(clip.duration, own_lanes),
        }
    }

    /// The menu of velocity operations.
    pub fn build_velocity_context_menu(&self) -> (r: Option<LaneMenu<VelocityOperation>>)
        requires
            self.valid(),
        ensures
            velocity_menu_shown(r, *self),
    {
        match self.open_velocity_menu {
            Some(at) => Some(
                LaneMenu {
                    left: clamp_i64(at.0, 4_000_000, 260_000_000),
                    top: clamp_i64(at.1, 4_000_000, 28_000_000),
                    rows: VelocityOperation::all(),
                },
            ),
            None => None,
        }
    }

    /// The menu of curves, and the beat that they are laid at.
    pub fn build_cc_curve_menu(&self) -> (r: Option<(LaneMenu<CcCurveKind>, i64)>)
        requires
            self.valid(),
        ensures
            curve_menu_shown(r, *self),
    {
        match self.open_cc_curve_menu {
            Some(at) => {
                let beat = self.x_to_clip_beat(at.0);
                Some(
                    (
                        LaneMenu {
                            left: clamp_i64(at.0, 4_000_000, 240_000_000),
                            top: clamp_i64(at.1, 4_000_000, 40_000_000),
                            rows: CcCurveKind::all(),
                        },
                        beat,
                    ),
                )
            },
            None => None,
        }
    }

    fn item_if_drawn(&self, n: &MidiNote) -> (r: Option<NoteRenderItem>)
        requires
            self.valid(),
            crate::drag::note_in_song(*n),
        ensures
            r == (if note_drawn(*self, *n) {
                Some(item_of(*self, *n))
            } else {
                None
            }),
    {
        if !self.channel_visible(n.channel) {
            return None;
        }
        let (view_w, view_h) = self.grid_view_size();
        let d = self.display_note(n);
        let x = self.clip_beat_to_x(d.start);
        let w = width_of_note(d.duration, self.ppb);
        let y = self.pitch_to_y(d.pitch);
        if x + w < 0 || x > view_w || y + self.row_h < 0 || y > view_h {
            return None;
        }
        let selected = self.selection.contains(n.id);
        Some(NoteRenderItem { id: n.id, pitch: d.pitch, x, y, w, selected, muted: n.muted })
    }

    fn velocity_if_drawn(&self, n: &MidiNote) -> (r: Option<VelocityRenderItem>)
        requires
            self.valid(),
            crate::drag::note_in_song(*n),
        ensures
            r == (if bar_drawn(*self, *n) {
                Some(velocity_of(*self, *n))
            } else {
                None
            }),
    {
        if !self.channel_visible(n.channel) {
            return None;
        }
        let (view_w, _view_h) = self.grid_view_size();
        let d = self.display_note(n);
        let x = self.clip_beat_to_x(d.start);
        if x < -BAR_W || x > view_w {
            return None;
        }
        Some(VelocityRenderItem { id: n.id, x, velocity: n.velocity, selected: self.selection.contains(n.id) })
    }

    fn render_items(&self, notes: &Vec<MidiNote>) -> (r: (Vec<NoteRenderItem>, Vec<VelocityRenderItem>))
        requires
            self.valid(),
            notes_in_song(notes@),
        ensures
            r.0@ == notes@.filter(|n: MidiNote| note_drawn(*self, n)).map_values(|n: MidiNote| item_of(*self, n)),
            r.1@ == notes@.filter(|n: MidiNote| bar_drawn(*self, n)).map_values(
                |n: MidiNote| velocity_of(*self, n),
            ),
    {
        let ghost p = |n: MidiNote| note_drawn(*self, n);
        let ghost f = |n: MidiNote| item_of(*self, n);
        let ghost q = |n: MidiNote| bar_drawn(*self, n);
        let ghost g = |n: MidiNote| velocity_of(*self, n);
        let mut items: Vec<NoteRenderItem> = Vec::new();
        let mut bars: Vec<VelocityRenderItem> = Vec::new();
        let mut i: usize = 0;
        proof {
            reveal(Seq::filter);
            assert(notes@.subrange(0, 0).filter(p).map_values(f) =~= Seq::<NoteRenderItem>::empty());
            assert(notes@.subrange(0, 0).filter(q).map_values(g) =~= Seq::<VelocityRenderItem>::empty());
        }
        while i < notes.len()
            invariant
                self.valid(),
                notes_in_song(notes@),
                i <= notes@.len(),
                p == (|n: MidiNote| note_drawn(*self, n)),
                f == (|n: MidiNote| item_of(*self, n)),
                q == (|n: MidiNote| bar_drawn(*self, n)),
                g == (|n: MidiNote| velocity_of(*self, n)),
                items@ == notes@.subrange(0, i as int).filter(p).map_values(f),
                bars@ == notes@.subrange(0, i as int).filter(q).map_values(g),
            decreases notes@.len() - i,
        {
            proof {
                lemma_filter_step(notes@, i as int, p);
                lemma_filter_step(notes@, i as int, q);
            }
            let ghost front = notes@.subrange(0, i as int).filter(p);
            let ghost front_bars = notes@.subrange(0, i as int).filter(q);
            let n = notes[i];
            assert(crate::drag::note_in_song(notes@[i as int]));
            match self.item_if_drawn(&n) {
                Some(item) => {
                    items.push(item);
                    assert(front.push(n).map_values(f) =~= front.map_values(f).push(item));
                },
                None => {},
            }
            match self.velocity_if_drawn(&n) {
                Some(bar) => {
                    bars.push(bar);
                    assert(front_bars.push(n).map_values(g) =~= front_bars.map_values(g).push(bar));
                },
                None => {},
            }
            i = i + 1;
        }
        assert(notes@.subrange(0, notes@.len() as int) =~= notes@);
        (items, bars)
    }

    fn render_points(&self, points: &Vec<MidiControllerPoint>) -> (out: Vec<ControllerPointRenderItem>)
        requires
            self.valid(),
            points_in_song(points@),
        ensures
            out@ == points@.filter(|p: MidiControllerPoint| handle_shows(p, self.axis(), self.grid_size().0)).map_values(
                |p: MidiControllerPoint| point_item(*self, p),
            ),
    {
        let ghost p = |c: MidiControllerPoint| handle_shows(c, self.axis(), self.grid_size().0);
        let ghost f = |c: MidiControllerPoint| point_item(*self, c);
        let (view_w, _view_h) = self.grid_view_size();
        let mut out: Vec<ControllerPointRenderItem> = Vec::new();
        let mut i: usize = 0;
        proof {
            reveal(Seq::filter);
            assert(points@.subrange(0, 0).filter(p).map_values(f) =~= Seq::<ControllerPointRenderItem>::empty());
        }
        while i < points.len()
            invariant
                self.valid(),
                points_in_song(points@),
                view_w == self.grid_size().0,
                PX <= view_w <= crate::fixed::WINDOW_LIMIT,
                i <= points@.len(),
                p == (|c: MidiControllerPoint| handle_shows(c, self.axis(), self.grid_size().0)),
                f == (|c: MidiControllerPoint| point_item(*self, c)),
                out@ == points@.subrange(0, i as int).filter(p).map_values(f),
            decreases points@.len() - i,
        {
            proof {
                lemma_filter_step(points@, i as int, p);
            }
            let ghost front = points@.subrange(0, i as int).filter(p);
            let c = points[i];
            assert(points@[i as int] == c);
            let x = self.clip_beat_to_x(c.beat);
            if x >= -HANDLE_R && x <= view_w + HANDLE_R {
                let item = ControllerPointRenderItem { id: c.id, x, value: c.value };
                out.push(item);
                assert(front.push(c).map_values(f) =~= front.map_values(f).push(item));
            }
            i = i + 1;
        }
        assert(points@.subrange(0, points@.len() as int) =~= points@);
        out
    }

    /// Everything that the dense view draws of a clip.
    pub fn build_render_snapshot(&self, clip: &ClipView) -> (s: MidiEditorRenderSnapshot)
        requires
            self.valid(),
            clip.valid(),
        ensures
            s.clip_id@ == clip.id@,
            s.visible_beat_range.0 == self.axis().beat_at(0),
            s.visible_beat_range.1 == self.axis().beat_at(self.grid_size().0),
            s.visible_pitch_range.0 == first_row(*self),
            s.visible_pitch_range.1 == crate::canvas::last_row(*self),
            s.notes@ == clip.notes@.filter(|n: MidiNote| note_drawn(*self, n)).map_values(
                |n: MidiNote| item_of(*self, n),
            ),
            s.velocity@ == clip.notes@.filter(|n: MidiNote| bar_drawn(*self, n)).map_values(
                |n: MidiNote| velocity_of(*self, n),
            ),
            s.controller_points@ == clip.points@.filter(|p: MidiControllerPoint| handle_shows(p, self.axis(), self.grid_size().0)).map_values(
                |p: MidiControllerPoint| point_item(*self, p),
            ),
    {
        let (view_w, _view_h) = self.grid_view_size();
        let (notes, velocity) = self.render_items(&clip.notes);
        MidiEditorRenderSnapshot {
            clip_id: clip.id.clone(),
            visible_beat_range: (self.x_to_clip_beat(0), self.x_to_clip_beat(view_w)),
            visible_pitch_range: self.visible_rows(),
            notes,
            velocity,
            controller_points: self.render_points(&clip.points),
        }
    }
}

} // verus!
