//! State of the piano roll, and the parts of it that no gesture touches.

use crate::drag::{
    events_in_song, in_song, in_window, is_value, note_in_song, notes_in_song, on_surface, points_in_song, reachable,
    PianoDrag,
};
use crate::fixed::{
    lemma_nearest_bound, max_i64, max_of, nearest, on_axis, BEAT_LIMIT, COUNT_LIMIT, PX, SCROLL_TICKS, SONG_LIMIT,
    TICKS_PER_BEAT, VALUE_ONE, WINDOW_LIMIT,
};
use crate::grid::{grid_step, grid_step_beats, snap_beat_to_step, snapped, GridRes};
use crate::id_set::IdSet;
use crate::labels::{cc_kind_label, kind_label};
use crate::lanes::{lane_after, lane_place, next_lane, ControllerLaneKind, PianoLaneView, PianoSelectMenu, PianoTool};
use crate::midi::{
    all_channels, only_channel, ArticulationId, MidiArticulationEvent, MidiChannel, MidiChannelMask, MidiControllerKind,
    MidiControllerPoint, MidiNote, CHANNEL_COUNT,
};
use crate::note_edits::pitch_table;
use crate::scale::{chromatic, chromatic_map, PitchContext, Scale};
use crate::preview::PreviewState;
use crate::scope::{spans_in_song, ClipSpan, EditorScope};
use crate::text::{decimal_text, push_decimal};
use crate::velocity::LANE_H;
use crate::viewport::{
    beat_of_x, local_y_to_pitch, pitch_at, ClipAxis, DEFAULT_ROW_H, PIANO_ROLL_MAX_PPB, PIANO_ROLL_MAX_ROW_H,
    PIANO_ROLL_MIN_PPB, PIANO_ROLL_MIN_ROW_H,
};
use vstd::prelude::*;

verus! {

/// Where a surface was painted last, in the window.
#[derive(Debug, Clone, Copy, PartialEq, Eq, Structural)]
pub struct Bounds {
    pub x: i64,
    pub y: i64,
    pub width: i64,
    pub height: i64,
}

impl Bounds {
    pub open spec fn valid(self) -> bool {
        in_window(self.x as int) && in_window(self.y as int) && 0 <= self.width <= WINDOW_LIMIT && 0 <= self.height
            <= WINDOW_LIMIT
    }
}

/// Surfaces that were never painted have no bounds.
pub open spec fn bounds_valid(b: Option<Bounds>) -> bool {
    b matches Some(r) ==> r.valid()
}

/// A window point relative to a surface.
pub open spec fn local_point(b: Option<Bounds>, x: i64, y: i64) -> Option<(i64, i64)> {
    match b {
        Some(r) => Some(((x - r.x) as i64, (y - r.y) as i64)),
        None => None,
    }
}

/// A window point relative to a surface.
pub fn to_local(b: Option<Bounds>, x: i64, y: i64) -> (p: Option<(i64, i64)>)
    requires
        bounds_valid(b),
        in_window(x as int),
        in_window(y as int),
    ensures
        p == local_point(b, x, y),
        p matches Some(q) ==> on_surface(q.0 as int) && on_surface(q.1 as int),
{
    match b {
        Some(r) => Some((x - r.x, y - r.y)),
        None => None,
    }
}

/// Size of a surface: at least a pixel each way, and the fallback while it was
/// never painted.
pub open spec fn view_size(b: Option<Bounds>, fallback_w: int, fallback_h: int) -> (int, int) {
    match b {
        Some(r) => (max_of(r.width as int, PX as int), max_of(r.height as int, PX as int)),
        None => (fallback_w, fallback_h),
    }
}

/// The clip being edited, as far as the roll reads it.
#[derive(Debug)]
pub struct ClipView {
    pub id: String,
    /// Project beat where the clip starts.
    pub start: i64,
    pub duration: i64,
    pub notes: Vec<MidiNote>,
    /// Points of the active controller.
    pub points: Vec<MidiControllerPoint>,
    pub articulations: Vec<MidiArticulationEvent>,
}

impl ClipView {
    pub open spec fn valid(self) -> bool {
        &&& in_song(self.start as int)
        &&& -SONG_LIMIT <= self.duration <= SONG_LIMIT
        &&& notes_in_song(self.notes@)
        &&& points_in_song(self.points@)
        &&& events_in_song(self.articulations@)
    }

    /// `true` when the editor can work on the clip: its times and values are
    /// inside the limits.
    pub fn is_valid(&self) -> (r: bool)
        ensures
            r == self.valid(),
    {
        0 <= self.start && self.start <= SONG_LIMIT && -SONG_LIMIT <= self.duration && self.duration <= SONG_LIMIT
            && notes_fit(&self.notes) && points_fit(&self.points) && events_fit(&self.articulations)
    }
}

fn notes_fit(notes: &Vec<MidiNote>) -> (r: bool)
    ensures
        r == notes_in_song(notes@),
{
    let mut i: usize = 0;
    while i < notes.len()
        invariant
            i <= notes@.len(),
            forall|k: int| 0 <= k < i ==> note_in_song(#[trigger] notes@[k]),
        decreases notes@.len() - i,
    {
        let n = notes[i];
        if n.pitch > 127 || n.velocity > 127 || n.start < 0 || n.start > SONG_LIMIT || n.duration < 0 || n.duration
            > SONG_LIMIT {
            assert(!note_in_song(notes@[i as int]));
            return false;
        }
        i = i + 1;
    }
    notes.len() <= COUNT_LIMIT
}

fn points_fit(points: &Vec<MidiControllerPoint>) -> (r: bool)
    ensures
        r == points_in_song(points@),
{
    let mut i: usize = 0;
    while i < points.len()
        invariant
            i <= points@.len(),
            forall|k: int|
                0 <= k < i ==> reachable((#[trigger] points@[k]).beat as int) && is_value(points@[k].value as int),
        decreases points@.len() - i,
    {
        let p = points[i];
        if p.beat < 0 || p.beat > BEAT_LIMIT + 4 * TICKS_PER_BEAT || p.value < 0 || p.value > VALUE_ONE {
            assert(points@[i as int] == p);
            return false;
        }
        i = i + 1;
    }
    points.len() <= COUNT_LIMIT
}

fn events_fit(events: &Vec<MidiArticulationEvent>) -> (r: bool)
    ensures
        r == events_in_song(events@),
{
    let mut i: usize = 0;
    while i < events.len()
        invariant
            i <= events@.len(),
            forall|k: int| 0 <= k < i ==> reachable((#[trigger] events@[k]).beat as int),
        decreases events@.len() - i,
    {
        let e = events[i];
        if e.beat < 0 || e.beat > BEAT_LIMIT + 4 * TICKS_PER_BEAT {
            assert(events@[i as int] == e);
            return false;
        }
        i = i + 1;
    }
    true
}

/// A clip, where one is edited.
pub open spec fn clip_valid(clip: Option<&ClipView>) -> bool {
    clip matches Some(c) ==> c.valid()
}

/// Interaction state of the piano roll.
#[derive(Debug)]
pub struct PianoRoll {
    pub tool: PianoTool,
    /// Zoom X in micro-pixels per beat.
    pub ppb: i64,
    /// Zoom Y in micro-pixels per semitone.
    pub row_h: i64,
    pub scroll_x: i64,
    pub scroll_y: i64,
    /// Project beat where the edited clip starts.
    pub edit_origin: i64,
    /// The clips on screen.
    pub scope: EditorScope,
    pub grid_bounds: Option<Bounds>,
    pub ruler_bounds: Option<Bounds>,
    /// Bounds of the lane below the grid.
    pub lane_bounds: Option<Bounds>,
    pub key_bounds: Option<Bounds>,
    pub snap_on: bool,
    pub grid_res: GridRes,
    /// Resolution of the quantize command, independent of the grid.
    pub quantize_res: GridRes,
    pub selection: IdSet,
    /// Selection when a marquee began.
    pub selection_before_marquee: IdSet,
    /// Notes marked by an erase drag.
    pub erase_preview_ids: IdSet,
    pub drag: PianoDrag,
    pub quantize_preview: bool,
    pub hover_beat: Option<i64>,
    pub hover_pitch: Option<u8>,
    pub hover_note_status: Option<String>,
    pub drag_value_status: Option<String>,
    /// Clip that the view was last fitted to.
    pub fitted_clip_id: Option<String>,
    /// Clip that was edited last.
    pub last_editing_clip: Option<String>,
    /// Controller of the lane, remembered while the lane shows something else.
    pub active_cc: MidiControllerKind,
    pub lane_view: PianoLaneView,
    pub lane_visible: bool,
    pub selected_articulation: Option<u64>,
    /// Articulation that a click in the lane inserts.
    pub insert_articulation: ArticulationId,
    /// Articulations when a lane gesture began.
    pub art_edit_prev: Option<Vec<MidiArticulationEvent>>,
    pub open_select_menu: Option<PianoSelectMenu>,
    /// Controller number of the selector's stepper.
    pub custom_cc: u8,
    /// Points of the lane when a gesture began.
    pub cc_edit_prev: Option<Vec<MidiControllerPoint>>,
    /// Clip and controller that `cc_edit_prev` belongs to.
    pub cc_edit_target: Option<(String, MidiControllerKind)>,
    pub cc_selection: IdSet,
    pub cc_selection_before_marquee: IdSet,
    pub open_cc_curve_menu: Option<(i64, i64)>,
    pub open_velocity_menu: Option<(i64, i64)>,
    pub open_note_menu: Option<(i64, i64)>,
    pub preview: PreviewState,
    pub channel_view: MidiChannelMask,
    /// The active scale.
    pub pitch_ctx: PitchContext,
    /// The pitch that each pitch is held to.
    pub pitch_map: Vec<u8>,
    /// A docked editor, which can be opened in a window of its own.
    pub can_pop_out: bool,
}

/// Name of a lane.
pub open spec fn lane_title(kind: ControllerLaneKind) -> Seq<char> {
    match kind {
        ControllerLaneKind::Velocity => "Velocity"@,
        ControllerLaneKind::Controller(k) => kind_label(k),
        ControllerLaneKind::Articulations => "Articulations"@,
    }
}

/// Range of the values of a lane, in words.
pub open spec fn lane_span(kind: ControllerLaneKind) -> Seq<char> {
    match kind {
        ControllerLaneKind::Velocity => "1–127"@,
        ControllerLaneKind::Controller(MidiControllerKind::PitchBend) => "-8192..8191"@,
        ControllerLaneKind::Controller(_) => "0–127"@,
        ControllerLaneKind::Articulations => "Direction"@,
    }
}

/// The first channel, from `from` on, that the view shows alone.
pub open spec fn lone_channel(view: MidiChannelMask, from: int) -> Option<u8>
    decreases CHANNEL_COUNT - from,
{
    if from < 0 || from >= CHANNEL_COUNT {
        None
    } else if view == only_channel(MidiChannel { raw: from as u8 }) {
        Some(from as u8)
    } else {
        lone_channel(view, from + 1)
    }
}

proof fn lemma_lone_channel(view: MidiChannelMask, from: int)
    ensures
        lone_channel(view, from) matches Some(c) ==> c < CHANNEL_COUNT && view == only_channel(MidiChannel { raw: c }),
    decreases CHANNEL_COUNT - from,
{
    if 0 <= from < CHANNEL_COUNT && view != only_channel(MidiChannel { raw: from as u8 }) {
        lemma_lone_channel(view, from + 1);
    }
}

/// A note drawn while one channel alone is shown is never hidden.
pub proof fn law_drawn_notes_stay_visible(roll: PianoRoll, track_channel: MidiChannel)
    requires
        lone_channel(roll.channel_view, 0) is Some,
    ensures
        roll.channel_view.shows(roll.drawing_channel(track_channel)),
{
    lemma_lone_channel(roll.channel_view, 0);
    let c = roll.drawing_channel(track_channel);
    crate::midi::law_single_mask_shows_one_channel(c, c);
}

impl PianoRoll {
    /// Zoom, scroll, surfaces and the gesture are inside their limits.
    pub open spec fn valid(self) -> bool {
        &&& PIANO_ROLL_MIN_PPB <= self.ppb <= PIANO_ROLL_MAX_PPB
        &&& PIANO_ROLL_MIN_ROW_H <= self.row_h <= PIANO_ROLL_MAX_ROW_H
        &&& 0 <= self.scroll_x && self.scroll_x * TICKS_PER_BEAT <= SCROLL_TICKS * self.ppb
        &&& 0 <= self.scroll_y <= WINDOW_LIMIT
        &&& in_song(self.edit_origin as int)
        &&& spans_in_song(self.scope@)
        &&& bounds_valid(self.grid_bounds)
        &&& bounds_valid(self.ruler_bounds)
        &&& bounds_valid(self.lane_bounds)
        &&& bounds_valid(self.key_bounds)
        &&& self.drag.valid()
        &&& self.hover_beat matches Some(b) ==> -SONG_LIMIT <= b <= BEAT_LIMIT
        &&& self.art_edit_prev matches Some(e) ==> events_in_song(e@)
        &&& self.cc_edit_prev matches Some(p) ==> points_in_song(p@)
        &&& self.open_cc_curve_menu matches Some(at) ==> on_surface(at.0 as int) && on_surface(at.1 as int)
        &&& pitch_table(self.pitch_map@)
        &&& !self.pitch_ctx.constrain ==> chromatic(self.pitch_map@)
    }

    /// The state of a new editor.
    pub fn new() -> (r: PianoRoll)
        ensures
            r.valid(),
            r.tool == PianoTool::Draw,
            r.ppb == 80_000_000,
            r.row_h == DEFAULT_ROW_H,
            r.scroll_x == 0 && r.scroll_y == 0 && r.edit_origin == 0,
            r.scope@ == Seq::<ClipSpan>::empty(),
            r.grid_bounds is None && r.ruler_bounds is None && r.lane_bounds is None && r.key_bounds is None,
            r.snap_on,
            r.grid_res == GridRes::Sixteenth && r.quantize_res == GridRes::Sixteenth,
            r.selection@ == Set::<u64>::empty(),
            r.selection_before_marquee@ == Set::<u64>::empty(),
            r.erase_preview_ids@ == Set::<u64>::empty(),
            r.drag is Idle,
            !r.quantize_preview,
            r.hover_beat is None && r.hover_pitch is None && r.hover_note_status is None && r.drag_value_status is None,
            r.fitted_clip_id is None && r.last_editing_clip is None,
            r.active_cc == MidiControllerKind::CC(1),
            r.lane_view == PianoLaneView::Velocity && r.lane_visible,
            r.selected_articulation is None,
            r.insert_articulation == ArticulationId::Staccato,
            r.art_edit_prev is None,
            r.open_select_menu is None,
            r.custom_cc == 74,
            r.cc_edit_prev is None && r.cc_edit_target is None,
            r.cc_selection@ == Set::<u64>::empty(),
            r.cc_selection_before_marquee@ == Set::<u64>::empty(),
            r.open_cc_curve_menu is None && r.open_velocity_menu is None && r.open_note_menu is None,
            r.preview.active is None && r.preview.key_pressed is None && !r.preview.key_drag && !r.preview.connected,
            r.channel_view == all_channels(),
            !r.pitch_ctx.constrain && r.pitch_ctx.scale == (Scale { root: 0, kind: 0 }),
            chromatic(r.pitch_map@),
            !r.can_pop_out,
    {
        PianoRoll {
            tool: PianoTool::Draw,
            ppb: 80_000_000,
            row_h: DEFAULT_ROW_H,
            scroll_x: 0,
            scroll_y: 0,
            edit_origin: 0,
            scope: EditorScope::default(),
            grid_bounds: None,
            ruler_bounds: None,
            lane_bounds: None,
            key_bounds: None,
            snap_on: true,
            grid_res: GridRes::Sixteenth,
            quantize_res: GridRes::Sixteenth,
            selection: IdSet::new(),
            selection_before_marquee: IdSet::new(),
            erase_preview_ids: IdSet::new(),
            drag: PianoDrag::Idle,
            quantize_preview: false,
            hover_beat: None,
            hover_pitch: None,
            hover_note_status: None,
            drag_value_status: None,
            fitted_clip_id: None,
            last_editing_clip: None,
            active_cc: MidiControllerKind::CC(1),
            lane_view: PianoLaneView::Velocity,
            lane_visible: true,
            selected_articulation: None,
            insert_articulation: ArticulationId::Staccato,
            art_edit_prev: None,
            open_select_menu: None,
            custom_cc: 74,
            cc_edit_prev: None,
            cc_edit_target: None,
            cc_selection: IdSet::new(),
            cc_selection_before_marquee: IdSet::new(),
            open_cc_curve_menu: None,
            open_velocity_menu: None,
            open_note_menu: None,
            preview: PreviewState::new(),
            channel_view: MidiChannelMask::all(),
            pitch_ctx: PitchContext { scale: Scale { root: 0, kind: 0 }, constrain: false },
            pitch_map: chromatic_map(),
            can_pop_out: false,
        }
    }

    /// Number of selected notes.
    pub fn selected_note_count(&self) -> (n: usize)
        ensures
            n == self.selection@.len(),
    {
        self.selection.len()
    }

    /// Ids of the selected notes, ascending.
    pub fn selected_note_ids(&self) -> (ids: Vec<u64>)
        ensures
            ids@ == self.selection.listed(),
            ids@.to_set() == self.selection@,
            ids@.no_duplicates(),
    {
        self.selection.to_list()
    }

    /// Text of the grid resolution.
    pub fn grid_label(&self) -> (s: &'static str)
        ensures
            s@ == self.grid_res.spec_label(),
    {
        self.grid_res.label()
    }

    /// Step of the grid in ticks; zero on the free grid.
    pub open spec fn step(self) -> int {
        grid_step(self.grid_res, self.ppb as int)
    }

    /// Step of the grid in ticks; zero on the free grid.
    pub fn step_beats(&self) -> (s: i64)
        ensures
            s == self.step(),
            0 <= s <= 4 * TICKS_PER_BEAT,
    {
        grid_step_beats(self.grid_res, self.ppb)
    }

    /// Step that beats snap to; zero where nothing snaps.
    pub open spec fn snap_step(self, unsnap: bool) -> int {
        if unsnap || !self.snap_on || self.grid_res == GridRes::Free {
            0
        } else {
            self.step()
        }
    }

    /// Step that beats snap to; zero where nothing snaps.
    pub fn live_snap_step(&self, unsnap: bool) -> (s: i64)
        ensures
            s == self.snap_step(unsnap),
            0 <= s <= 4 * TICKS_PER_BEAT,
    {
        if unsnap || !self.snap_on || self.grid_res.is_free() {
            0
        } else {
            self.step_beats()
        }
    }

    /// `beats` on the grid, while snapping is on.
    pub fn snap_beats(&self, beats: i64) -> (r: i64)
        requires
            on_axis(beats as int),
        ensures
            r == snapped(beats as int, self.snap_step(false)),
    {
        snap_beat_to_step(beats, self.live_snap_step(false))
    }

    /// As [`Self::snap_beats`], unless `unsnap` lets go of the grid.
    pub fn snap_beats_live(&self, beats: i64, unsnap: bool) -> (r: i64)
        requires
            on_axis(beats as int),
        ensures
            r == snapped(beats as int, self.snap_step(unsnap)),
    {
        snap_beat_to_step(beats, self.live_snap_step(unsnap))
    }

    /// What the lane shows.
    pub open spec fn lane(self) -> ControllerLaneKind {
        match self.lane_view {
            PianoLaneView::Velocity => ControllerLaneKind::Velocity,
            PianoLaneView::Controller => ControllerLaneKind::Controller(self.active_cc),
            PianoLaneView::Articulations => ControllerLaneKind::Articulations,
        }
    }

    /// What the lane shows.
    pub fn current_lane(&self) -> (k: ControllerLaneKind)
        ensures
            k == self.lane(),
    {
        match self.lane_view {
            PianoLaneView::Velocity => ControllerLaneKind::Velocity,
            PianoLaneView::Controller => ControllerLaneKind::Controller(self.active_cc),
            PianoLaneView::Articulations => ControllerLaneKind::Articulations,
        }
    }

    /// Shows another lane and makes the lane visible. The data of the lanes is
    /// not touched.
    pub fn set_lane(&mut self, kind: ControllerLaneKind)
        ensures
            final(self).lane() == kind,
            *final(self) == (PianoRoll {
                lane_view: final(self).lane_view,
                active_cc: match kind {
                    ControllerLaneKind::Controller(k) => k,
                    _ => old(self).active_cc,
                },
                lane_visible: true,
                open_select_menu: None,
                selected_articulation: None,
                lane_bounds: None,
                ..*old(self)
            }),
    {
        match kind {
            ControllerLaneKind::Velocity => {
                self.lane_view = PianoLaneView::Velocity;
            },
            ControllerLaneKind::Controller(k) => {
                self.lane_view = PianoLaneView::Controller;
                self.active_cc = k;
            },
            ControllerLaneKind::Articulations => {
                self.lane_view = PianoLaneView::Articulations;
            },
        }
        self.lane_visible = true;
        self.open_select_menu = None;
        self.selected_articulation = None;
        self.lane_bounds = None;
    }

    /// Steps through the lanes.
    pub fn cycle_lane(&mut self, dir: i32)
        requires
            lane_place(old(self).lane()) + dir <= i32::MAX,
        ensures
            final(self).lane() == lane_after(old(self).lane(), dir as int),
            *final(self) == (PianoRoll {
                lane_view: final(self).lane_view,
                active_cc: final(self).active_cc,
                lane_visible: true,
                open_select_menu: None,
                selected_articulation: None,
                lane_bounds: None,
                ..*old(self)
            }),
            !(final(self).lane() is Controller) ==> final(self).active_cc == old(self).active_cc,
    {
        let kind = next_lane(self.current_lane(), dir);
        self.set_lane(kind);
    }

    /// Shows or hides the lane.
    pub fn toggle_lane_visible(&mut self)
        ensures
            *final(self) == (PianoRoll {
                lane_visible: !old(self).lane_visible,
                open_select_menu: None,
                ..*old(self)
            }),
    {
        self.lane_visible = !self.lane_visible;
        self.open_select_menu = None;
    }

    /// The lane is on screen. An editor with performance lanes of its own
    /// replaces all views but the articulations.
    pub fn unified_lane_visible(&self, own_lanes: bool) -> (r: bool)
        ensures
            r == (self.lane_visible && (self.lane_view == PianoLaneView::Articulations || !own_lanes)),
    {
        self.lane_visible && (self.lane_view == PianoLaneView::Articulations || !own_lanes)
    }

    /// Name of the lane.
    pub fn lane_name(&self) -> (s: String)
        ensures
            s@ == lane_title(self.lane()),
    {
        match self.current_lane() {
            ControllerLaneKind::Velocity => "Velocity".to_owned(),
            ControllerLaneKind::Controller(k) => cc_kind_label(k),
            ControllerLaneKind::Articulations => "Articulations".to_owned(),
        }
    }

    /// Range of the lane's values.
    pub fn lane_range(&self) -> (s: &'static str)
        ensures
            s@ == lane_span(self.lane()),
    {
        match self.current_lane() {
            ControllerLaneKind::Velocity => "1–127",
            ControllerLaneKind::Controller(MidiControllerKind::PitchBend) => "-8192..8191",
            ControllerLaneKind::Controller(_) => "0–127",
            ControllerLaneKind::Articulations => "Direction",
        }
    }

    /// `true` when notes on `channel` show and can be reached.
    pub fn channel_visible(&self, channel: MidiChannel) -> (r: bool)
        ensures
            r == self.channel_view.shows(channel),
    {
        self.channel_view.contains(channel)
    }

    /// The one channel that the view shows, where it shows one alone.
    fn single_channel(&self) -> (r: Option<u8>)
        ensures
            r == lone_channel(self.channel_view, 0),
    {
        let mut c: u8 = 0;
        while c < CHANNEL_COUNT
            invariant
                c <= CHANNEL_COUNT,
                lone_channel(self.channel_view, 0) == lone_channel(self.channel_view, c as int),
            decreases CHANNEL_COUNT - c,
        {
            if self.channel_view == MidiChannelMask::single(MidiChannel { raw: c }) {
                return Some(c);
            }
            c = c + 1;
        }
        None
    }

    /// Channel of newly drawn notes.
    pub open spec fn drawing_channel(self, track_channel: MidiChannel) -> MidiChannel {
        match lone_channel(self.channel_view, 0) {
            Some(c) => MidiChannel { raw: c },
            None => track_channel,
        }
    }

    /// Channel of newly drawn notes: the one that the view shows, where it shows
    /// one alone, so that a drawn note is never hidden; else the track's.
    pub fn active_note_channel(&self, track_channel: MidiChannel) -> (c: MidiChannel)
        ensures
            c == self.drawing_channel(track_channel),
    {
        match self.single_channel() {
            Some(c) => MidiChannel { raw: c },
            None => track_channel,
        }
    }

    /// Shows other channels.
    pub fn set_channel_view(&mut self, mask: MidiChannelMask)
        ensures
            *final(self) == (PianoRoll { channel_view: mask, open_select_menu: None, ..*old(self) }),
    {
        self.channel_view = mask;
        self.open_select_menu = None;
    }

    /// Text of the channel view.
    pub fn channel_view_label(&self) -> (s: String)
        ensures
            s@ == (if self.channel_view == all_channels() {
                "All Channels"@
            } else {
                match lone_channel(self.channel_view, 0) {
                    Some(c) => "Channel "@ + decimal_text(c + 1),
                    None => "Custom"@,
                }
            }),
    {
        if self.channel_view.is_all() {
            return "All Channels".to_owned();
        }
        match self.single_channel() {
            Some(c) => {
                let mut s = "Channel ".to_owned();
                push_decimal(&mut s, c as i64 + 1);
                s
            },
            None => "Custom".to_owned(),
        }
    }

    /// Size of the note grid.
    pub open spec fn grid_size(self) -> (int, int) {
        view_size(self.grid_bounds, 600 * PX, 200 * PX)
    }

    /// Size of the note grid.
    pub fn grid_view_size(&self) -> (r: (i64, i64))
        requires
            self.valid(),
        ensures
            (r.0 as int, r.1 as int) == self.grid_size(),
            PX <= r.0 <= WINDOW_LIMIT && PX <= r.1 <= WINDOW_LIMIT,
    {
        match self.grid_bounds {
            Some(b) => (max_i64(b.width, PX), max_i64(b.height, PX)),
            None => (600_000_000, 200_000_000),
        }
    }

    /// Size of the lane.
    pub open spec fn lane_size(self) -> (int, int) {
        view_size(self.lane_bounds, 600 * PX, LANE_H as int)
    }

    /// Size of the lane.
    pub fn cc_view_size(&self) -> (r: (i64, i64))
        requires
            self.valid(),
        ensures
            (r.0 as int, r.1 as int) == self.lane_size(),
            PX <= r.0 <= WINDOW_LIMIT && PX <= r.1 <= WINDOW_LIMIT,
    {
        match self.lane_bounds {
            Some(b) => (max_i64(b.width, PX), max_i64(b.height, PX)),
            None => (600_000_000, LANE_H),
        }
    }

    /// A window point on the grid.
    pub fn grid_local(&self, x: i64, y: i64) -> (p: Option<(i64, i64)>)
        requires
            self.valid(),
            in_window(x as int),
            in_window(y as int),
        ensures
            p == local_point(self.grid_bounds, x, y),
            p matches Some(q) ==> on_surface(q.0 as int) && on_surface(q.1 as int),
    {
        to_local(self.grid_bounds, x, y)
    }

    /// A window point on the ruler.
    pub fn ruler_local(&self, x: i64, y: i64) -> (p: Option<(i64, i64)>)
        requires
            self.valid(),
            in_window(x as int),
            in_window(y as int),
        ensures
            p == local_point(self.ruler_bounds, x, y),
            p matches Some(q) ==> on_surface(q.0 as int) && on_surface(q.1 as int),
    {
        to_local(self.ruler_bounds, x, y)
    }

    /// A window point on the lane.
    pub fn cc_local(&self, x: i64, y: i64) -> (p: Option<(i64, i64)>)
        requires
            self.valid(),
            in_window(x as int),
            in_window(y as int),
        ensures
            p == local_point(self.lane_bounds, x, y),
            p matches Some(q) ==> on_surface(q.0 as int) && on_surface(q.1 as int),
    {
        to_local(self.lane_bounds, x, y)
    }

    /// Key under a window point; nothing outside the key lane.
    pub open spec fn key_under(self, x: i64, y: i64) -> Option<u8> {
        match self.key_bounds {
            Some(b) => if 0 <= x - b.x <= b.width && 0 <= y - b.y <= b.height {
                Some(pitch_at(y - b.y, self.scroll_y as int, self.row_h as int) as u8)
            } else {
                None
            },
            None => None,
        }
    }

    /// Key under a window point; nothing outside the key lane.
    pub fn key_lane_pitch_at(&self, x: i64, y: i64) -> (p: Option<u8>)
        requires
            self.valid(),
            in_window(x as int),
            in_window(y as int),
        ensures
            p == self.key_under(x, y),
    {
        match self.key_bounds {
            Some(b) => {
                let lx: i64 = x - b.x;
                let ly: i64 = y - b.y;
                if lx < 0 || lx > b.width || ly < 0 || ly > b.height {
                    None
                } else {
                    Some(self.y_to_pitch(ly))
                }
            },
            None => None,
        }
    }

    /// The time axis of the edited clip.
    pub open spec fn axis(self) -> ClipAxis {
        ClipAxis { ppb: self.ppb, scroll_x: self.scroll_x, origin: self.edit_origin }
    }

    /// The time axis of the edited clip.
    pub fn clip_axis(&self) -> (a: ClipAxis)
        requires
            self.valid(),
        ensures
            a == self.axis(),
            a.valid(),
    {
        proof {
            lemma_scroll_bound(self.scroll_x as int, self.ppb as int);
        }
        ClipAxis { ppb: self.ppb, scroll_x: self.scroll_x, origin: self.edit_origin }
    }

    /// Beat within the edited clip under a local x.
    pub fn x_to_clip_beat(&self, local_x: i64) -> (beat: i64)
        requires
            self.valid(),
            on_surface(local_x as int),
        ensures
            beat == self.axis().beat_at(local_x as int),
            -SONG_LIMIT <= beat <= BEAT_LIMIT,
    {
        let axis = self.clip_axis();
        proof {
            lemma_beat_in_reach(local_x as int, self.scroll_x as int, self.ppb as int);
        }
        axis.x_to_clip_beat(local_x)
    }

    /// Beat under a local x, on the grid unless `unsnap`.
    pub open spec fn live_beat(self, local_x: int, unsnap: bool) -> int {
        snapped(self.axis().beat_at(local_x), self.snap_step(unsnap))
    }

    /// Beat under a local x, on the grid unless `unsnap`.
    pub fn live_beat_at(&self, local_x: i64, unsnap: bool) -> (beat: i64)
        requires
            self.valid(),
            on_surface(local_x as int),
        ensures
            beat == self.live_beat(local_x as int, unsnap),
            0 <= beat <= BEAT_LIMIT + 4 * TICKS_PER_BEAT,
    {
        let raw = self.x_to_clip_beat(local_x);
        proof {
            lemma_snap_reach(raw as int, self.snap_step(unsnap));
        }
        self.snap_beats_live(raw, unsnap)
    }

    /// Local x of a beat within the edited clip.
    pub fn clip_beat_to_x(&self, beat: i64) -> (x: i64)
        requires
            self.valid(),
            on_axis(beat as int),
        ensures
            x == self.axis().x_at(beat as int),
            -0x2000_0000_0000_0000 <= x <= 0x2000_0000_0000_0000,
    {
        self.clip_axis().clip_beat_to_x(beat)
    }

    /// Pitch of the row under a local y.
    pub fn y_to_pitch(&self, local_y: i64) -> (p: u8)
        requires
            self.valid(),
            on_surface(local_y as int),
        ensures
            p == pitch_at(local_y as int, self.scroll_y as int, self.row_h as int),
            p <= 127,
    {
        local_y_to_pitch(local_y, self.scroll_y, self.row_h)
    }
}

/// The scroll of a valid view fits the axis.
pub proof fn lemma_scroll_bound(scroll_x: int, ppb: int)
    requires
        0 <= scroll_x,
        scroll_x * TICKS_PER_BEAT <= SCROLL_TICKS * ppb,
        PIANO_ROLL_MIN_PPB <= ppb <= PIANO_ROLL_MAX_PPB,
    ensures
        scroll_x <= 58_000_000_000_000,
{
    assert(SCROLL_TICKS * ppb <= 137_438_953_472 * 400_000_000) by (nonlinear_arith)
        requires
            ppb <= 400_000_000,
    ;
}

/// A pointer on a surface is never past the last reachable beat.
pub proof fn lemma_beat_in_reach(local_x: int, scroll_x: int, ppb: int)
    requires
        on_surface(local_x),
        0 <= scroll_x,
        scroll_x * TICKS_PER_BEAT <= SCROLL_TICKS * ppb,
        PIANO_ROLL_MIN_PPB <= ppb <= PIANO_ROLL_MAX_PPB,
    ensures
        0 <= beat_of_x(local_x, ppb, scroll_x) <= BEAT_LIMIT,
{
    let a = (local_x + scroll_x) * TICKS_PER_BEAT;
    lemma_nearest_bound(a, ppb);
    let q = nearest(a, ppb);
    assert(a <= 2 * 68_719_476_736 * 960_000 + 137_438_953_472 * ppb);
    if q > 270_000_000_000 {
        assert(q * ppb >= 270_000_000_001 * ppb) by (nonlinear_arith)
            requires
                q >= 270_000_000_001,
                ppb > 0,
        ;
    }
}

/// Snapping moves a beat by at most half a step.
pub proof fn lemma_snap_reach(beat: int, step: int)
    requires
        step <= 4 * TICKS_PER_BEAT,
    ensures
        snapped(beat, step) <= max_of(beat, 0) + 2 * TICKS_PER_BEAT,
        snapped(beat, step) >= 0,
        beat >= 0 ==> snapped(beat, step) >= beat - 2 * TICKS_PER_BEAT,
{
    if step > 0 {
        lemma_nearest_bound(beat, step);
        if beat < 0 {
            assert(nearest(beat, step) * step <= 0) by (nonlinear_arith)
                requires
                    nearest(beat, step) <= 0,
                    step > 0,
            ;
        }
    }
}

} // verus!
