//! Where notes and points are on screen, and which of them a pointer meets.

use crate::cc_paint::{controller_y_for_value, height_of_value};
use crate::drag::{note_in_song, notes_in_song, on_surface, points_in_song, PianoDrag};
use crate::fixed::{
    lemma_nearest_bound, magnitude, max_i64, max_of, min_i64, min_of, nearest, nearest_div, on_axis, PX, SONG_LIMIT,
    TICKS_PER_BEAT,
};
use crate::id_set::IdSet;
use crate::midi::{MidiControllerPoint, MidiNote};
use crate::note_edits::{drag_pitch, dragged_pitch, resized, NotePlace, NoteShift};
use crate::rect::{rects_intersect, Rect};
use crate::roll::{lemma_snap_reach, PianoRoll};
use crate::velocity_lane::{BAR_PICK_REACH, BAR_W};
use crate::viewport::PITCH_COUNT;
use vstd::prelude::*;

verus! {

/// Narrowest that a note is drawn, clicked and selected.
pub const NOTE_MIN_W: i64 = 5_000_000;

/// Width of the handle at a note's right edge.
pub const RESIZE_ZONE: i64 = 8_000_000;

/// Narrowest note with a handle: the handle, and as much to grab beside it.
pub const NOTE_RESIZE_MIN_W: i64 = 18_000_000;

/// How far a click on the grid reaches for a note.
pub const GRID_PICK_REACH: i64 = 2_000_000;

/// How far a click in the lane reaches for a point.
pub const POINT_PICK_REACH: i64 = 6_000_000;

/// A note as the gesture in progress shows it.
#[derive(Debug, Clone, Copy, PartialEq, Eq, Structural)]
pub struct DisplayNote {
    pub id: u64,
    pub pitch: u8,
    pub start: i64,
    pub duration: i64,
    pub velocity: u8,
}

/// A note of `prev` has this id.
pub open spec fn moves_note(prev: Seq<NotePlace>, id: u64) -> bool {
    exists|i: int| 0 <= i < prev.len() && (#[trigger] prev[i]).id == id
}

/// Length of the first entry for this id.
pub open spec fn length_of(prev: Seq<(u64, i64)>, id: u64) -> Option<i64>
    decreases prev.len(),
{
    if prev.len() == 0 {
        None
    } else if prev[0].0 == id {
        Some(prev[0].1)
    } else {
        length_of(prev.drop_first(), id)
    }
}

proof fn lemma_length_found(prev: Seq<(u64, i64)>, id: u64, at: int)
    requires
        0 <= at <= prev.len(),
        forall|k: int| 0 <= k < at ==> (#[trigger] prev[k]).0 != id,
        at < prev.len() ==> prev[at].0 == id,
    ensures
        length_of(prev, id) == (if at < prev.len() {
            Some(prev[at].1)
        } else {
            None
        }),
    decreases prev.len(),
{
    if prev.len() > 0 && at > 0 {
        let rest = prev.drop_first();
        assert forall|k: int| 0 <= k < at - 1 implies (#[trigger] rest[k]).0 != id by {
            assert(rest[k] == prev[k + 1]);
        }
        if at < prev.len() {
            assert(rest[at - 1] == prev[at]);
        }
        lemma_length_found(rest, id, at - 1);
    }
}

/// A length found is one of the lengths.
proof fn lemma_length_is_listed(prev: Seq<(u64, i64)>, id: u64)
    ensures
        length_of(prev, id) matches Some(d) ==> exists|i: int| 0 <= i < prev.len() && (#[trigger] prev[i]).1 == d,
    decreases prev.len(),
{
    if prev.len() > 0 && prev[0].0 != id {
        let rest = prev.drop_first();
        lemma_length_is_listed(rest, id);
        if let Some(d) = length_of(rest, id) {
            let i = choose|i: int| 0 <= i < rest.len() && (#[trigger] rest[i]).1 == d;
            assert(prev[i + 1].1 == d);
        }
    }
}

fn find_length(prev: &Vec<(u64, i64)>, id: u64) -> (r: Option<i64>)
    ensures
        r == length_of(prev@, id),
        r matches Some(d) ==> exists|i: int| 0 <= i < prev@.len() && (#[trigger] prev@[i]).1 == d,
{
    let mut i: usize = 0;
    while i < prev.len()
        invariant
            i <= prev@.len(),
            forall|k: int| 0 <= k < i ==> (#[trigger] prev@[k]).0 != id,
        decreases prev@.len() - i,
    {
        if prev[i].0 == id {
            proof {
                lemma_length_found(prev@, id, i as int);
            }
            return Some(prev[i].1);
        }
        i = i + 1;
    }
    proof {
        lemma_length_found(prev@, id, i as int);
    }
    None
}

fn has_place(prev: &Vec<NotePlace>, id: u64) -> (r: bool)
    ensures
        r == moves_note(prev@, id),
{
    let mut i: usize = 0;
    while i < prev.len()
        invariant
            i <= prev@.len(),
            forall|k: int| 0 <= k < i ==> (#[trigger] prev@[k]).id != id,
        decreases prev@.len() - i,
    {
        if prev[i].id == id {
            return true;
        }
        i = i + 1;
    }
    false
}

/// Where a note is drawn: left, top, right, bottom.
pub open spec fn note_box(roll: PianoRoll, n: DisplayNote) -> (int, int, int, int) {
    let x = roll.axis().x_at(n.start as int);
    let y = (PITCH_COUNT - 1 - n.pitch) * roll.row_h - roll.scroll_y + PX;
    (x, y, x + note_width(n.duration as int, roll.ppb as int), y + roll.row_h - 2 * PX)
}

/// Width of a note on screen.
pub open spec fn note_width(duration: int, ppb: int) -> int {
    max_of(nearest(duration * ppb, TICKS_PER_BEAT as int), NOTE_MIN_W as int)
}

/// The width of a note on the axis fits its type.
pub proof fn lemma_width_reach(duration: int, ppb: int)
    requires
        0 <= duration,
        on_axis(duration),
        1_000_000 <= ppb <= 400_000_000,
    ensures
        0 <= duration * ppb <= 70_368_744_177_664 * 400_000_000,
        NOTE_MIN_W <= note_width(duration, ppb) <= 0x1000_0000_0000_0000,
{
    assert(0 <= duration * ppb <= 70_368_744_177_664 * 400_000_000) by (nonlinear_arith)
        requires
            0 <= duration <= 70_368_744_177_664,
            0 <= ppb <= 400_000_000,
    ;
    lemma_nearest_bound(duration * ppb, 960_000);
}

/// Width of a note on screen.
pub fn width_of_note(duration: i64, ppb: i64) -> (w: i64)
    requires
        0 <= duration,
        on_axis(duration as int),
        1_000_000 <= ppb <= 400_000_000,
    ensures
        w == note_width(duration as int, ppb as int),
        NOTE_MIN_W <= w <= 0x1000_0000_0000_0000,
{
    proof {
        lemma_width_reach(duration as int, ppb as int);
    }
    let w = nearest_div(duration as i128 * ppb as i128, 960_000);
    max_i64(w as i64, NOTE_MIN_W)
}

/// Notes are never too narrow to hit: drawing and hit-testing share the width,
/// and a note with a handle keeps as much room beside it.
pub proof fn law_handle_leaves_room_to_grab(duration: int, ppb: int)
    requires
        note_width(duration, ppb) >= NOTE_RESIZE_MIN_W,
    ensures
        note_width(duration, ppb) - RESIZE_ZONE >= RESIZE_ZONE,
        NOTE_MIN_W < NOTE_RESIZE_MIN_W,
{
}

/// A rectangle and a box overlap.
pub open spec fn box_meets(rect: Rect, b: (int, int, int, int)) -> bool {
    rect.left < b.2 && rect.right > b.0 && rect.top < b.3 && rect.bottom > b.1
}

/// The note shows and meets the rectangle.
pub open spec fn note_meets(roll: PianoRoll, n: MidiNote, rect: Rect) -> bool {
    roll.channel_view.shows(n.channel) && box_meets(rect, note_box(roll, roll.displayed(n)))
}

/// Some note with this id meets the rectangle.
pub open spec fn id_meets(roll: PianoRoll, notes: Seq<MidiNote>, rect: Rect, id: u64) -> bool {
    exists|i: int| 0 <= i < notes.len() && (#[trigger] notes[i]).id == id && note_meets(roll, notes[i], rect)
}

/// Ids of the notes that meet a rectangle.
pub open spec fn hit_ids(roll: PianoRoll, notes: Seq<MidiNote>, rect: Rect) -> Set<u64> {
    Set::new(|id: u64| id_meets(roll, notes, rect, id))
}

/// The rectangle that a click on the grid covers.
pub open spec fn pick_rect(roll: PianoRoll, lx: int, ly: int) -> Rect {
    Rect {
        left: max_of(lx - GRID_PICK_REACH, 0) as i64,
        top: max_of(ly - GRID_PICK_REACH, 0) as i64,
        right: min_of(lx + GRID_PICK_REACH, roll.grid_size().0) as i64,
        bottom: min_of(ly + GRID_PICK_REACH, roll.grid_size().1) as i64,
    }
}

/// Distance of a local x from a velocity bar.
pub open spec fn bar_distance(bar_x: int, lx: int) -> int {
    if lx < bar_x {
        bar_x - lx
    } else if lx > bar_x + BAR_W {
        lx - (bar_x + BAR_W)
    } else {
        0
    }
}

/// The bar of a note, as far as a click can pick it.
pub open spec fn bar_pick(roll: PianoRoll, n: MidiNote, lx: int) -> Option<int> {
    let d = bar_distance(roll.axis().x_at(roll.displayed(n).start as int), lx);
    if roll.channel_view.shows(n.channel) && d <= BAR_PICK_REACH {
        Some(d)
    } else {
        None
    }
}

/// Index of the nearest bar within reach; the first of several.
pub open spec fn nearest_bar(roll: PianoRoll, notes: Seq<MidiNote>, lx: int) -> Option<int>
    decreases notes.len(),
{
    if notes.len() == 0 {
        None
    } else {
        let best = nearest_bar(roll, notes.drop_last(), lx);
        match bar_pick(roll, notes.last(), lx) {
            None => best,
            Some(d) => match best {
                Some(i) => if d < bar_pick(roll, notes[i], lx)->0 {
                    Some(notes.len() - 1)
                } else {
                    best
                },
                None => Some(notes.len() - 1),
            },
        }
    }
}

proof fn lemma_nearest_bar(roll: PianoRoll, notes: Seq<MidiNote>, lx: int)
    ensures
        nearest_bar(roll, notes, lx) matches Some(i) ==> 0 <= i < notes.len() && bar_pick(roll, notes[i], lx) is Some,
    decreases notes.len(),
{
    if notes.len() > 0 {
        lemma_nearest_bar(roll, notes.drop_last(), lx);
    }
}

/// The bar that a click picks is the nearest one within reach.
pub proof fn law_picked_bar_is_nearest(roll: PianoRoll, notes: Seq<MidiNote>, lx: int, k: int)
    requires
        0 <= k < notes.len(),
        bar_pick(roll, notes[k], lx) is Some,
    ensures
        nearest_bar(roll, notes, lx) is Some,
        ({
            let i = nearest_bar(roll, notes, lx)->0;
            &&& 0 <= i < notes.len()
            &&& bar_pick(roll, notes[i], lx) is Some
            &&& bar_pick(roll, notes[i], lx)->0 <= bar_pick(roll, notes[k], lx)->0
        }),
    decreases notes.len(),
{
    let front = notes.drop_last();
    lemma_nearest_bar(roll, notes, lx);
    lemma_nearest_bar(roll, front, lx);
    if k < notes.len() - 1 {
        assert(front[k] == notes[k]);
        law_picked_bar_is_nearest(roll, front, lx, k);
    }
    if let Some(i) = nearest_bar(roll, front, lx) {
        assert(front[i] == notes[i]);
    }
}

/// A point within reach of a click in the lane.
pub open spec fn point_near(roll: PianoRoll, p: MidiControllerPoint, lx: int, ly: int) -> bool {
    magnitude(lx - roll.axis().x_at(p.beat as int)) <= POINT_PICK_REACH && magnitude(
        ly - height_of_value(p.value as int, roll.lane_size().1),
    ) <= POINT_PICK_REACH
}

/// Id of the first point within reach.
pub open spec fn first_point_near(roll: PianoRoll, points: Seq<MidiControllerPoint>, lx: int, ly: int) -> Option<u64>
    decreases points.len(),
{
    if points.len() == 0 {
        None
    } else {
        match first_point_near(roll, points.drop_last(), lx, ly) {
            Some(id) => Some(id),
            None => if point_near(roll, points.last(), lx, ly) {
                Some(points.last().id)
            } else {
                None
            },
        }
    }
}

/// A point inside a rectangle of the lane, edges among it.
pub open spec fn point_inside(roll: PianoRoll, p: MidiControllerPoint, rect: Rect) -> bool {
    let x = roll.axis().x_at(p.beat as int);
    let y = height_of_value(p.value as int, roll.lane_size().1);
    rect.left <= x <= rect.right && rect.top <= y <= rect.bottom
}

/// Ids of the points inside a rectangle of the lane.
pub open spec fn point_hits(roll: PianoRoll, points: Seq<MidiControllerPoint>, rect: Rect) -> Set<u64> {
    Set::new(
        |id: u64|
            exists|i: int| 0 <= i < points.len() && (#[trigger] points[i]).id == id && point_inside(roll, points[i], rect),
    )
}

impl PianoRoll {
    /// How the notes of a move gesture shift.
    pub open spec fn shift_of(self, d: crate::drag::MoveDrag) -> NoteShift {
        NoteShift {
            anchor_start: d.anchor_start,
            dx_beats: d.dx_beats,
            dpitch: d.dpitch,
            snap_step: self.snap_step(d.unsnap) as i64,
        }
    }

    /// A note as the gesture in progress shows it.
    pub open spec fn displayed(self, n: MidiNote) -> DisplayNote {
        let still = DisplayNote {
            id: n.id,
            pitch: n.pitch,
            start: n.start,
            duration: n.duration,
            velocity: n.velocity,
        };
        match self.drag {
            PianoDrag::Move(d) => if moves_note(d.prev@, n.id) {
                DisplayNote {
                    start: max_of(n.start + self.shift_of(d).delta(), 0) as i64,
                    pitch: dragged_pitch(self.pitch_map@, n.pitch as int, d.dpitch as int),
                    ..still
                }
            } else {
                still
            },
            PianoDrag::Resize(d) => match length_of(d.prev_durs@, n.id) {
                Some(prev) => DisplayNote { duration: resized(prev as int, d.delta_dur as int) as i64, ..still },
                None => still,
            },
            _ => still,
        }
    }

    /// A note as the gesture in progress shows it. While notes move, the grabbed
    /// one snaps and the others keep their distance from it.
    pub fn display_note(&self, n: &MidiNote) -> (d: DisplayNote)
        requires
            self.valid(),
            note_in_song(*n),
        ensures
            d == self.displayed(*n),
            0 <= d.start <= 4 * SONG_LIMIT,
            0 <= d.duration && on_axis(d.duration as int),
            d.pitch <= 127,
    {
        let mut start: i64 = n.start;
        let mut pitch: u8 = n.pitch;
        let mut duration: i64 = n.duration;
        proof {
            lemma_displayed_reach(*self, *n);
        }
        match &self.drag {
            PianoDrag::Move(d) => {
                if has_place(&d.prev, n.id) {
                    let step = self.live_snap_step(d.unsnap);
                    let shift = NoteShift {
                        anchor_start: d.anchor_start,
                        dx_beats: d.dx_beats,
                        dpitch: d.dpitch,
                        snap_step: step,
                    };
                    proof {
                        lemma_snap_reach(d.anchor_start + d.dx_beats, step as int);
                    }
                    let delta = shift.effective_delta();
                    start = max_i64(n.start + delta, 0);
                    pitch = drag_pitch(&self.pitch_map, n.pitch, d.dpitch);
                }
            },
            PianoDrag::Resize(d) => {
                match find_length(&d.prev_durs, n.id) {
                    Some(prev) => {
                        duration = max_i64(prev + d.delta_dur, crate::fixed::MIN_NOTE_TICKS);
                    },
                    None => {},
                }
            },
            _ => {},
        }
        DisplayNote { id: n.id, pitch, start, duration, velocity: n.velocity }
    }

    /// Where a note is drawn and hit.
    pub fn note_to_rect(&self, n: &DisplayNote) -> (r: Rect)
        requires
            self.valid(),
            0 <= n.start <= 4 * SONG_LIMIT,
            0 <= n.duration && on_axis(n.duration as int),
            n.pitch <= 127,
        ensures
            (r.left as int, r.top as int, r.right as int, r.bottom as int) == note_box(*self, *n),
    {
        let x = self.clip_beat_to_x(n.start);
        let w = width_of_note(n.duration, self.ppb);
        assert(0 <= (127 - n.pitch) * self.row_h <= 127 * 200_000_000) by (nonlinear_arith)
            requires
                0 <= n.pitch <= 127,
                0 <= self.row_h <= 200_000_000,
        ;
        let y: i64 = (127 - n.pitch as i64) * self.row_h - self.scroll_y + PX;
        Rect { left: x, top: y, right: x + w, bottom: y + self.row_h - 2 * PX }
    }

    /// Ids of the visible notes that meet a rectangle of the grid.
    pub fn collect_notes_in_rect(&self, notes: &Vec<MidiNote>, rect: Rect) -> (hits: IdSet)
        requires
            self.valid(),
            notes_in_song(notes@),
        ensures
            hits@ == hit_ids(*self, notes@, rect),
    {
        let mut hits = IdSet::new();
        let mut i: usize = 0;
        while i < notes.len()
            invariant
                self.valid(),
                notes_in_song(notes@),
                i <= notes@.len(),
                forall|id: u64| #[trigger]
                    hits@.contains(id) <==> exists|k: int|
                        0 <= k < i && (#[trigger] notes@[k]).id == id && note_meets(*self, notes@[k], rect),
            decreases notes@.len() - i,
        {
            let n = notes[i];
            if self.channel_visible(n.channel) {
                let d = self.display_note(&n);
                let b = self.note_to_rect(&d);
                if rects_intersect(rect, b) {
                    hits.insert(n.id);
                }
            }
            i = i + 1;
        }
        assert(hits@ =~= hit_ids(*self, notes@, rect));
        hits
    }

    /// Ids of the visible notes that a marquee covers.
    pub fn marquee_hits(&self, notes: &Vec<MidiNote>, marquee: Rect) -> (hits: IdSet)
        requires
            self.valid(),
            notes_in_song(notes@),
        ensures
            hits@ == hit_ids(*self, notes@, marquee),
    {
        self.collect_notes_in_rect(notes, marquee)
    }

    /// A visible note under a point of the grid; of several, the one with the
    /// smallest id.
    pub fn note_at_grid(&self, notes: &Vec<MidiNote>, lx: i64, ly: i64) -> (r: Option<u64>)
        requires
            self.valid(),
            notes_in_song(notes@),
            on_surface(lx as int),
            on_surface(ly as int),
        ensures
            match r {
                Some(id) => hit_ids(*self, notes@, pick_rect(*self, lx as int, ly as int)).contains(id) && forall|other:
                    u64|
                    hit_ids(*self, notes@, pick_rect(*self, lx as int, ly as int)).contains(other) ==> id <= other,
                None => hit_ids(*self, notes@, pick_rect(*self, lx as int, ly as int)) == Set::<u64>::empty(),
            },
    {
        let (view_w, view_h) = self.grid_view_size();
        let rect = Rect {
            left: max_i64(lx - GRID_PICK_REACH, 0),
            top: max_i64(ly - GRID_PICK_REACH, 0),
            right: min_i64(lx + GRID_PICK_REACH, view_w),
            bottom: min_i64(ly + GRID_PICK_REACH, view_h),
        };
        let hits = self.collect_notes_in_rect(notes, rect);
        let list = hits.to_list();
        if list.len() == 0 {
            assert(hits@ =~= Set::<u64>::empty());
            None
        } else {
            assert(list@.to_set().contains(list@[0]));
            assert forall|other: u64| hits@.contains(other) implies list@[0] <= other by {
                assert(list@.contains(other));
            }
            Some(list[0])
        }
    }

    /// Note and velocity of the bar that a click in the velocity lane picks.
    pub fn velocity_note_at_x(&self, notes: &Vec<MidiNote>, lx: i64) -> (r: Option<(u64, u8)>)
        requires
            self.valid(),
            notes_in_song(notes@),
            on_surface(lx as int),
        ensures
            r == (match nearest_bar(*self, notes@, lx as int) {
                Some(i) => Some((notes@[i].id, notes@[i].velocity)),
                None => None,
            }),
    {
        let mut best: Option<(usize, i64)> = None;
        let mut i: usize = 0;
        proof {
            assert(notes@.subrange(0, 0) =~= Seq::<MidiNote>::empty());
        }
        while i < notes.len()
            invariant
                self.valid(),
                notes_in_song(notes@),
                on_surface(lx as int),
                i <= notes@.len(),
                match best {
                    Some(b) => nearest_bar(*self, notes@.subrange(0, i as int), lx as int) == Some(b.0 as int) && b.0 < i
                        && bar_pick(*self, notes@[b.0 as int], lx as int) == Some(b.1 as int),
                    None => nearest_bar(*self, notes@.subrange(0, i as int), lx as int) is None,
                },
            decreases notes@.len() - i,
        {
            let n = notes[i];
            proof {
                assert(notes@.subrange(0, i + 1).drop_last() =~= notes@.subrange(0, i as int));
                assert(notes@.subrange(0, i + 1).last() == n);
            }
            if self.channel_visible(n.channel) {
                let d = self.display_note(&n);
                let x = self.clip_beat_to_x(d.start);
                let distance: i64 = if lx < x {
                    x - lx
                } else if lx > x + BAR_W {
                    lx - (x + BAR_W)
                } else {
                    0
                };
                if distance <= BAR_PICK_REACH {
                    let closer = match best {
                        Some(b) => distance < b.1,
                        None => true,
                    };
                    if closer {
                        best = Some((i, distance));
                    }
                }
            }
            i = i + 1;
        }
        assert(notes@.subrange(0, notes@.len() as int) =~= notes@);
        match best {
            Some(b) => Some((notes[b.0].id, notes[b.0].velocity)),
            None => None,
        }
    }

    /// A point of the lane within reach of a click.
    pub fn cc_point_at(&self, points: &Vec<MidiControllerPoint>, lx: i64, ly: i64) -> (r: Option<u64>)
        requires
            self.valid(),
            points_in_song(points@),
            on_surface(lx as int),
            on_surface(ly as int),
        ensures
            r == first_point_near(*self, points@, lx as int, ly as int),
    {
        let (_w, lane_h) = self.cc_view_size();
        let mut found: Option<u64> = None;
        let mut i: usize = 0;
        proof {
            assert(points@.subrange(0, 0) =~= Seq::<MidiControllerPoint>::empty());
        }
        while i < points.len()
            invariant
                self.valid(),
                points_in_song(points@),
                on_surface(lx as int),
                on_surface(ly as int),
                lane_h == self.lane_size().1,
                on_axis(lane_h as int),
                i <= points@.len(),
                found == first_point_near(*self, points@.subrange(0, i as int), lx as int, ly as int),
            decreases points@.len() - i,
        {
            let p = points[i];
            proof {
                assert(points@.subrange(0, i + 1).drop_last() =~= points@.subrange(0, i as int));
                assert(points@.subrange(0, i + 1).last() == p);
            }
            if found.is_none() {
                let x = self.clip_beat_to_x(p.beat);
                let y = controller_y_for_value(p.value, lane_h);
                let dx: i64 = lx - x;
                let dy: i64 = ly - y;
                if -POINT_PICK_REACH <= dx && dx <= POINT_PICK_REACH && -POINT_PICK_REACH <= dy && dy
                    <= POINT_PICK_REACH {
                    found = Some(p.id);
                }
            }
            i = i + 1;
        }
        assert(points@.subrange(0, points@.len() as int) =~= points@);
        found
    }

    /// Ids of the points inside a rectangle of the lane.
    pub fn cc_select_hits(&self, points: &Vec<MidiControllerPoint>, rect: Rect) -> (hits: IdSet)
        requires
            self.valid(),
            points_in_song(points@),
        ensures
            hits@ == point_hits(*self, points@, rect),
    {
        let (_w, lane_h) = self.cc_view_size();
        let mut hits = IdSet::new();
        let mut i: usize = 0;
        while i < points.len()
            invariant
                self.valid(),
                points_in_song(points@),
                lane_h == self.lane_size().1,
                on_axis(lane_h as int),
                i <= points@.len(),
                forall|id: u64| #[trigger]
                    hits@.contains(id) <==> exists|k: int|
                        0 <= k < i && (#[trigger] points@[k]).id == id && point_inside(*self, points@[k], rect),
            decreases points@.len() - i,
        {
            let p = points[i];
            let x = self.clip_beat_to_x(p.beat);
            let y = controller_y_for_value(p.value, lane_h);
            if x >= rect.left && x <= rect.right && y >= rect.top && y <= rect.bottom {
                hits.insert(p.id);
            }
            i = i + 1;
        }
        assert(hits@ =~= point_hits(*self, points@, rect));
        hits
    }
}

/// A note stays within reach while a gesture shows it elsewhere.
pub proof fn lemma_displayed_reach(roll: PianoRoll, n: MidiNote)
    requires
        roll.valid(),
        note_in_song(n),
    ensures
        0 <= roll.displayed(n).start <= 4 * SONG_LIMIT,
        0 <= roll.displayed(n).duration && on_axis(roll.displayed(n).duration as int),
        roll.displayed(n).pitch <= 127,
{
    match roll.drag {
        PianoDrag::Move(d) => {
            let step = roll.snap_step(d.unsnap);
            assert(0 <= step <= 4 * TICKS_PER_BEAT);
            lemma_snap_reach(d.anchor_start + d.dx_beats, step);
        },
        PianoDrag::Resize(d) => {
            lemma_length_is_listed(d.prev_durs@, n.id);
        },
        _ => {},
    }
}

/// While notes are moved or resized each is shown where letting go will put it.
pub proof fn law_notes_are_shown_where_they_will_land(roll: PianoRoll, n: MidiNote)
    ensures
        roll.drag matches PianoDrag::Move(d) ==> moves_note(d.prev@, n.id) ==> {
            let landed = roll.shift_of(d).target(
                roll.pitch_map@,
                (NotePlace { id: n.id, start: n.start, pitch: n.pitch }),
            );
            &&& roll.displayed(n).id == landed.id
            &&& roll.displayed(n).start == landed.start
            &&& roll.displayed(n).pitch == landed.pitch
        },
        roll.drag matches PianoDrag::Move(d) ==> !moves_note(d.prev@, n.id) ==> roll.displayed(n).start == n.start
            && roll.displayed(n).pitch == n.pitch,
        roll.drag matches PianoDrag::Resize(d) ==> roll.displayed(n).start == n.start && roll.displayed(n).pitch
            == n.pitch && (length_of(d.prev_durs@, n.id) is None ==> roll.displayed(n).duration == n.duration),
        !(roll.drag is Resize) ==> roll.displayed(n).duration == n.duration,
        roll.displayed(n).velocity == n.velocity,
{
}

} // verus!
