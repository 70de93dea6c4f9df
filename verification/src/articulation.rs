//! The lane of direction articulations.

use crate::fixed::{magnitude, max_i64, max_of, on_axis};
use crate::midi::{lemma_filter_step, ArticulationId, MidiArticulationEvent};
use crate::viewport::ClipAxis;
use vstd::prelude::*;

verus! {

/// Reach of an event's boundary marker.
pub const ART_MARKER_HIT_PX: i64 = 6_000_000;

/// Height of the palette row at the top of the lane.
pub const ART_PALETTE_H: i64 = 22_000_000;

/// Narrowest region drawn.
pub const ART_REGION_MIN_W: i64 = 2_000_000;

/// Narrowest region that carries a label.
pub const ART_LABEL_MIN_W: i64 = 24_000_000;

/// Events lie on the axis.
pub open spec fn valid_events(events: Seq<MidiArticulationEvent>) -> bool {
    forall|i: int| 0 <= i < events.len() ==> on_axis((#[trigger] events[i]).beat as int)
}

/// Distance from an event's marker to a local x.
pub open spec fn marker_distance(event: MidiArticulationEvent, axis: ClipAxis, lx: int) -> int {
    magnitude(axis.x_at(event.beat as int) - lx)
}

/// Place of the marker nearest to a local x, among those within reach; of
/// several equally near, the first.
pub open spec fn nearest_marker(events: Seq<MidiArticulationEvent>, axis: ClipAxis, lx: int) -> Option<int>
    decreases events.len(),
{
    if events.len() == 0 {
        None
    } else {
        let best = nearest_marker(events.drop_last(), axis, lx);
        let d = marker_distance(events.last(), axis, lx);
        if d > ART_MARKER_HIT_PX {
            best
        } else {
            match best {
                Some(i) => if d < marker_distance(events[i], axis, lx) {
                    Some(events.len() - 1)
                } else {
                    best
                },
                None => Some(events.len() - 1),
            }
        }
    }
}

/// The event whose marker is nearest to `lx`, within reach.
pub fn articulation_at(events: &Vec<MidiArticulationEvent>, axis: ClipAxis, lx: i64) -> (r: Option<u64>)
    requires
        valid_events(events@),
        axis.valid(),
        on_axis(lx as int),
    ensures
        r == (match nearest_marker(events@, axis, lx as int) {
            Some(i) => Some(events@[i].id),
            None => None,
        }),
{
    let mut best: Option<usize> = None;
    let mut best_d: i64 = 0;
    let mut i: usize = 0;
    assert(events@.subrange(0, 0) =~= Seq::<MidiArticulationEvent>::empty());
    while i < events.len()
        invariant
            valid_events(events@),
            axis.valid(),
            on_axis(lx as int),
            i <= events@.len(),
            match nearest_marker(events@.subrange(0, i as int), axis, lx as int) {
                Some(k) => best is Some && best->0 == k && 0 <= k < i && best_d == marker_distance(
                    events@[k],
                    axis,
                    lx as int,
                ),
                None => best is None,
            },
        decreases events@.len() - i,
    {
        assert(events@.subrange(0, i + 1).drop_last() =~= events@.subrange(0, i as int));
        assert(on_axis(events@[i as int].beat as int));
        let x: i64 = axis.clip_beat_to_x(events[i].beat);
        let d: i64 = if x >= lx {
            x - lx
        } else {
            lx - x
        };
        if d <= ART_MARKER_HIT_PX {
            let better = match best {
                Some(_) => d < best_d,
                None => true,
            };
            if better {
                best = Some(i);
                best_d = d;
            }
        }
        i = i + 1;
    }
    assert(events@.subrange(0, events@.len() as int) =~= events@);
    match best {
        Some(k) => Some(events[k].id),
        None => None,
    }
}

/// The marker found is within reach, and no other is nearer.
pub proof fn law_marker_found_is_the_nearest(
    events: Seq<MidiArticulationEvent>,
    axis: ClipAxis,
    lx: int,
    k: int,
)
    requires
        0 <= k < events.len(),
        marker_distance(events[k], axis, lx) <= ART_MARKER_HIT_PX,
    ensures
        nearest_marker(events, axis, lx) is Some,
        ({
            let i = nearest_marker(events, axis, lx)->0;
            &&& 0 <= i < events.len()
            &&& marker_distance(events[i], axis, lx) <= ART_MARKER_HIT_PX
            &&& marker_distance(events[i], axis, lx) <= marker_distance(events[k], axis, lx)
        }),
    decreases events.len(),
{
    let front = events.drop_last();
    lemma_marker_bounds(front, axis, lx);
    if k < events.len() - 1 {
        law_marker_found_is_the_nearest(front, axis, lx, k);
    }
}

proof fn lemma_marker_bounds(events: Seq<MidiArticulationEvent>, axis: ClipAxis, lx: int)
    ensures
        nearest_marker(events, axis, lx) matches Some(i) ==> 0 <= i < events.len() && marker_distance(
            events[i],
            axis,
            lx,
        ) <= ART_MARKER_HIT_PX,
    decreases events.len(),
{
    if events.len() > 0 {
        lemma_marker_bounds(events.drop_last(), axis, lx);
    }
}

/// Events other than the one with an id.
pub open spec fn events_without(events: Seq<MidiArticulationEvent>, id: u64) -> Seq<MidiArticulationEvent> {
    events.filter(|e: MidiArticulationEvent| e.id != id)
}

/// The events other than the one with `id`.
pub fn without_event(events: &Vec<MidiArticulationEvent>, id: u64) -> (out: Vec<MidiArticulationEvent>)
    ensures
        out@ == events_without(events@, id),
{
    let mut out: Vec<MidiArticulationEvent> = Vec::new();
    let mut i: usize = 0;
    let ghost p = |e: MidiArticulationEvent| e.id != id;
    proof {
        reveal(Seq::filter);
        assert(events@.subrange(0, 0).filter(p) =~= Seq::<MidiArticulationEvent>::empty());
    }
    while i < events.len()
        invariant
            i <= events@.len(),
            p == (|e: MidiArticulationEvent| e.id != id),
            out@ == events@.subrange(0, i as int).filter(p),
        decreases events@.len() - i,
    {
        proof {
            lemma_filter_step(events@, i as int, p);
        }
        if events[i].id != id {
            out.push(events[i]);
        }
        i = i + 1;
    }
    assert(events@.subrange(0, events@.len() as int) =~= events@);
    out
}

/// `true` when both lists hold the same events in the same order.
pub fn same_events(a: &Vec<MidiArticulationEvent>, b: &Vec<MidiArticulationEvent>) -> (r: bool)
    ensures
        r == (a@ == b@),
{
    if a.len() != b.len() {
        return false;
    }
    let mut i: usize = 0;
    while i < a.len()
        invariant
            a@.len() == b@.len(),
            i <= a@.len(),
            forall|k: int| 0 <= k < i ==> a@[k] == b@[k],
        decreases a@.len() - i,
    {
        if a[i] != b[i] {
            return false;
        }
        i = i + 1;
    }
    assert(a@ =~= b@);
    true
}

/// A second list of the same events.
pub fn copy_events(events: &Vec<MidiArticulationEvent>) -> (out: Vec<MidiArticulationEvent>)
    ensures
        out@ == events@,
{
    let mut out: Vec<MidiArticulationEvent> = Vec::new();
    let mut i: usize = 0;
    while i < events.len()
        invariant
            i <= events@.len(),
            out@ == events@.subrange(0, i as int),
        decreases events@.len() - i,
    {
        out.push(events[i]);
        assert(out@ =~= events@.subrange(0, i + 1));
        i = i + 1;
    }
    assert(out@ =~= events@);
    out
}

/// `true` when an event with `id` is in the list.
pub fn has_event(events: &Vec<MidiArticulationEvent>, id: u64) -> (r: bool)
    ensures
        r == lists_event(events@, id),
{
    let mut i: usize = 0;
    while i < events.len()
        invariant
            i <= events@.len(),
            forall|k: int| 0 <= k < i ==> (#[trigger] events@[k]).id != id,
        decreases events@.len() - i,
    {
        if events[i].id == id {
            return true;
        }
        i = i + 1;
    }
    false
}

/// An event with this id is in the list.
pub open spec fn lists_event(events: Seq<MidiArticulationEvent>, id: u64) -> bool {
    exists|i: int| 0 <= i < events.len() && (#[trigger] events[i]).id == id
}

/// The first event with this id.
pub open spec fn event_with_id(events: Seq<MidiArticulationEvent>, id: u64) -> Option<MidiArticulationEvent>
    decreases events.len(),
{
    if events.len() == 0 {
        None
    } else {
        match event_with_id(events.drop_last(), id) {
            Some(e) => Some(e),
            None => if events.last().id == id {
                Some(events.last())
            } else {
                None
            },
        }
    }
}

/// The first event with this id.
pub fn find_event(events: &Vec<MidiArticulationEvent>, id: u64) -> (r: Option<MidiArticulationEvent>)
    ensures
        r == event_with_id(events@, id),
{
    let mut found: Option<MidiArticulationEvent> = None;
    let mut i: usize = 0;
    proof {
        assert(events@.subrange(0, 0) =~= Seq::<MidiArticulationEvent>::empty());
    }
    while i < events.len()
        invariant
            i <= events@.len(),
            found == event_with_id(events@.subrange(0, i as int), id),
        decreases events@.len() - i,
    {
        proof {
            assert(events@.subrange(0, i + 1).drop_last() =~= events@.subrange(0, i as int));
        }
        if found.is_none() && events[i].id == id {
            found = Some(events[i]);
        }
        i = i + 1;
    }
    assert(events@.subrange(0, events@.len() as int) =~= events@);
    found
}

/// A region of the lane, from one event to the next.
#[derive(Debug, Clone, Copy, PartialEq, Eq, Structural)]
pub struct ArticulationRegion {
    pub id: u64,
    pub articulation: ArticulationId,
    pub x: i64,
    pub width: i64,
    pub selected: bool,
    /// The region is wide enough for a label.
    pub labelled: bool,
}

/// Where the region of an event ends: at the next event, or at the clip's end.
pub open spec fn region_end(events: Seq<MidiArticulationEvent>, axis: ClipAxis, clip_len: int, i: int) -> int {
    if i + 1 < events.len() {
        axis.x_at(events[i + 1].beat as int)
    } else {
        axis.x_at(clip_len)
    }
}

/// The region of an event shows in a lane of a width.
pub open spec fn region_shows(
    events: Seq<MidiArticulationEvent>,
    axis: ClipAxis,
    clip_len: int,
    view_w: int,
    i: int,
) -> bool {
    region_end(events, axis, clip_len, i) >= 0 && axis.x_at(events[i].beat as int) <= view_w
}

/// Region of the `i`-th event.
pub open spec fn region_of(
    events: Seq<MidiArticulationEvent>,
    axis: ClipAxis,
    clip_len: int,
    selected: Option<u64>,
    i: int,
) -> ArticulationRegion {
    let x = axis.x_at(events[i].beat as int);
    let w = max_of(region_end(events, axis, clip_len, i) - x, ART_REGION_MIN_W as int);
    ArticulationRegion {
        id: events[i].id,
        articulation: events[i].articulation,
        x: x as i64,
        width: w as i64,
        selected: selected == Some(events[i].id),
        labelled: w >= ART_LABEL_MIN_W,
    }
}

/// Regions of the events `0..n` that show.
pub open spec fn regions_upto(
    events: Seq<MidiArticulationEvent>,
    axis: ClipAxis,
    clip_len: int,
    view_w: int,
    selected: Option<u64>,
    n: int,
) -> Seq<ArticulationRegion>
    decreases n,
{
    if n <= 0 {
        Seq::empty()
    } else {
        let before = regions_upto(events, axis, clip_len, view_w, selected, n - 1);
        if region_shows(events, axis, clip_len, view_w, n - 1) {
            before.push(region_of(events, axis, clip_len, selected, n - 1))
        } else {
            before
        }
    }
}

/// Regions of the events that show in a lane of width `view_w`: each runs to the
/// next event, the last to the end of the clip.
pub fn articulation_regions(
    events: &Vec<MidiArticulationEvent>,
    axis: ClipAxis,
    clip_len: i64,
    view_w: i64,
    selected: Option<u64>,
) -> (out: Vec<ArticulationRegion>)
    requires
        valid_events(events@),
        axis.valid(),
        on_axis(clip_len as int),
    ensures
        out@ == regions_upto(events@, axis, clip_len as int, view_w as int, selected, events@.len() as int),
{
    let mut out: Vec<ArticulationRegion> = Vec::new();
    let mut i: usize = 0;
    while i < events.len()
        invariant
            valid_events(events@),
            axis.valid(),
            on_axis(clip_len as int),
            i <= events@.len(),
            out@ == regions_upto(events@, axis, clip_len as int, view_w as int, selected, i as int),
        decreases events@.len() - i,
    {
        let event = events[i];
        assert(on_axis(events@[i as int].beat as int));
        let x: i64 = axis.clip_beat_to_x(event.beat);
        let end: i64 = if i + 1 < events.len() {
            assert(on_axis(events@[i + 1].beat as int));
            axis.clip_beat_to_x(events[i + 1].beat)
        } else {
            axis.clip_beat_to_x(clip_len)
        };
        if end >= 0 && x <= view_w {
            let width: i64 = max_i64(end - x, ART_REGION_MIN_W);
            let is_selected = match selected {
                Some(id) => id == event.id,
                None => false,
            };
            out.push(
                ArticulationRegion {
                    id: event.id,
                    articulation: event.articulation,
                    x,
                    width,
                    selected: is_selected,
                    labelled: width >= ART_LABEL_MIN_W,
                },
            );
        }
        i = i + 1;
    }
    out
}

/// Every articulation, in palette order.
pub fn all_articulations() -> (list: Vec<ArticulationId>)
    ensures
        list@ == all_articulation_ids(),
{
    let list = vec![
        ArticulationId::Sustain,
        ArticulationId::Staccato,
        ArticulationId::Staccatissimo,
        ArticulationId::Legato,
        ArticulationId::Tenuto,
        ArticulationId::Accent,
        ArticulationId::Marcato,
        ArticulationId::Pizzicato,
        ArticulationId::Tremolo,
    ];
    assert(list@ =~= all_articulation_ids());
    list
}

/// Every articulation, in palette order.
pub open spec fn all_articulation_ids() -> Seq<ArticulationId> {
    seq![
        ArticulationId::Sustain,
        ArticulationId::Staccato,
        ArticulationId::Staccatissimo,
        ArticulationId::Legato,
        ArticulationId::Tenuto,
        ArticulationId::Accent,
        ArticulationId::Marcato,
        ArticulationId::Pizzicato,
        ArticulationId::Tremolo,
    ]
}

/// Articulations that the edited track can play: those of its instrument, where
/// the instrument says, else all.
pub fn available_articulations(instrument: Option<Vec<ArticulationId>>) -> (list: Vec<ArticulationId>)
    ensures
        list@ == (match instrument {
            Some(own) => own@,
            None => all_articulation_ids(),
        }),
{
    match instrument {
        Some(own) => own,
        None => all_articulations(),
    }
}

/// A chip of the palette.
#[derive(Debug, Clone, Copy, PartialEq, Eq, Structural)]
pub struct PaletteChip {
    pub articulation: ArticulationId,
    pub active: bool,
}

/// One chip for each articulation that can be inserted, the chosen one active.
pub fn articulation_palette(available: &Vec<ArticulationId>, chosen: ArticulationId) -> (out: Vec<PaletteChip>)
    ensures
        out@ == available@.map_values(|a: ArticulationId| PaletteChip { articulation: a, active: a == chosen }),
{
    let mut out: Vec<PaletteChip> = Vec::new();
    let mut i: usize = 0;
    while i < available.len()
        invariant
            i <= available@.len(),
            out@.len() == i,
            forall|k: int|
                0 <= k < i ==> #[trigger] out@[k] == (PaletteChip {
                    articulation: available@[k],
                    active: available@[k] == chosen,
                }),
        decreases available@.len() - i,
    {
        let a = available[i];
        out.push(PaletteChip { articulation: a, active: a == chosen });
        i = i + 1;
    }
    assert(out@ =~= available@.map_values(|a: ArticulationId| PaletteChip { articulation: a, active: a == chosen }));
    out
}

/// What a press in the lane does.
#[derive(Debug, Clone, Copy, PartialEq, Eq, Structural)]
pub enum LanePress {
    /// Nothing: the palette row handles its own clicks, or there is no clip.
    Ignore,
    /// Drag this event.
    Move(u64),
    /// Insert the chosen articulation here.
    Insert,
    /// Delete this event.
    Delete(u64),
}

/// What a left press at a height does, given the marker under it.
pub fn articulation_left_press(ly: i64, has_clip: bool, marker: Option<u64>) -> (r: LanePress)
    ensures
        r == (if ly <= ART_PALETTE_H || !has_clip {
            LanePress::Ignore
        } else {
            match marker {
                Some(id) => LanePress::Move(id),
                None => LanePress::Insert,
            }
        }),
{
    if ly <= ART_PALETTE_H || !has_clip {
        return LanePress::Ignore;
    }
    match marker {
        Some(id) => LanePress::Move(id),
        None => LanePress::Insert,
    }
}

/// What a right press at a height does, given the marker under it.
pub fn articulation_right_press(ly: i64, has_clip: bool, marker: Option<u64>) -> (r: LanePress)
    ensures
        r == (if ly <= ART_PALETTE_H || !has_clip {
            LanePress::Ignore
        } else {
            match marker {
                Some(id) => LanePress::Delete(id),
                None => LanePress::Ignore,
            }
        }),
{
    if ly <= ART_PALETTE_H || !has_clip {
        return LanePress::Ignore;
    }
    match marker {
        Some(id) => LanePress::Delete(id),
        None => LanePress::Ignore,
    }
}

/// Deleting an event leaves every other one and no other.
pub proof fn law_deleted_events_are_gone(events: Seq<MidiArticulationEvent>, id: u64, e: MidiArticulationEvent)
    ensures
        events_without(events, id).contains(e) <==> events.contains(e) && e.id != id,
{
    let q = |e: MidiArticulationEvent| e.id != id;
    broadcast use vstd::seq_lib::group_filter_ensures;

    let left = events_without(events, id);
    if left.contains(e) {
        events.lemma_filter_contains_rev(q, e);
        let k = choose|k: int| 0 <= k < left.len() && left[k] == e;
        assert(q(events.filter(q)[k]));
    }
    if events.contains(e) && e.id != id {
        let k = choose|k: int| 0 <= k < events.len() && events[k] == e;
        assert(q(events[k]));
        events.lemma_filter_contains(q, k);
    }
}

} // verus!
