//! What the MIDI editor is looking at, on the project timeline.
//!
//! Two frames of reference: a *project beat* counts from the start of the song,
//! a *local beat* from a clip's own start. Notes are stored in local beats, so
//! moving a clip moves its notes.

use crate::fixed::{max_i64, max_of, on_axis, POSITION_LIMIT, SONG_LIMIT};
use crate::order::{law_sorted_is_an_ordered_arrangement, sorted, stable_sort, Keyed};
use crate::text::same_text;
use vstd::prelude::*;

verus! {

/// A clip as the arrangement lists it.
#[derive(Debug)]
pub struct ClipInfo {
    pub id: String,
    pub name: String,
    pub start_beat: i64,
    pub duration_beats: i64,
    /// The clip holds MIDI.
    pub is_midi: bool,
}

/// A track and its clips.
#[derive(Debug)]
pub struct TrackInfo {
    pub id: String,
    /// Packed colour of the track.
    pub color: u32,
    pub clips: Vec<ClipInfo>,
}

/// One clip, placed on the project timeline.
#[derive(Debug, Clone)]
pub struct ClipSpan {
    pub clip_id: String,
    pub track_id: String,
    pub name: String,
    /// Project beat where the clip starts.
    pub start_beat: i64,
    /// Length, never negative.
    pub duration_beats: i64,
    pub color: u32,
    /// The clip being edited; the others are context.
    pub editable: bool,
}

impl ClipSpan {
    /// Start and length lie on the axis, and the length is not negative.
    pub open spec fn valid(self) -> bool {
        on_axis(self.start_beat as int) && 0 <= self.duration_beats <= POSITION_LIMIT
    }

    /// First project beat behind the clip.
    pub open spec fn end(self) -> int {
        self.start_beat + self.duration_beats
    }

    /// A project beat falls inside the clip: the start does, the end does not.
    pub open spec fn holds(self, project_beat: int) -> bool {
        self.start_beat <= project_beat < self.end()
    }

    /// First project beat behind the clip.
    pub fn end_beat(&self) -> (beat: i64)
        requires
            self.valid(),
        ensures
            beat == self.end(),
    {
        self.start_beat + self.duration_beats
    }

    /// `true` when `project_beat` falls inside the clip. Two clips laid end to
    /// end share a boundary, and it belongs to the later one.
    pub fn contains(&self, project_beat: i64) -> (r: bool)
        requires
            self.valid(),
        ensures
            r == self.holds(project_beat as int),
    {
        project_beat >= self.start_beat && project_beat < self.end_beat()
    }

    /// A project beat in the clip's own frame.
    pub fn to_local(&self, project_beat: i64) -> (beat: i64)
        requires
            self.valid(),
            -4 * POSITION_LIMIT <= project_beat <= 4 * POSITION_LIMIT,
        ensures
            beat == local_beat(*self, project_beat as int),
    {
        project_beat - self.start_beat
    }

    /// A beat of the clip's own frame on the project timeline.
    pub fn to_project(&self, local: i64) -> (beat: i64)
        requires
            self.valid(),
            -4 * POSITION_LIMIT <= local <= 4 * POSITION_LIMIT,
        ensures
            beat == project_beat(*self, local as int),
    {
        self.start_beat + local
    }
}

/// A project beat in a clip's own frame.
pub open spec fn local_beat(span: ClipSpan, project: int) -> int {
    project - span.start_beat
}

/// A clip's own beat on the project timeline.
pub open spec fn project_beat(span: ClipSpan, local: int) -> int {
    span.start_beat + local
}

/// Local and project beats convert back into each other.
pub proof fn law_local_and_project_beats_round_trip(span: ClipSpan, beat: int)
    ensures
        local_beat(span, project_beat(span, beat)) == beat,
        project_beat(span, local_beat(span, beat)) == beat,
{
}

/// A note moved to another clip keeps its place in the song.
pub proof fn law_rebased_note_keeps_its_place(from: ClipSpan, to: ClipSpan, local: int)
    ensures
        project_beat(to, local_beat(to, project_beat(from, local))) == project_beat(from, local),
{
}

/// Clips laid end to end never share a beat, and leave none out between them.
pub proof fn law_adjacent_clips_share_no_beat(first: ClipSpan, second: ClipSpan, beat: int)
    requires
        first.valid(),
        second.valid(),
        first.end() == second.start_beat,
    ensures
        !(first.holds(beat) && second.holds(beat)),
        first.start_beat <= beat < second.end() ==> first.holds(beat) || second.holds(beat),
{
}

/// A clip without length holds no beat.
pub proof fn law_empty_clip_holds_nothing(span: ClipSpan, beat: int)
    requires
        span.duration_beats == 0,
    ensures
        !span.holds(beat),
{
}

/// Place of a clip in its track, with the beat it starts at.
#[derive(Debug, Clone, Copy, PartialEq, Eq, Structural)]
pub struct ClipSlot {
    pub start_beat: i64,
    pub index: usize,
}

/// Clips sort by their start.
impl Keyed for ClipSlot {
    open spec fn key(self) -> int {
        self.start_beat as int
    }

    fn sort_key(&self) -> (k: i128) {
        self.start_beat as i128
    }
}

/// Slots of the MIDI clips, in the track's own order.
pub open spec fn midi_slots(clips: Seq<ClipInfo>) -> Seq<ClipSlot>
    decreases clips.len(),
{
    if clips.len() == 0 {
        Seq::empty()
    } else {
        let before = midi_slots(clips.drop_last());
        if clips.last().is_midi {
            before.push(ClipSlot { start_beat: clips.last().start_beat, index: (clips.len() - 1) as usize })
        } else {
            before
        }
    }
}

/// The track has a clip with this id.
pub open spec fn owns_clip(track: TrackInfo, clip_id: Seq<char>) -> bool {
    exists|i: int| 0 <= i < track.clips@.len() && (#[trigger] track.clips@[i]).id@ == clip_id
}

/// `i` is the first track that has the clip.
pub open spec fn first_owner(tracks: Seq<TrackInfo>, clip_id: Seq<char>, i: int) -> bool {
    &&& 0 <= i < tracks.len()
    &&& owns_clip(tracks[i], clip_id)
    &&& forall|j: int| 0 <= j < i ==> !owns_clip(#[trigger] tracks[j], clip_id)
}

/// First clip of a track with an id.
pub open spec fn first_clip(track: TrackInfo, clip_id: Seq<char>, k: int) -> bool {
    &&& 0 <= k < track.clips@.len()
    &&& track.clips@[k].id@ == clip_id
    &&& forall|j: int| 0 <= j < k ==> (#[trigger] track.clips@[j]).id@ != clip_id
}

/// Length that is taken for a clip that is not there.
pub const MISSING_CLIP_LENGTH: i64 = 3_840_000;

fn find_clip(tracks: &Vec<TrackInfo>, clip_id: &str) -> (r: Option<(usize, usize)>)
    ensures
        match r {
            Some(p) => first_owner(tracks@, clip_id@, p.0 as int) && first_clip(
                tracks@[p.0 as int],
                clip_id@,
                p.1 as int,
            ),
            None => forall|i: int| 0 <= i < tracks@.len() ==> !owns_clip(#[trigger] tracks@[i], clip_id@),
        },
{
    let mut t: usize = 0;
    while t < tracks.len()
        invariant
            t <= tracks@.len(),
            forall|j: int| 0 <= j < t ==> !owns_clip(#[trigger] tracks@[j], clip_id@),
        decreases tracks@.len() - t,
    {
        let clips = &tracks[t].clips;
        let mut k: usize = 0;
        while k < clips.len()
            invariant
                t < tracks@.len(),
                clips == &tracks@[t as int].clips,
                k <= clips@.len(),
                forall|j: int| 0 <= j < t ==> !owns_clip(#[trigger] tracks@[j], clip_id@),
                forall|j: int| 0 <= j < k ==> (#[trigger] clips@[j]).id@ != clip_id@,
            decreases clips@.len() - k,
        {
            if same_text(clips[k].id.as_str(), clip_id) {
                assert(tracks@[t as int].clips@[k as int].id@ == clip_id@);
                return Some((t, k));
            }
            k = k + 1;
        }
        t = t + 1;
    }
    None
}

/// Start and length of a clip; a clip that is not there starts at zero and is
/// four beats long.
pub fn clip_meta(tracks: &Vec<TrackInfo>, clip_id: &str) -> (r: (i64, i64))
    ensures
        forall|i: int, k: int|
            #![trigger first_owner(tracks@, clip_id@, i), first_clip(tracks@[i], clip_id@, k)]
            first_owner(tracks@, clip_id@, i) && first_clip(tracks@[i], clip_id@, k) ==> r == (
                tracks@[i].clips@[k].start_beat,
                tracks@[i].clips@[k].duration_beats,
            ),
        (forall|i: int| 0 <= i < tracks@.len() ==> !owns_clip(#[trigger] tracks@[i], clip_id@)) ==> r == (
            0i64,
            MISSING_CLIP_LENGTH,
        ),
{
    match find_clip(tracks, clip_id) {
        Some((t, k)) => {
            proof {
                assert(owns_clip(tracks@[t as int], clip_id@));
                assert forall|i: int, j: int|
                    #![trigger first_owner(tracks@, clip_id@, i), first_clip(tracks@[i], clip_id@, j)]
                    first_owner(tracks@, clip_id@, i) && first_clip(tracks@[i], clip_id@, j) implies i == t && j
                    == k by {
                    lemma_one_owner(tracks@, clip_id@, i, t as int);
                }
            }
            (tracks[t].clips[k].start_beat, tracks[t].clips[k].duration_beats)
        },
        None => (0, MISSING_CLIP_LENGTH),
    }
}

proof fn lemma_one_owner(tracks: Seq<TrackInfo>, clip_id: Seq<char>, i: int, j: int)
    requires
        first_owner(tracks, clip_id, i),
        first_owner(tracks, clip_id, j),
    ensures
        i == j,
{
    if i < j {
        assert(!owns_clip(tracks[i], clip_id));
    } else if j < i {
        assert(!owns_clip(tracks[j], clip_id));
    }
}

/// Colour of the track that has a clip, or what stands in for it.
pub fn track_color_for_clip(tracks: &Vec<TrackInfo>, clip_id: &str, fallback: u32) -> (c: u32)
    ensures
        forall|i: int| #[trigger] first_owner(tracks@, clip_id@, i) ==> c == tracks@[i].color,
        (forall|i: int| 0 <= i < tracks@.len() ==> !owns_clip(#[trigger] tracks@[i], clip_id@)) ==> c == fallback,
{
    match find_clip(tracks, clip_id) {
        Some((t, _k)) => {
            proof {
                assert(owns_clip(tracks@[t as int], clip_id@));
                assert forall|i: int| #[trigger] first_owner(tracks@, clip_id@, i) implies i == t by {
                    lemma_one_owner(tracks@, clip_id@, i, t as int);
                }
            }
            tracks[t].color
        },
        None => fallback,
    }
}

/// `span` shows `clip` of `track`.
pub open spec fn span_shows(span: ClipSpan, track: TrackInfo, clip: ClipInfo, editing: Seq<char>) -> bool {
    &&& span.clip_id@ == clip.id@
    &&& span.track_id@ == track.id@
    &&& span.name@ == clip.name@
    &&& span.start_beat == clip.start_beat
    &&& span.duration_beats == max_of(clip.duration_beats as int, 0)
    &&& span.color == track.color
    &&& span.editable == (clip.id@ == editing)
}

/// The spans show the MIDI clips of a track in timeline order.
pub open spec fn spans_show(spans: Seq<ClipSpan>, track: TrackInfo, editing: Seq<char>) -> bool {
    let slots = sorted(midi_slots(track.clips@));
    &&& spans.len() == slots.len()
    &&& forall|i: int|
        0 <= i < spans.len() ==> span_shows(#[trigger] spans[i], track, track.clips@[slots[i].index as int], editing)
}

/// A clip lies inside the song.
pub open spec fn clip_in_song(clip: ClipInfo) -> bool {
    0 <= clip.start_beat <= SONG_LIMIT && clip.start_beat + max_of(clip.duration_beats as int, 0) <= SONG_LIMIT
}

/// Every clip of a track lies inside the song.
pub open spec fn track_in_song(track: TrackInfo) -> bool {
    forall|k: int| 0 <= k < track.clips@.len() ==> clip_in_song(#[trigger] track.clips@[k])
}

/// Every clip of the tracks lies inside the song.
pub open spec fn tracks_in_song(tracks: Seq<TrackInfo>) -> bool {
    forall|i: int| 0 <= i < tracks.len() ==> track_in_song(#[trigger] tracks[i])
}

/// Spans that end inside the song.
pub open spec fn spans_in_song(spans: Seq<ClipSpan>) -> bool {
    forall|i: int| 0 <= i < spans.len() ==> (#[trigger] spans[i]).valid() && spans[i].end() <= SONG_LIMIT
}

/// The clips that the editor shows, in timeline order.
#[derive(Debug)]
pub struct EditorScope {
    spans: Vec<ClipSpan>,
}

/// First place that satisfies `p`, if there is one.
pub open spec fn first_span(spans: Seq<ClipSpan>, p: spec_fn(ClipSpan) -> bool) -> Option<int>
    decreases spans.len(),
{
    if spans.len() == 0 {
        None
    } else {
        match first_span(spans.drop_last(), p) {
            Some(i) => Some(i),
            None => if p(spans.last()) {
                Some(spans.len() - 1)
            } else {
                None
            },
        }
    }
}

proof fn lemma_first_span(spans: Seq<ClipSpan>, p: spec_fn(ClipSpan) -> bool, at: int)
    requires
        0 <= at <= spans.len(),
        forall|k: int| 0 <= k < at ==> !p(#[trigger] spans[k]),
        at < spans.len() ==> p(spans[at]),
    ensures
        first_span(spans, p) == (if at < spans.len() {
            Some(at)
        } else {
            None
        }),
    decreases spans.len(),
{
    if spans.len() > 0 {
        let front = spans.drop_last();
        if at < spans.len() {
            assert(forall|k: int| 0 <= k < front.len() ==> front[k] == spans[k]);
            lemma_first_span(front, p, at);
        } else {
            assert(forall|k: int| 0 <= k < front.len() ==> front[k] == spans[k]);
            lemma_first_span(front, p, front.len() as int);
            assert(!p(spans[spans.len() - 1]));
        }
    }
}

/// The clip that owns a project beat: the edited clip where it holds the beat,
/// else the first that does.
pub open spec fn owner_index(spans: Seq<ClipSpan>, beat: int) -> Option<int> {
    match first_span(spans, |s: ClipSpan| s.editable && s.holds(beat)) {
        Some(i) => Some(i),
        None => first_span(spans, |s: ClipSpan| s.holds(beat)),
    }
}

/// Furthest end of the spans, or `least`.
pub open spec fn furthest_end(spans: Seq<ClipSpan>, least: int) -> int
    decreases spans.len(),
{
    if spans.len() == 0 {
        least
    } else {
        max_of(furthest_end(spans.drop_last(), least), spans.last().end())
    }
}

impl Default for EditorScope {
    /// The scope without clips.
    fn default() -> (s: EditorScope)
        ensures
            s@ == Seq::<ClipSpan>::empty(),
            s.valid(),
    {
        EditorScope { spans: Vec::new() }
    }
}

impl View for EditorScope {
    type V = Seq<ClipSpan>;

    closed spec fn view(&self) -> Seq<ClipSpan> {
        self.spans@
    }
}

impl EditorScope {
    /// Every span is valid.
    pub open spec fn valid(self) -> bool {
        forall|i: int| 0 <= i < self@.len() ==> (#[trigger] self@[i]).valid()
    }

    /// The scope of the given spans, in the given order.
    pub fn from_spans(spans: Vec<ClipSpan>) -> (s: EditorScope)
        ensures
            s@ == spans@,
    {
        EditorScope { spans }
    }

    /// The MIDI clips on the first track that has `editing_clip_id`, in timeline
    /// order; empty when no track has it.
    pub fn for_editing_clip(tracks: &Vec<TrackInfo>, editing_clip_id: &str) -> (s: EditorScope)
        ensures
            forall|i: int|
                first_owner(tracks@, editing_clip_id@, i) ==> spans_show(s@, #[trigger] tracks@[i], editing_clip_id@),
            (forall|i: int| 0 <= i < tracks@.len() ==> !owns_clip(#[trigger] tracks@[i], editing_clip_id@)) ==> s@.len()
                == 0,
            tracks_in_song(tracks@) ==> spans_in_song(s@),
    {
        let mut t: usize = 0;
        while t < tracks.len()
            invariant
                t <= tracks@.len(),
                forall|j: int| 0 <= j < t ==> !owns_clip(#[trigger] tracks@[j], editing_clip_id@),
            decreases tracks@.len() - t,
        {
            if track_has_clip(&tracks[t], editing_clip_id) {
                let s = EditorScope::of_track(&tracks[t], editing_clip_id);
                assert forall|i: int| first_owner(tracks@, editing_clip_id@, i) implies spans_show(
                    s@,
                    #[trigger] tracks@[i],
                    editing_clip_id@,
                ) by {
                    if i < t {
                        assert(!owns_clip(tracks@[i], editing_clip_id@));
                    } else if i > t {
                        assert(owns_clip(tracks@[t as int], editing_clip_id@));
                    }
                }
                return s;
            }
            t = t + 1;
        }
        EditorScope::default()
    }

    fn of_track(track: &TrackInfo, editing_clip_id: &str) -> (s: EditorScope)
        ensures
            spans_show(s@, *track, editing_clip_id@),
            track_in_song(*track) ==> spans_in_song(s@),
    {
        let mut slots: Vec<ClipSlot> = Vec::new();
        let mut i: usize = 0;
        assert(track.clips@.subrange(0, 0) =~= Seq::<ClipInfo>::empty());
        while i < track.clips.len()
            invariant
                i <= track.clips@.len(),
                slots@ == midi_slots(track.clips@.subrange(0, i as int)),
                forall|k: int| 0 <= k < slots@.len() ==> (#[trigger] slots@[k]).index < i,
            decreases track.clips@.len() - i,
        {
            assert(track.clips@.subrange(0, i + 1).drop_last() =~= track.clips@.subrange(0, i as int));
            if track.clips[i].is_midi {
                slots.push(ClipSlot { start_beat: track.clips[i].start_beat, index: i });
            }
            i = i + 1;
        }
        assert(track.clips@.subrange(0, track.clips@.len() as int) =~= track.clips@);
        let order = stable_sort(&slots);
        let mut spans: Vec<ClipSpan> = Vec::new();
        let mut k: usize = 0;
        while k < order.len()
            invariant
                k <= order@.len(),
                order@ == sorted(slots@),
                slots@ == midi_slots(track.clips@),
                forall|j: int| 0 <= j < slots@.len() ==> (#[trigger] slots@[j]).index < track.clips@.len(),
                spans@.len() == k,
                forall|j: int|
                    0 <= j < k ==> span_shows(
                        #[trigger] spans@[j],
                        *track,
                        track.clips@[order@[j].index as int],
                        editing_clip_id@,
                    ),
                track_in_song(*track) ==> spans_in_song(spans@),
            decreases order@.len() - k,
        {
            let slot = order[k];
            proof {
                crate::order::lemma_sorted_contains(slots@, slot);
                assert(order@[k as int] == slot);
                assert(sorted(slots@).contains(slot));
                let j = choose|j: int| 0 <= j < slots@.len() && slots@[j] == slot;
                assert(slots@[j].index < track.clips@.len());
            }
            let clip = &track.clips[slot.index];
            spans.push(
                ClipSpan {
                    clip_id: clip.id.clone(),
                    track_id: track.id.clone(),
                    name: clip.name.clone(),
                    start_beat: clip.start_beat,
                    duration_beats: max_i64(clip.duration_beats, 0),
                    color: track.color,
                    editable: same_text(clip.id.as_str(), editing_clip_id),
                },
            );
            k = k + 1;
        }
        EditorScope { spans }
    }

    /// The spans in timeline order.
    pub fn spans(&self) -> (r: &Vec<ClipSpan>)
        ensures
            r@ == self@,
    {
        &self.spans
    }

    /// `true` when there is no clip.
    pub fn is_empty(&self) -> (r: bool)
        ensures
            r == (self@.len() == 0),
    {
        self.spans.len() == 0
    }

    /// The clip being edited.
    pub fn editing(&self) -> (r: Option<&ClipSpan>)
        ensures
            match first_span(self@, |s: ClipSpan| s.editable) {
                Some(i) => r == Some(&self@[i]),
                None => r is None,
            },
    {
        let ghost p = |s: ClipSpan| s.editable;
        let mut i: usize = 0;
        while i < self.spans.len()
            invariant
                i <= self.spans@.len(),
                p == (|s: ClipSpan| s.editable),
                forall|k: int| 0 <= k < i ==> !p(#[trigger] self.spans@[k]),
            decreases self.spans@.len() - i,
        {
            if self.spans[i].editable {
                proof {
                    lemma_first_span(self.spans@, p, i as int);
                }
                return Some(&self.spans[i]);
            }
            i = i + 1;
        }
        proof {
            lemma_first_span(self.spans@, p, self.spans@.len() as int);
        }
        None
    }

    /// The clip with `clip_id`.
    pub fn span(&self, clip_id: &str) -> (r: Option<&ClipSpan>)
        ensures
            match first_span(self@, |s: ClipSpan| s.clip_id@ == clip_id@) {
                Some(i) => r == Some(&self@[i]),
                None => r is None,
            },
    {
        let ghost p = |s: ClipSpan| s.clip_id@ == clip_id@;
        let mut i: usize = 0;
        while i < self.spans.len()
            invariant
                i <= self.spans@.len(),
                p == (|s: ClipSpan| s.clip_id@ == clip_id@),
                forall|k: int| 0 <= k < i ==> !p(#[trigger] self.spans@[k]),
            decreases self.spans@.len() - i,
        {
            if same_text(self.spans[i].clip_id.as_str(), clip_id) {
                proof {
                    lemma_first_span(self.spans@, p, i as int);
                }
                return Some(&self.spans[i]);
            }
            i = i + 1;
        }
        proof {
            lemma_first_span(self.spans@, p, self.spans@.len() as int);
        }
        None
    }

    fn first_holding(&self, project_beat: i64, edited_only: bool) -> (r: Option<usize>)
        requires
            self.valid(),
        ensures
            edited_only ==> (match first_span(self@, |s: ClipSpan| s.editable && s.holds(project_beat as int)) {
                Some(i) => r is Some && r->0 == i && 0 <= i < self@.len(),
                None => r is None,
            }),
            !edited_only ==> (match first_span(self@, |s: ClipSpan| s.holds(project_beat as int)) {
                Some(i) => r is Some && r->0 == i && 0 <= i < self@.len(),
                None => r is None,
            }),
    {
        let ghost p = |s: ClipSpan| s.editable && s.holds(project_beat as int);
        let ghost q = |s: ClipSpan| s.holds(project_beat as int);
        let mut i: usize = 0;
        while i < self.spans.len()
            invariant
                self.valid(),
                i <= self.spans@.len(),
                p == (|s: ClipSpan| s.editable && s.holds(project_beat as int)),
                q == (|s: ClipSpan| s.holds(project_beat as int)),
                edited_only ==> forall|k: int| 0 <= k < i ==> !p(#[trigger] self.spans@[k]),
                !edited_only ==> forall|k: int| 0 <= k < i ==> !q(#[trigger] self.spans@[k]),
            decreases self.spans@.len() - i,
        {
            assert(self@[i as int].valid());
            if (!edited_only || self.spans[i].editable) && self.spans[i].contains(project_beat) {
                proof {
                    if edited_only {
                        lemma_first_span(self.spans@, p, i as int);
                    } else {
                        lemma_first_span(self.spans@, q, i as int);
                    }
                }
                return Some(i);
            }
            i = i + 1;
        }
        proof {
            if edited_only {
                lemma_first_span(self.spans@, p, self.spans@.len() as int);
            } else {
                lemma_first_span(self.spans@, q, self.spans@.len() as int);
            }
        }
        None
    }

    /// The clip that owns `project_beat`. The edited clip wins where clips
    /// overlap.
    pub fn owner_at(&self, project_beat: i64) -> (r: Option<&ClipSpan>)
        requires
            self.valid(),
        ensures
            match owner_index(self@, project_beat as int) {
                Some(i) => r == Some(&self@[i]),
                None => r is None,
            },
    {
        match self.first_holding(project_beat, true) {
            Some(i) => Some(&self.spans[i]),
            None => match self.first_holding(project_beat, false) {
                Some(i) => Some(&self.spans[i]),
                None => None,
            },
        }
    }

    /// First and last beat that the clips cover; `None` without clips.
    pub fn extent(&self) -> (r: Option<(i64, i64)>)
        requires
            self.valid(),
        ensures
            self@.len() == 0 ==> r is None,
            self@.len() > 0 ==> r == Some(
                (self@[0].start_beat, furthest_end(self@, self@[0].end()) as i64),
            ) && (r->0).1 == furthest_end(self@, self@[0].end()),
    {
        if self.spans.len() == 0 {
            return None;
        }
        assert(self@[0].valid());
        let start: i64 = self.spans[0].start_beat;
        let mut end: i64 = self.spans[0].end_beat();
        let ghost least = end as int;
        let mut i: usize = 0;
        assert(self.spans@.subrange(0, 0) =~= Seq::<ClipSpan>::empty());
        while i < self.spans.len()
            invariant
                self.valid(),
                i <= self.spans@.len(),
                end == furthest_end(self.spans@.subrange(0, i as int), least),
            decreases self.spans@.len() - i,
        {
            assert(self@[i as int].valid());
            assert(self.spans@.subrange(0, i + 1).drop_last() =~= self.spans@.subrange(0, i as int));
            end = max_i64(end, self.spans[i].end_beat());
            i = i + 1;
        }
        assert(self.spans@.subrange(0, self.spans@.len() as int) =~= self.spans@);
        Some((start, end))
    }
}

fn track_has_clip(track: &TrackInfo, clip_id: &str) -> (r: bool)
    ensures
        r == owns_clip(*track, clip_id@),
{
    let mut i: usize = 0;
    while i < track.clips.len()
        invariant
            i <= track.clips@.len(),
            forall|k: int| 0 <= k < i ==> (#[trigger] track.clips@[k]).id@ != clip_id@,
        decreases track.clips@.len() - i,
    {
        if same_text(track.clips[i].id.as_str(), clip_id) {
            return true;
        }
        i = i + 1;
    }
    false
}

proof fn lemma_first_span_holds(spans: Seq<ClipSpan>, p: spec_fn(ClipSpan) -> bool)
    ensures
        first_span(spans, p) matches Some(i) ==> 0 <= i < spans.len() && p(spans[i]),
        first_span(spans, p) is None ==> forall|k: int| 0 <= k < spans.len() ==> !p(#[trigger] spans[k]),
    decreases spans.len(),
{
    if spans.len() > 0 {
        let front = spans.drop_last();
        lemma_first_span_holds(front, p);
        assert(forall|k: int| 0 <= k < front.len() ==> front[k] == spans[k]);
        if first_span(spans, p) is None {
            assert forall|k: int| 0 <= k < spans.len() implies !p(#[trigger] spans[k]) by {
                if k < front.len() {
                    assert(!p(front[k]));
                }
            }
        }
    }
}

/// A beat has an owner exactly where some clip holds it; the owner holds it, and
/// is the edited clip wherever an edited clip does.
pub proof fn law_owner_holds_the_beat(spans: Seq<ClipSpan>, beat: int)
    ensures
        owner_index(spans, beat) matches Some(i) ==> 0 <= i < spans.len() && spans[i].holds(beat),
        owner_index(spans, beat) is None ==> forall|k: int| 0 <= k < spans.len() ==> !(#[trigger] spans[k]).holds(beat),
        forall|k: int|
            0 <= k < spans.len() && (#[trigger] spans[k]).editable && spans[k].holds(beat) ==> owner_index(spans, beat)
                is Some && spans[owner_index(spans, beat)->0].editable,
{
    let p = |s: ClipSpan| s.editable && s.holds(beat);
    let q = |s: ClipSpan| s.holds(beat);
    lemma_first_span_holds(spans, p);
    lemma_first_span_holds(spans, q);
    if first_span(spans, p) is None {
        assert forall|k: int| 0 <= k < spans.len() implies !((#[trigger] spans[k]).editable && spans[k].holds(beat)) by {
            assert(!p(spans[k]));
        }
        if first_span(spans, q) is None {
            assert forall|k: int| 0 <= k < spans.len() implies !(#[trigger] spans[k]).holds(beat) by {
                assert(!q(spans[k]));
            }
        }
    }
}

/// No clip ends behind the extent.
pub proof fn law_extent_covers_every_clip(spans: Seq<ClipSpan>, least: int, k: int)
    requires
        0 <= k < spans.len(),
    ensures
        spans[k].end() <= furthest_end(spans, least),
        least <= furthest_end(spans, least),
    decreases spans.len(),
{
    if k < spans.len() - 1 {
        law_extent_covers_every_clip(spans.drop_last(), least, k);
    } else if spans.len() > 1 {
        law_extent_covers_every_clip(spans.drop_last(), least, 0);
    } else {
        assert(furthest_end(spans.drop_last(), least) == least);
    }
}

proof fn lemma_midi_slots(clips: Seq<ClipInfo>, slot: ClipSlot)
    requires
        clips.len() <= usize::MAX,
        midi_slots(clips).contains(slot),
    ensures
        slot.index < clips.len(),
        clips[slot.index as int].is_midi,
        slot.start_beat == clips[slot.index as int].start_beat,
    decreases clips.len(),
{
    if clips.len() > 0 {
        let slots = midi_slots(clips);
        let before = midi_slots(clips.drop_last());
        let k = choose|k: int| 0 <= k < slots.len() && slots[k] == slot;
        if k < before.len() {
            assert(before[k] == slot);
            lemma_midi_slots(clips.drop_last(), slot);
        }
    }
}

/// Clips are shown in the order in which they start, so the first one starts the
/// extent.
pub proof fn law_spans_follow_the_timeline(spans: Seq<ClipSpan>, track: TrackInfo, editing: Seq<char>, i: int, j: int)
    requires
        spans_show(spans, track, editing),
        track.clips@.len() <= usize::MAX,
        0 <= i <= j < spans.len(),
    ensures
        spans[i].start_beat <= spans[j].start_beat,
{
    let slots = midi_slots(track.clips@);
    let order = sorted(slots);
    law_sorted_is_an_ordered_arrangement(slots);
    crate::order::lemma_sorted_contains(slots, order[i]);
    crate::order::lemma_sorted_contains(slots, order[j]);
    assert(order.contains(order[i]));
    assert(order.contains(order[j]));
    lemma_midi_slots(track.clips@, order[i]);
    lemma_midi_slots(track.clips@, order[j]);
    assert(span_shows(spans[i], track, track.clips@[order[i].index as int], editing));
    assert(span_shows(spans[j], track, track.clips@[order[j].index as int], editing));
    assert(order[i].key() <= order[j].key());
}

} // verus!
