//! Notes that sound while they are drawn, moved or played on the key lane.

use vstd::prelude::*;

verus! {

/// A message to the instrument that previews notes.
#[derive(Debug)]
pub enum UiMidiPreviewCommand {
    NoteOn { track_id: String, channel: u8, pitch: u8, velocity: u8 },
    NoteOff { track_id: String, channel: u8, pitch: u8 },
    AllNotesOff { track_id: String },
    MidiPanic { track_id: String },
}

impl UiMidiPreviewCommand {
    /// Track that the message goes to.
    pub open spec fn track(self) -> Seq<char> {
        match self {
            UiMidiPreviewCommand::NoteOn { track_id, .. } => track_id@,
            UiMidiPreviewCommand::NoteOff { track_id, .. } => track_id@,
            UiMidiPreviewCommand::AllNotesOff { track_id } => track_id@,
            UiMidiPreviewCommand::MidiPanic { track_id } => track_id@,
        }
    }

    /// Track that the message goes to.
    pub fn track_id(&self) -> (s: &str)
        ensures
            s@ == self.track(),
    {
        match self {
            UiMidiPreviewCommand::NoteOn { track_id, .. } => track_id.as_str(),
            UiMidiPreviewCommand::NoteOff { track_id, .. } => track_id.as_str(),
            UiMidiPreviewCommand::AllNotesOff { track_id } => track_id.as_str(),
            UiMidiPreviewCommand::MidiPanic { track_id } => track_id.as_str(),
        }
    }

    /// The message with its track as text.
    pub open spec fn message(self) -> PreviewMessage {
        match self {
            UiMidiPreviewCommand::NoteOn { track_id, channel, pitch, velocity } => PreviewMessage::NoteOn(
                PreviewNote { track: track_id@, channel, pitch },
                velocity,
            ),
            UiMidiPreviewCommand::NoteOff { track_id, channel, pitch } => PreviewMessage::NoteOff(
                PreviewNote { track: track_id@, channel, pitch },
            ),
            UiMidiPreviewCommand::AllNotesOff { track_id } => PreviewMessage::AllNotesOff(track_id@),
            UiMidiPreviewCommand::MidiPanic { track_id } => PreviewMessage::MidiPanic(track_id@),
        }
    }
}

/// A sounding note.
pub struct PreviewNote {
    pub track: Seq<char>,
    pub channel: u8,
    pub pitch: u8,
}

/// What a command says.
pub enum PreviewMessage {
    NoteOn(PreviewNote, u8),
    NoteOff(PreviewNote),
    AllNotesOff(Seq<char>),
    MidiPanic(Seq<char>),
}

/// What a list of commands says.
pub open spec fn messages(commands: Seq<UiMidiPreviewCommand>) -> Seq<PreviewMessage> {
    commands.map_values(|c: UiMidiPreviewCommand| c.message())
}

/// Notes that sound after a message, given those that sounded before.
pub open spec fn sounding_after(sounding: Set<PreviewNote>, message: PreviewMessage) -> Set<PreviewNote> {
    match message {
        PreviewMessage::NoteOn(note, _) => sounding.insert(note),
        PreviewMessage::NoteOff(note) => sounding.remove(note),
        PreviewMessage::AllNotesOff(track) => sounding.filter(|n: PreviewNote| n.track != track),
        PreviewMessage::MidiPanic(track) => sounding.filter(|n: PreviewNote| n.track != track),
    }
}

/// Notes that sound after a list of messages.
pub open spec fn sounding_after_all(sounding: Set<PreviewNote>, list: Seq<PreviewMessage>) -> Set<PreviewNote>
    decreases list.len(),
{
    if list.len() == 0 {
        sounding
    } else {
        sounding_after(sounding_after_all(sounding, list.drop_last()), list.last())
    }
}

/// Track and channel that previews go to.
#[derive(Debug)]
pub struct PreviewTarget {
    pub track_id: String,
    pub channel: u8,
}

/// The one note that the editor keeps sounding, if any.
#[derive(Debug)]
pub struct ActivePreview {
    pub track_id: String,
    pub channel: u8,
    pub pitch: u8,
}

impl ActivePreview {
    /// The sounding note.
    pub open spec fn note(self) -> PreviewNote {
        PreviewNote { track: self.track_id@, channel: self.channel, pitch: self.pitch }
    }
}

/// Preview state of the piano roll.
#[derive(Debug)]
pub struct PreviewState {
    /// The note that sounds.
    pub active: Option<ActivePreview>,
    /// Key of the key lane that sounds and is drawn as pressed.
    pub key_pressed: Option<u8>,
    /// The pointer is held on the key lane, also while it has left the lane.
    pub key_drag: bool,
    /// Something listens to preview messages.
    pub connected: bool,
}

/// Notes that sound on the instrument's side.
pub open spec fn active_set(active: Option<ActivePreview>) -> Set<PreviewNote> {
    match active {
        Some(a) => set![a.note()],
        None => Set::empty(),
    }
}

impl PreviewState {
    /// Silent and not connected.
    pub fn new() -> (s: PreviewState)
        ensures
            s.active is None,
            s.key_pressed is None,
            !s.key_drag,
            !s.connected,
    {
        PreviewState { active: None, key_pressed: None, key_drag: false, connected: false }
    }

    /// What ending the sounding note sends.
    pub open spec fn end_messages(self) -> Seq<PreviewMessage> {
        match self.active {
            Some(a) => if self.connected {
                seq![PreviewMessage::NoteOff(a.note())]
            } else {
                Seq::empty()
            },
            None => Seq::empty(),
        }
    }

    /// Stops the sounding note.
    pub fn end_preview_note(&mut self) -> (out: Vec<UiMidiPreviewCommand>)
        ensures
            messages(out@) == old(self).end_messages(),
            final(self).active is None,
            final(self).key_pressed == old(self).key_pressed,
            final(self).key_drag == old(self).key_drag,
            final(self).connected == old(self).connected,
    {
        let mut out: Vec<UiMidiPreviewCommand> = Vec::new();
        let active = self.active.take();
        if let Some(a) = active {
            if self.connected {
                out.push(UiMidiPreviewCommand::NoteOff { track_id: a.track_id, channel: a.channel, pitch: a.pitch });
            }
        }
        assert(messages(out@) =~= old(self).end_messages());
        out
    }

    /// What starting a note sends: the end of the note before it, then the note.
    pub open spec fn begin_messages(self, target: Option<PreviewTarget>, pitch: u8, velocity: u8) -> Seq<
        PreviewMessage,
    > {
        match target {
            Some(t) => if self.connected {
                self.end_messages().push(
                    PreviewMessage::NoteOn(PreviewNote { track: t.track_id@, channel: t.channel, pitch }, velocity),
                )
            } else {
                self.end_messages()
            },
            None => self.end_messages(),
        }
    }

    /// Starts a note on the preview target, in place of the one that sounds.
    pub fn begin_preview_note(&mut self, target: Option<PreviewTarget>, pitch: u8, velocity: u8) -> (out: Vec<
        UiMidiPreviewCommand,
    >)
        ensures
            messages(out@) == old(self).begin_messages(target, pitch, velocity),
            match target {
                Some(t) => if old(self).connected {
                    final(self).active is Some && final(self).active->0.note() == (PreviewNote {
                        track: t.track_id@,
                        channel: t.channel,
                        pitch,
                    })
                } else {
                    final(self).active is None
                },
                None => final(self).active is None,
            },
            final(self).key_pressed == old(self).key_pressed,
            final(self).key_drag == old(self).key_drag,
            final(self).connected == old(self).connected,
    {
        let mut out = self.end_preview_note();
        if let Some(t) = target {
            if self.connected {
                out.push(
                    UiMidiPreviewCommand::NoteOn { track_id: t.track_id.clone(), channel: t.channel, pitch, velocity },
                );
                self.active = Some(ActivePreview { track_id: t.track_id, channel: t.channel, pitch });
            }
        }
        assert(messages(out@) =~= old(self).begin_messages(target, pitch, velocity));
        out
    }

    /// Track that a stop goes to: that of the sounding note, else the preview
    /// target's.
    pub open spec fn stop_track(self, target: Option<PreviewTarget>) -> Option<Seq<char>> {
        match self.active {
            Some(a) => Some(a.track_id@),
            None => match target {
                Some(t) => Some(t.track_id@),
                None => None,
            },
        }
    }

    fn take_stop_track(&mut self, target: Option<PreviewTarget>) -> (r: Option<String>)
        ensures
            match r {
                Some(t) => old(self).stop_track(target) == Some(t@),
                None => old(self).stop_track(target) is None,
            },
            final(self).active is None,
            final(self).key_pressed is None,
            !final(self).key_drag,
            final(self).connected == old(self).connected,
    {
        let active = self.active.take();
        self.key_pressed = None;
        self.key_drag = false;
        match active {
            Some(a) => Some(a.track_id),
            None => match target {
                Some(t) => Some(t.track_id),
                None => None,
            },
        }
    }

    /// Stops everything that the editor may have started, and ends a scrub on
    /// the key lane.
    pub fn preview_all_notes_off(&mut self, target: Option<PreviewTarget>) -> (out: Vec<UiMidiPreviewCommand>)
        ensures
            messages(out@) == (match old(self).stop_track(target) {
                Some(track) => if old(self).connected {
                    seq![PreviewMessage::AllNotesOff(track)]
                } else {
                    Seq::empty()
                },
                None => Seq::empty(),
            }),
            final(self).active is None,
            final(self).key_pressed is None,
            !final(self).key_drag,
            final(self).connected == old(self).connected,
    {
        let mut out: Vec<UiMidiPreviewCommand> = Vec::new();
        let track = self.take_stop_track(target);
        if let Some(track_id) = track {
            if self.connected {
                out.push(UiMidiPreviewCommand::AllNotesOff { track_id });
                assert(messages(out@) =~= seq![PreviewMessage::AllNotesOff(track_id@)]);
            } else {
                assert(messages(out@) =~= Seq::<PreviewMessage>::empty());
            }
        } else {
            assert(messages(out@) =~= Seq::<PreviewMessage>::empty());
        }
        out
    }

    /// Silences the track altogether, and ends a scrub on the key lane.
    pub fn midi_panic(&mut self, target: Option<PreviewTarget>) -> (out: Vec<UiMidiPreviewCommand>)
        ensures
            messages(out@) == (match old(self).stop_track(target) {
                Some(track) => if old(self).connected {
                    seq![PreviewMessage::MidiPanic(track)]
                } else {
                    Seq::empty()
                },
                None => Seq::empty(),
            }),
            final(self).active is None,
            final(self).key_pressed is None,
            !final(self).key_drag,
            final(self).connected == old(self).connected,
    {
        let mut out: Vec<UiMidiPreviewCommand> = Vec::new();
        let track = self.take_stop_track(target);
        if let Some(track_id) = track {
            if self.connected {
                out.push(UiMidiPreviewCommand::MidiPanic { track_id });
                assert(messages(out@) =~= seq![PreviewMessage::MidiPanic(track_id@)]);
            } else {
                assert(messages(out@) =~= Seq::<PreviewMessage>::empty());
            }
        } else {
            assert(messages(out@) =~= Seq::<PreviewMessage>::empty());
        }
        out
    }
}

/// While something listens, the editor never leaves more than one note sounding:
/// starting a note leaves that note alone, and ending it leaves none.
pub proof fn law_no_preview_note_gets_stuck(state: PreviewState, target: Option<PreviewTarget>, pitch: u8, velocity: u8)
    requires
        state.connected,
    ensures
        sounding_after_all(active_set(state.active), state.end_messages()) == Set::<PreviewNote>::empty(),
        sounding_after_all(active_set(state.active), state.begin_messages(target, pitch, velocity)) == (match target {
            Some(t) => set![PreviewNote { track: t.track_id@, channel: t.channel, pitch }],
            None => Set::empty(),
        }),
{
    let start = active_set(state.active);
    let ended = sounding_after_all(start, state.end_messages());
    assert(ended =~= Set::<PreviewNote>::empty()) by {
        match state.active {
            Some(a) => {
                let list = state.end_messages();
                assert(list.drop_last() =~= Seq::<PreviewMessage>::empty());
                assert(sounding_after_all(start, list.drop_last()) == start);
            },
            None => {},
        }
    }
    match target {
        Some(t) => {
            let list = state.begin_messages(target, pitch, velocity);
            assert(list.drop_last() =~= state.end_messages());
            assert(sounding_after_all(start, list) =~= set![
                PreviewNote { track: t.track_id@, channel: t.channel, pitch },
            ]);
        },
        None => {},
    }
}

/// Stopping everything silences the note that sounds, wherever previews go now.
pub proof fn law_stop_silences_the_active_note(state: PreviewState, target: Option<PreviewTarget>)
    requires
        state.active is Some,
    ensures
        state.stop_track(target) is Some,
        sounding_after(active_set(state.active), PreviewMessage::AllNotesOff(state.stop_track(target)->0)) == Set::<
            PreviewNote,
        >::empty(),
{
    assert(sounding_after(active_set(state.active), PreviewMessage::AllNotesOff(state.stop_track(target)->0)) =~= Set::<
        PreviewNote,
    >::empty());
}

/// What kind of content a clip or a track has.
#[derive(Debug, Clone, Copy, PartialEq, Eq, Structural)]
pub enum TrackKind {
    Instrument,
    Midi,
    Other,
}

/// A track as the preview sees it.
#[derive(Debug)]
pub struct PreviewTrack {
    pub id: String,
    pub kind: TrackKind,
    /// Channel that the track is routed to, 1 to 16 in the interface.
    pub midi_channel: Option<u8>,
    /// Track whose instrument plays this track's notes.
    pub plays_through: Option<String>,
    /// The track owns an instrument.
    pub has_instrument: bool,
}

/// Raw channel of a track.
pub open spec fn preview_channel(midi_channel: Option<u8>) -> u8 {
    match midi_channel {
        Some(c) => if c == 0 {
            0
        } else if c > 16 {
            15
        } else {
            (c - 1) as u8
        },
        None => 0,
    }
}

fn channel_of(track: &PreviewTrack) -> (c: u8)
    ensures
        c == preview_channel(track.midi_channel),
        c < 16,
{
    match track.midi_channel {
        Some(c) => if c == 0 {
            0
        } else if c > 16 {
            15
        } else {
            c - 1
        },
        None => 0,
    }
}

/// A target names a track and a channel.
pub open spec fn target_is(r: Option<PreviewTarget>, want: Option<(Seq<char>, u8)>) -> bool {
    match want {
        Some(w) => r is Some && r->0.track_id@ == w.0 && r->0.channel == w.1,
        None => r is None,
    }
}

/// Where a track's notes are heard.
pub open spec fn heard_through(track: PreviewTrack) -> Option<(Seq<char>, u8)> {
    match track.plays_through {
        Some(id) => Some((id@, preview_channel(track.midi_channel))),
        None => None,
    }
}

fn resolve(track: &PreviewTrack) -> (r: Option<PreviewTarget>)
    ensures
        target_is(r, heard_through(*track)),
{
    let channel: u8 = channel_of(track);
    match &track.plays_through {
        Some(id) => Some(PreviewTarget { track_id: id.clone(), channel }),
        None => None,
    }
}

/// Tracks that can play notes by themselves.
pub open spec fn plays_itself(track: PreviewTrack) -> bool {
    track.kind != TrackKind::Other && track.has_instrument
}

/// `i` is the first track that plays by itself.
pub open spec fn first_playing(tracks: Seq<PreviewTrack>, i: int) -> bool {
    0 <= i < tracks.len() && plays_itself(tracks[i]) && forall|j: int| 0 <= j < i ==> !plays_itself(#[trigger] tracks[j])
}

/// Where previews go. The track of the selected MIDI clip decides, silent where
/// it is not routed; else a selected instrument or MIDI track; else the first
/// track that owns an instrument.
pub fn preview_target(
    clip_track: Option<&PreviewTrack>,
    clip_is_midi: bool,
    selected_track: Option<&PreviewTrack>,
    tracks: &Vec<PreviewTrack>,
) -> (r: Option<PreviewTarget>)
    ensures
        clip_track is Some && clip_is_midi ==> target_is(r, heard_through(*clip_track->0)),
        !(clip_track is Some && clip_is_midi) && selected_track is Some && selected_track->0.kind != TrackKind::Other
            ==> target_is(r, heard_through(*selected_track->0)),
        !(clip_track is Some && clip_is_midi) && !(selected_track is Some && selected_track->0.kind
            != TrackKind::Other) ==> {
            &&& forall|i: int|
                first_playing(tracks@, i) ==> target_is(
                    r,
                    Some(((#[trigger] tracks@[i]).id@, preview_channel(tracks@[i].midi_channel))),
                )
            &&& (forall|i: int| 0 <= i < tracks@.len() ==> !plays_itself(#[trigger] tracks@[i])) ==> r is None
        },
{
    if let Some(track) = clip_track {
        if clip_is_midi {
            return resolve(track);
        }
    }
    if let Some(track) = selected_track {
        if track.kind != TrackKind::Other {
            return resolve(track);
        }
    }
    let mut i: usize = 0;
    while i < tracks.len()
        invariant
            i <= tracks@.len(),
            !(clip_track is Some && clip_is_midi),
            !(selected_track is Some && selected_track->0.kind != TrackKind::Other),
            forall|j: int| 0 <= j < i ==> !plays_itself(#[trigger] tracks@[j]),
        decreases tracks@.len() - i,
    {
        if tracks[i].kind != TrackKind::Other && tracks[i].has_instrument {
            let r = Some(PreviewTarget { track_id: tracks[i].id.clone(), channel: channel_of(&tracks[i]) });
            assert forall|k: int| first_playing(tracks@, k) implies target_is(
                r,
                Some(((#[trigger] tracks@[k]).id@, preview_channel(tracks@[k].midi_channel))),
            ) by {
                if k < i {
                    assert(!plays_itself(tracks@[k]));
                } else if k > i {
                    assert(plays_itself(tracks@[i as int]));
                }
            }
            return r;
        }
        i = i + 1;
    }
    None
}

/// A track's channels count from one and the instrument's from zero.
pub proof fn law_preview_channels_count_from_zero(channel: u8)
    ensures
        1 <= channel <= 16 ==> preview_channel(Some(channel)) + 1 == channel,
        preview_channel(Some(channel)) < 16,
        preview_channel(None) == 0,
{
}

} // verus!
