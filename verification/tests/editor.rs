use sphere_ui_components::canvas::{
    empty_lane_hint, LaneBody, PianoRollPlayheadFrame, PianoRollPlayheadOverlay, Transport,
};
use sphere_ui_components::commands::{key_command, menu_command, CommandInput, RollCommand};
use sphere_ui_components::grid::{GridLineKind, GridRes};
use sphere_ui_components::id_set::IdSet;
use sphere_ui_components::inspector::{InspectorRow, MenuEntry, NoteAction, NoteNames};
use sphere_ui_components::labels::{
    cc_kind_label, controller_display_value, format_beats, plural, uniform_time, uniform_u8,
};
use sphere_ui_components::lanes::{next_lane, ControllerLaneKind, PianoLaneView, PianoSelectMenu, PianoTool};
use sphere_ui_components::marquee::Modifiers;
use sphere_ui_components::midi::{
    ArticulationId, MidiChannel, MidiChannelMask, MidiControllerKind, MidiControllerPoint, MidiNote,
};
use sphere_ui_components::note_edits::{split_note, ClipboardPayload, CurveUse, MIDI_CLIPBOARD_VERSION};
use sphere_ui_components::preview::{
    preview_target, PreviewState, PreviewTarget, PreviewTrack, TrackKind, UiMidiPreviewCommand,
};
use sphere_ui_components::roll::{Bounds, ClipView, PianoRoll};
use sphere_ui_components::roll_edit::RollEdit;
use sphere_ui_components::scope::{ClipInfo, ClipSpan, EditorScope, TrackInfo};
use sphere_ui_components::scale::{PitchContext, Scale, ScaleChoices};
use sphere_ui_components::toolbar::{ToolbarAction, ToolbarItem};
use sphere_ui_components::zoom::WheelTurn;

fn beats(b: f64) -> i64 {
    (b * 960_000.0).round() as i64
}

fn px(p: f64) -> i64 {
    (p * 1_000_000.0).round() as i64
}

fn note(id: u64, pitch: u8, start: f64, duration: f64) -> MidiNote {
    MidiNote {
        id,
        pitch,
        start: beats(start),
        duration: beats(duration),
        velocity: 100,
        muted: false,
        channel: MidiChannel { raw: 0 },
        articulation: None,
        pitch_curve: None,
    }
}

fn clip(notes: Vec<MidiNote>) -> ClipView {
    ClipView { id: "c".to_string(), start: 0, duration: beats(16.0), notes, points: vec![], articulations: vec![] }
}

fn roll() -> PianoRoll {
    let mut r = PianoRoll::new();
    r.grid_bounds = Some(Bounds { x: 0, y: 0, width: px(800.0), height: px(420.0) });
    r.lane_bounds = Some(Bounds { x: 0, y: px(420.0), width: px(800.0), height: px(140.0) });
    r.scope = EditorScope::from_spans(vec![ClipSpan {
        clip_id: "c".to_string(),
        track_id: "t".to_string(),
        name: "Clip".to_string(),
        start_beat: 0,
        duration_beats: beats(16.0),
        color: 0,
        editable: true,
    }]);
    r
}

fn all_articulations() -> Vec<ArticulationId> {
    vec![ArticulationId::Sustain, ArticulationId::Staccato, ArticulationId::Accent]
}

struct Input {
    clip: ClipView,
    available: Vec<ArticulationId>,
    clipboard: Option<ClipboardPayload>,
}

fn with(clip: ClipView) -> Input {
    Input { clip, available: all_articulations(), clipboard: None }
}

impl Input {
    fn get(&self) -> CommandInput<'_> {
        CommandInput {
            clip: Some(&self.clip),
            playhead: beats(4.0),
            clipboard: self.clipboard.as_ref(),
            available: &self.available,
            next_id: 100,
        }
    }
}

#[test]
fn arrow_keys_transpose_the_selection() {
    let i = with(clip(vec![note(1, 60, 0.0, 1.0)]));
    let mut r = roll();
    assert!(key_command(&r, "up", false, false).is_none());
    r.selection = IdSet::single(1);
    assert_eq!(key_command(&r, "up", false, true), Some(RollCommand::Transpose(12)));
    let (used, o, _) = r.on_key("down", false, false, &i.get(), None);
    assert!(used);
    match o.edit {
        Some(RollEdit::Transpose { ids, semitones, .. }) => assert_eq!((ids, semitones), (vec![1], -1)),
        _ => panic!("no transposition"),
    }
}

#[test]
fn keys_without_a_meaning_pass_on() {
    let i = with(clip(vec![]));
    let mut r = roll();
    let (used, o, copied) = r.on_key("q", false, false, &i.get(), None);
    assert!(!used && o.edit.is_none() && copied.is_none());
}

#[test]
fn escape_takes_one_step_at_a_time() {
    let i = with(clip(vec![note(1, 60, 0.0, 1.0)]));
    let mut r = roll();
    r.selection = IdSet::single(1);
    r.open_note_menu = Some((0, 0));
    r.on_key("escape", false, false, &i.get(), None);
    assert!(r.open_note_menu.is_none());
    assert_eq!(r.selected_note_count(), 1);
    r.on_key("escape", false, false, &i.get(), None);
    assert_eq!(r.selected_note_count(), 0);
}

#[test]
fn cut_copies_what_it_deletes_and_paste_brings_it_back() {
    let mut i = with(clip(vec![note(1, 60, 2.0, 1.0), note(2, 64, 3.0, 1.0)]));
    let mut r = roll();
    r.selection = IdSet::from_ids(&vec![1, 2]);
    let (_, o, copied) = r.on_key("x", true, false, &i.get(), None);
    match o.edit {
        Some(RollEdit::DeleteNotes { notes, .. }) => assert_eq!(notes.len(), 2),
        _ => panic!("nothing deleted"),
    }
    let payload = copied.expect("a clipboard");
    assert_eq!(payload.version, MIDI_CLIPBOARD_VERSION);
    assert_eq!(payload.notes.iter().map(|n| n.rel_start).collect::<Vec<i64>>(), vec![0, beats(1.0)]);
    i.clipboard = Some(payload);
    let (_, o, _) = r.on_key("v", true, false, &i.get(), None);
    match o.edit {
        Some(RollEdit::CreateNotes { notes, .. }) => {
            let made: Vec<(u64, i64)> = notes.iter().map(|n| (n.note.id, n.note.start)).collect();
            assert_eq!(made, vec![(100, beats(4.0)), (101, beats(5.0))]);
        }
        _ => panic!("nothing pasted"),
    }
    assert_eq!(r.selected_note_ids(), vec![100, 101]);
}

#[test]
fn a_playhead_outside_the_clip_pastes_at_its_start() {
    let r = roll();
    let c = clip(vec![]);
    assert_eq!(r.playhead_paste_anchor(&c, beats(4.1)), beats(4.0));
    assert_eq!(r.playhead_paste_anchor(&c, beats(40.0)), 0);
    assert_eq!(r.playhead_paste_anchor(&c, beats(-1.0)), 0);
}

#[test]
fn duplicates_follow_their_originals() {
    let i = with(clip(vec![note(1, 60, 2.0, 1.0), note(2, 64, 3.0, 1.0)]));
    let mut r = roll();
    r.selection = IdSet::from_ids(&vec![1, 2]);
    let (_, o, _) = r.on_key("d", true, false, &i.get(), None);
    match o.edit {
        Some(RollEdit::CreateNotes { notes, .. }) => {
            let made: Vec<i64> = notes.iter().map(|n| n.note.start).collect();
            assert_eq!(made, vec![beats(4.0), beats(5.0)]);
        }
        _ => panic!("nothing duplicated"),
    }
}

#[test]
fn menu_entries_have_commands() {
    let mut r = roll();
    assert_eq!(menu_command(&r, "midi:select-all"), Some(RollCommand::SelectAllNotes));
    assert_eq!(menu_command(&r, "midi:transpose-octave-up"), Some(RollCommand::Transpose(12)));
    assert_eq!(
        menu_command(&r, "midi:articulation-accent"),
        Some(RollCommand::Articulate(Some(ArticulationId::Accent)))
    );
    assert_eq!(menu_command(&r, "midi:unknown"), None);
    r.lane_view = PianoLaneView::Controller;
    assert_eq!(menu_command(&r, "midi.select_all"), Some(RollCommand::SelectAllPoints));
    let i = with(clip(vec![note(1, 60, 0.0, 1.0), note(2, 60, 1.0, 1.0)]));
    r.lane_view = PianoLaneView::Velocity;
    r.run_menu_command("midi:select-all", &i.get(), None);
    assert_eq!(r.selected_note_ids(), vec![1, 2]);
    match r.run_menu_command("midi:quantize", &i.get(), None).0.edit {
        Some(RollEdit::Quantize { ids, step, .. }) => assert_eq!((ids, step), (vec![1, 2], beats(0.25))),
        _ => panic!("nothing quantized"),
    }
}

#[test]
fn muting_a_mixed_selection_mutes_all_of_it() {
    let mut c = clip(vec![note(1, 60, 0.0, 1.0), note(2, 60, 1.0, 1.0)]);
    c.notes[0].muted = true;
    let mut r = roll();
    r.selection = IdSet::from_ids(&vec![1, 2]);
    assert!(!r.selection_all_muted(&c));
    match r.toggle_mute_selection(Some(&c)) {
        Some(RollEdit::SetMuted { prev, muted, .. }) => {
            assert_eq!(prev, vec![(1, true), (2, false)]);
            assert!(muted);
        }
        _ => panic!("nothing muted"),
    }
    c.notes[1].muted = true;
    assert!(r.selection_all_muted(&c));
    match r.toggle_mute_selection(Some(&c)) {
        Some(RollEdit::SetMuted { muted, .. }) => assert!(!muted),
        _ => panic!("nothing unmuted"),
    }
}

#[test]
fn a_split_keeps_both_parts_long_enough() {
    let original = note(1, 60, 1.0, 1.0);
    let (left, right) = split_note(original, beats(1.25), 50).expect("two parts");
    assert_eq!((left.note.id, left.note.start, left.note.duration), (50, beats(1.0), beats(0.25)));
    assert_eq!((right.note.id, right.note.start, right.note.duration), (51, beats(1.25), beats(0.75)));
    assert_eq!(left.curve, CurveUse::Nothing);
    assert!(split_note(original, beats(1.01), 50).is_none());
    assert!(split_note(original, beats(1.99), 50).is_none());
    let mut r = roll();
    r.tool = PianoTool::Split;
    match r.split_note_at(1, beats(1.3), Some(&clip(vec![original])), 50) {
        Some(RollEdit::SplitNote { parts, .. }) => assert_eq!(parts[1].note.start, beats(1.25)),
        _ => panic!("no split"),
    }
    assert_eq!(r.selected_note_ids(), vec![50, 51]);
}

#[test]
fn zooming_keeps_the_beat_under_the_pointer() {
    let mut r = roll();
    r.scroll_x = px(160.0);
    let before = r.x_to_clip_beat(px(240.0));
    r.zoom_ppb_around(2_000_000_000, px(240.0));
    assert_eq!(r.ppb, px(160.0));
    assert_eq!(r.x_to_clip_beat(px(240.0)), before);
    r.zoom_ppb_around(1_000_000_000_000, px(240.0));
    assert_eq!(r.ppb, px(400.0));
    r.reset_row_h_zoom();
    assert_eq!(r.row_h, px(14.0));
}

#[test]
fn the_wheel_scrolls_and_zooms() {
    let mut r = roll();
    let keys = Modifiers { control: false, alt: false, shift: false, platform: false };
    let turn = WheelTurn { dx: 0, dy: px(-36.0), modifiers: keys, x: 0, y: 0, natural: false, factor: 1_000_000_000 };
    r.on_wheel(turn);
    assert_eq!(r.scroll_y, px(36.0));
    let zoom = WheelTurn {
        modifiers: Modifiers { control: true, ..keys },
        dy: px(36.0),
        factor: 1_100_000_000,
        ..turn
    };
    let ppb = r.ppb;
    r.on_wheel(zoom);
    assert_eq!(r.ppb, ppb * 11 / 10);
}

#[test]
fn lanes_are_cycled_in_order() {
    let first = ControllerLaneKind::Velocity;
    let mut kind = first;
    for _ in 0..10 {
        let next = next_lane(kind, 1);
        assert_eq!(next_lane(next, -1), kind);
        kind = next;
    }
    assert_eq!(kind, first);
    assert_eq!(next_lane(first, i32::MIN), next_lane(first, 2));
    assert_eq!(next_lane(first, i32::MAX), next_lane(first, 7));
    assert_eq!(next_lane(first, -1001), ControllerLaneKind::Articulations);
    let mut r = roll();
    r.lane_visible = false;
    r.cycle_lane(1);
    assert!(r.lane_visible);
    assert_ne!(r.current_lane(), first);
}

#[test]
fn a_solfege_track_keeps_the_articulation_lane_only() {
    let mut r = roll();
    assert!(r.unified_lane_visible(false));
    assert!(!r.unified_lane_visible(true));
    r.set_lane(ControllerLaneKind::Articulations);
    assert!(r.unified_lane_visible(true));
    assert_eq!(r.lane_body(true), LaneBody::Articulations);
    r.toggle_lane_visible();
    assert_eq!(r.lane_body(false), LaneBody::Hidden);
}

#[test]
fn lanes_have_names_and_ranges() {
    let mut r = roll();
    assert_eq!((r.lane_name().as_str(), r.lane_range()), ("Velocity", "1–127"));
    r.set_lane(ControllerLaneKind::Controller(MidiControllerKind::PitchBend));
    assert_eq!(r.lane_range(), "-8192..8191");
    assert_eq!(cc_kind_label(MidiControllerKind::CC(1)), r_label(1));
    assert_eq!(controller_display_value(MidiControllerKind::CC(7), 1_000_000_000), "127");
    assert_eq!(controller_display_value(MidiControllerKind::CC(7), 0), "0");
    assert_eq!(format_beats(beats(1.5)), "1.500");
    assert_eq!(plural(1), "");
    assert_eq!(plural(2), "s");
}

fn r_label(n: u8) -> String {
    let mut r = roll();
    r.set_lane(ControllerLaneKind::Controller(MidiControllerKind::CC(n)));
    r.lane_name()
}

#[test]
fn a_narrowed_view_draws_on_its_channel() {
    let mut r = roll();
    let track = MidiChannel { raw: 4 };
    assert_eq!(r.active_note_channel(track), track);
    assert_eq!(r.channel_view_label(), "All Channels");
    r.set_channel_view(MidiChannelMask::single(MidiChannel { raw: 9 }));
    assert_eq!(r.active_note_channel(track), MidiChannel { raw: 9 });
    assert_eq!(r.channel_view_label(), "Channel 10");
    assert!(!r.channel_visible(track));
}

#[test]
fn previews_never_hang() {
    let mut p = PreviewState::new();
    p.connected = true;
    let t = || Some(PreviewTarget { track_id: "t".to_string(), channel: 1 });
    assert_eq!(p.begin_preview_note(t(), 60, 100).len(), 1);
    let next = p.begin_preview_note(t(), 62, 100);
    assert!(matches!(
        next.as_slice(),
        [UiMidiPreviewCommand::NoteOff { pitch: 60, .. }, UiMidiPreviewCommand::NoteOn { pitch: 62, .. }]
    ));
    assert_eq!(next[0].track_id(), "t");
    assert_eq!(p.end_preview_note().len(), 1);
    assert!(p.end_preview_note().is_empty());
    assert!(matches!(p.midi_panic(t()).last(), Some(UiMidiPreviewCommand::MidiPanic { .. })));
}

fn track(id: &str, kind: TrackKind, plays_through: Option<&str>, has_instrument: bool) -> PreviewTrack {
    PreviewTrack {
        id: id.to_string(),
        kind,
        midi_channel: None,
        plays_through: plays_through.map(|s| s.to_string()),
        has_instrument,
    }
}

#[test]
fn a_preview_goes_to_the_track_of_the_clip() {
    let routed = track("m", TrackKind::Midi, Some("i"), false);
    let unrouted = track("u", TrackKind::Midi, None, false);
    let mut audio = track("a", TrackKind::Other, None, true);
    audio.midi_channel = Some(3);
    let mut inst = track("i", TrackKind::Instrument, Some("i"), true);
    inst.midi_channel = Some(3);
    let tracks = vec![audio, inst];
    let r = preview_target(Some(&routed), true, None, &tracks).expect("a target");
    assert_eq!((r.track_id.as_str(), r.channel), ("i", 0));
    assert!(preview_target(Some(&unrouted), true, Some(&tracks[1]), &tracks).is_none());
    let selected = preview_target(Some(&unrouted), false, Some(&tracks[1]), &tracks).expect("a target");
    assert_eq!(selected.channel, 2);
    let any = preview_target(None, false, Some(&tracks[0]), &tracks).expect("a target");
    assert_eq!((any.track_id.as_str(), any.channel), ("i", 2));
    assert!(preview_target(None, false, None, &vec![]).is_none());
}

fn names(list: &[&str]) -> Vec<String> {
    list.iter().map(|s| s.to_string()).collect()
}

fn note_names() -> (Vec<String>, Vec<String>, Vec<String>) {
    let long = names(&["Sus", "Stac", "Stacss", "Leg", "Ten", "Acc", "Marc", "Pizz", "Trem"]);
    let short = names(&["su", "st", "ss", "le", "te", "ac", "ma", "pi", "tr"]);
    let channels = (0..256).map(|c| format!("Ch {}", c + 1)).collect();
    (long, short, channels)
}

#[test]
fn the_inspector_shows_one_note_or_what_several_share() {
    let (long, short, channels) = note_names();
    let n = NoteNames { articulations: &long, short: &short, channels: &channels };
    let c = clip(vec![note(1, 60, 0.0, 1.0), note(2, 64, 0.0, 1.0)]);
    let mut r = roll();
    let nothing = r.render_note_inspector(&c, &all_articulations(), &n);
    assert!(matches!(nothing.as_slice(), [InspectorRow::Title(_), InspectorRow::Hint(_)]));
    r.selection = IdSet::single(1);
    let one = r.render_note_inspector(&c, &all_articulations(), &n);
    assert!(one.iter().any(|row| matches!(row, InspectorRow::Value(_, v) if v.contains("C4"))));
    r.selection = IdSet::from_ids(&vec![1, 2]);
    let two = r.render_note_inspector(&c, &all_articulations(), &n);
    assert!(two.iter().any(|row| matches!(row, InspectorRow::Value(_, v) if v == "Mixed")));
    assert_eq!(r.uniform_selection_articulation(&c), Some(None));
}

#[test]
fn the_note_menu_stays_on_the_grid() {
    let (long, _, _) = note_names();
    let c = clip(vec![note(1, 60, 0.0, 1.0)]);
    let mut r = roll();
    assert!(r.build_note_context_menu(&c, &all_articulations(), &long).is_none());
    r.selection = IdSet::single(1);
    r.open_note_menu = Some((px(790.0), px(410.0)));
    let ((x, y), entries) = r.build_note_context_menu(&c, &all_articulations(), &long).expect("a menu");
    assert_eq!((x, y), (px(632.0), px(120.0)));
    assert!(matches!(&entries[0], MenuEntry::Heading(h) if h == "Articulation"));
    assert!(entries.iter().any(|e| matches!(e, MenuEntry::Row(row) if row.destructive)));
    let i = with(clip(vec![note(1, 60, 0.0, 1.0)]));
    r.run_note_menu_row(NoteAction::Velocity(10), true, &i.get(), None);
    assert!(r.open_note_menu.is_none());
}

#[test]
fn the_toolbar_marks_what_is_chosen() {
    let roots = names(&["C", "D"]);
    let kinds = names(&["Chromatic", "Major"]);
    let tables = scale_tables();
    let scales = ScaleChoices { roots: &roots, kinds: &kinds, tables: &tables };
    let mut r = roll();
    let groups = r.render_toolbar(&scales, false, 0).groups;
    assert!(!groups.is_empty());
    let on: Vec<PianoTool> = groups
        .iter()
        .flat_map(|g| g.items.iter())
        .filter_map(|item| match item {
            ToolbarItem::Button(c) if c.on => match c.action {
                ToolbarAction::Tool(t) => Some(t),
                _ => None,
            },
            _ => None,
        })
        .collect();
    assert_eq!(on, vec![PianoTool::Draw]);
    let i = with(clip(vec![]));
    let run = |r: &mut PianoRoll, action: ToolbarAction| {
        let (_, popped) = r.run_toolbar_action(action, &i.get(), MidiChannel { raw: 0 }, None, &scales, None);
        assert!(!popped);
    };
    run(&mut r, ToolbarAction::Tool(PianoTool::Line));
    assert_eq!(r.tool, PianoTool::Line);
    run(&mut r, ToolbarAction::Menu(PianoSelectMenu::Grid));
    assert!(r.open_select_menu.is_some());
    let ppb = r.ppb;
    run(&mut r, ToolbarAction::ZoomIn);
    assert_eq!(r.ppb, 2 * ppb);
}

fn scale_tables() -> Vec<Vec<u8>> {
    let chromatic: Vec<u8> = (0..128).collect();
    let major = |root: u8| -> Vec<u8> {
        (0..128u8).map(|p| if [1, 3, 6, 8, 10].contains(&((p + 12 - root) % 12)) { p - 1 } else { p }).collect()
    };
    vec![chromatic.clone(), major(0), chromatic, major(2)]
}

#[test]
fn the_scale_controls_change_what_pitches_are_held_to() {
    let roots = names(&["C", "D"]);
    let kinds = names(&["Chromatic", "Major"]);
    let tables = scale_tables();
    let scales = ScaleChoices { roots: &roots, kinds: &kinds, tables: &tables };
    let i = with(clip(vec![note(1, 61, 0.0, 1.0)]));
    let mut r = roll();
    let run = |r: &mut PianoRoll, action: ToolbarAction| {
        r.open_select_menu = Some(PianoSelectMenu::ScaleKind);
        let (o, _) = r.run_toolbar_action(action, &i.get(), MidiChannel { raw: 0 }, None, &scales, None);
        o
    };
    run(&mut r, ToolbarAction::ScaleKind(1));
    assert_eq!(r.pitch_ctx, PitchContext { scale: Scale { root: 0, kind: 1 }, constrain: false });
    assert_eq!(r.pitch_map[61], 61);
    assert!(r.open_select_menu.is_none());
    run(&mut r, ToolbarAction::ToggleLock);
    assert!(r.pitch_ctx.constrain);
    assert_eq!((r.pitch_map[60], r.pitch_map[61]), (60, 60));
    run(&mut r, ToolbarAction::ScaleRoot(1));
    assert_eq!((r.pitch_map[60], r.pitch_map[61]), (59, 61));
    assert_eq!(r.render_toolbar(&scales, false, 1).groups[2].items.len(), 4);
    assert!(matches!(&r.render_toolbar(&scales, false, 1).groups[2].items[0],
        ToolbarItem::Select(_, label, _, options) if label == "D" && options[1].on && !options[0].on));
    assert!(matches!(&r.render_toolbar(&scales, false, 1).groups[2].items[2], ToolbarItem::Button(c) if c.on));
    r.selection = IdSet::single(1);
    match run(&mut r, ToolbarAction::ToScale).edit {
        Some(RollEdit::SnapToScale { ids, scale, .. }) => assert_eq!((ids, scale), (vec![1], Scale { root: 1, kind: 1 })),
        _ => panic!("no edit"),
    }
    run(&mut r, ToolbarAction::ToggleLock);
    assert!((0..128).all(|p| r.pitch_map[p] as usize == p));
}

#[test]
fn per_note_output_changes_the_track_and_silences_it() {
    let roots = names(&["C"]);
    let kinds = names(&["Chromatic"]);
    let tables = vec![(0..128).collect::<Vec<u8>>()];
    let scales = ScaleChoices { roots: &roots, kinds: &kinds, tables: &tables };
    let i = with(clip(vec![]));
    let target = || Some(PreviewTarget { track_id: "t".to_string(), channel: 2 });
    let mut r = roll();
    r.set_midi_preview_handler(true);
    let track = || Some(("t".to_string(), false));
    let act = ToolbarAction::PerNoteOutput;
    let (o, _) = r.run_toolbar_action(act, &i.get(), MidiChannel { raw: 0 }, track(), &scales, target());
    assert!(matches!(o.edit, Some(RollEdit::SetOutputPerNote { ref track_id, per_note: true }) if track_id == "t"));
    let cut = r.toggle_track_output_per_note(track(), target());
    assert_eq!(o.preview.len(), cut.preview.len());
    let (o, _) = r.run_toolbar_action(act, &i.get(), MidiChannel { raw: 0 }, None, &scales, target());
    assert!(o.edit.is_none() && o.preview.is_empty());
    let none = CommandInput { clip: None, ..i.get() };
    let (o, _) = r.run_toolbar_action(act, &none, MidiChannel { raw: 0 }, track(), &scales, target());
    assert!(o.edit.is_none() && o.preview.is_empty());
}

#[test]
fn notes_share_what_is_the_same_for_all() {
    let notes = vec![note(1, 60, 0.0, 1.0), note(2, 72, 0.00005, 2.0)];
    assert_eq!(uniform_u8(&notes, |n| n.pitch), None);
    assert_eq!(uniform_u8(&notes, |n| n.pitch % 12), Some(0));
    assert_eq!(uniform_u8(&vec![], |n| n.pitch), None);
    assert_eq!(uniform_time(&notes, |n| n.start), Some(0));
    assert_eq!(uniform_time(&notes, |n| n.duration), None);
}

#[test]
fn a_docked_editor_can_be_popped_out() {
    let roots = names(&["C"]);
    let kinds = names(&["Chromatic"]);
    let tables = vec![(0..128).collect::<Vec<u8>>()];
    let scales = ScaleChoices { roots: &roots, kinds: &kinds, tables: &tables };
    let i = with(clip(vec![]));
    let mut r = roll();
    let bar = r.render_toolbar(&scales, true, 3);
    assert!(bar.pop_out.is_none() && bar.status.starts_with("3 notes · 0 sel · "));
    assert!(!r.run_toolbar_action(ToolbarAction::PopOut, &i.get(), MidiChannel { raw: 0 }, None, &scales, None).1);
    r.set_pop_out_handler(true);
    let button = r.render_toolbar(&scales, true, 3).pop_out.expect("a button");
    assert_eq!((button.label.as_str(), button.action), ("Pop out", ToolbarAction::PopOut));
    assert!(r.run_toolbar_action(button.action, &i.get(), MidiChannel { raw: 0 }, None, &scales, None).1);
    r.set_pop_out_handler(false);
    assert!(r.render_toolbar(&scales, true, 3).pop_out.is_none());
}

#[test]
fn zooming_far_out_in_the_song_keeps_the_beat_too() {
    let mut r = roll();
    r.ppb = px(1.0);
    r.scroll_x = px(143_165.0);
    assert!(!r.can_zoom_around(2_000_000_000, px(800.0)));
    r.scroll_x = px(142_000.0);
    assert!(r.can_zoom_around(2_000_000_000, px(800.0)));
    r.zoom_ppb_around(2_000_000_000, px(800.0));
    assert_eq!((r.ppb, r.scroll_x), (px(2.0), px(284_800.0)));
}

#[test]
fn every_lane_with_points_is_offered() {
    let r = roll();
    let s = r.render_lane_selector(&vec![(MidiControllerKind::CC(33), true)], false, false);
    assert!(s.in_clip.iter().any(|o| o.kind == ControllerLaneKind::Controller(MidiControllerKind::CC(33))));
    assert!(s.common.iter().any(|o| o.selected && o.kind == ControllerLaneKind::Velocity));
}

fn transport() -> Transport {
    Transport {
        playhead: beats(4.0),
        playing: true,
        loop_enabled: true,
        loop_start: beats(2.0),
        loop_end: beats(6.0),
        beats_per_bar: beats(4.0),
    }
}

#[test]
fn the_body_shows_the_clip() {
    let (long, short, channels) = note_names();
    let n = NoteNames { articulations: &long, short: &short, channels: &channels };
    let mut c = clip(vec![note(1, 127, 1.0, 1.0), note(2, 10, 1.0, 1.0)]);
    c.points = vec![MidiControllerPoint { id: 1, beat: 0, value: 0 }];
    let r = roll();
    let plan = r.render_body(&c, &transport(), &all_articulations(), &n, false, 1_000_000);
    assert_eq!(plan.blocks.len(), 1);
    assert_eq!((plan.blocks[0].left, plan.blocks[0].width), (px(80.0), px(80.0)));
    assert_eq!(plan.playhead, PianoRollPlayheadFrame { x: px(320.0), visible: true, playing: true });
    assert_eq!(plan.loop_band.as_ref().map(|b| (b.left, b.width)), Some((px(160.0), px(320.0))));
    assert!(plan.hint.is_none() && plan.lane_hint.is_none() && plan.lane_chip.is_none());
    assert_eq!(plan.lane_header.map(|h| h.0), Some("Velocity".to_string()));
    assert!(plan.scrollbars.0.is_some());
    let empty = r.render_body(&clip(vec![]), &transport(), &all_articulations(), &n, true, 1_000_000);
    assert!(empty.hint.is_some() && empty.lane_header.is_none());
}

#[test]
fn the_body_keeps_beat_lines_on_a_coarse_grid() {
    let mut r = roll();
    r.grid_res = GridRes::Whole;
    let lines = r.build_grid_lines(&clip(vec![]), &transport());
    for beat in 0..10 {
        let kind = if beat % 4 == 0 { GridLineKind::Bar } else { GridLineKind::Beat };
        assert_eq!(lines[beat as usize], (beat * px(80.0), kind));
    }
    let lane = r.visible_lane_lines(&transport());
    assert_eq!(lane[3].0, px(240.0));
    assert_eq!(lane[3].1, lane[1].1);
    assert_ne!(lane[3].1, lane[4].1);
}

#[test]
fn a_playhead_is_published_when_it_moves() {
    let at = |x: f64| PianoRollPlayheadFrame { x: px(x), visible: true, playing: true };
    let mut overlay = PianoRollPlayheadOverlay::new(at(10.0));
    assert!(!overlay.publish_playhead(at(10.0)));
    assert!(overlay.publish_playhead(at(20.0)));
    assert_eq!(overlay.frame, at(20.0));
    let mut t = transport();
    t.playhead = beats(40.0);
    assert!(!roll().playhead_frame_now(Some(&clip(vec![])), &t).visible);
}

#[test]
fn empty_lanes_have_hints() {
    assert!(empty_lane_hint(LaneBody::Velocity, 0, 0, 0).is_some());
    assert!(empty_lane_hint(LaneBody::Velocity, 1, 0, 0).is_none());
    assert!(empty_lane_hint(LaneBody::Controller, 1, 0, 0).is_some());
    assert!(empty_lane_hint(LaneBody::Articulations, 1, 1, 1).is_none());
    assert!(empty_lane_hint(LaneBody::Hidden, 0, 0, 0).is_none());
}

#[test]
fn a_new_clip_starts_clean() {
    let mut r = roll();
    let first = clip(vec![note(1, 60, 0.0, 1.0)]);
    r.sync_editing_clip(&vec![], Some(&first), None);
    r.selection = IdSet::single(1);
    r.open_note_menu = Some((0, 0));
    let mut other = clip(vec![note(9, 60, 0.0, 1.0)]);
    other.id = "other".to_string();
    r.sync_editing_clip(&vec![], Some(&other), None);
    assert_eq!(r.selected_note_count(), 0);
    assert!(r.drag.is_idle());
    assert_eq!(r.last_editing_clip.as_deref(), Some("other"));
}

#[test]
fn the_dense_view_holds_what_is_visible() {
    let mut c = clip(vec![note(1, 127, 1.0, 1.0), note(2, 10, 1.0, 1.0)]);
    c.points = vec![
        MidiControllerPoint { id: 1, beat: 0, value: 5 },
        MidiControllerPoint { id: 2, beat: beats(15.0), value: 6 },
    ];
    let s = roll().build_render_snapshot(&c);
    assert_eq!(s.notes.iter().map(|n| n.id).collect::<Vec<u64>>(), vec![1]);
    assert_eq!(s.velocity.iter().map(|v| v.id).collect::<Vec<u64>>(), vec![1, 2]);
    assert_eq!(s.controller_points.iter().map(|p| p.id).collect::<Vec<u64>>(), vec![1]);
    assert_eq!(s.visible_beat_range, (0, beats(10.0)));
}

#[test]
fn the_dense_view_matches_the_elements() {
    let mut hidden = note(3, 127, 2.0, 1.0);
    hidden.channel = MidiChannel { raw: 4 };
    let c = clip(vec![note(1, 127, 1.0, 0.001), note(2, 120, 3.0, 1.0), hidden]);
    let mut r = roll();
    r.channel_view = MidiChannelMask::single(MidiChannel { raw: 0 });
    let blocks = r.build_note_elements(&c.notes);
    let s = r.build_render_snapshot(&c);
    assert_eq!(blocks.len(), 2);
    assert_eq!(s.notes.len(), 2);
    for (item, block) in s.notes.iter().zip(blocks.iter()) {
        assert_eq!((item.id, item.x, item.w), (block.id, block.left, block.width));
    }
    assert_eq!(s.notes[0].w, px(5.0));
    assert_eq!(s.velocity.len(), 2);
}

#[test]
fn the_axis_follows_the_edited_clip() {
    let info = |id: &str, start: f64| ClipInfo {
        id: id.to_string(),
        name: id.to_string(),
        start_beat: beats(start),
        duration_beats: beats(16.0),
        is_midi: true,
    };
    let tracks = vec![TrackInfo { id: "t".to_string(), color: 7, clips: vec![info("later", 48.0), info("c", 32.0)] }];
    let mut c = clip(vec![note(1, 60, 0.0, 1.0)]);
    c.start = beats(32.0);
    let mut r = roll();
    r.sync_editing_clip(&tracks, Some(&c), None);
    assert_eq!(r.edit_origin, beats(32.0));
    assert_eq!(r.scope.spans().iter().map(|s| s.clip_id.as_str()).collect::<Vec<&str>>(), vec!["c", "later"]);
    assert_eq!(r.scope.editing().map(|s| s.clip_id.as_str()), Some("c"));
    assert!(r.clip_beat_to_x(0) >= 0 && r.clip_beat_to_x(0) <= px(800.0));
    r.sync_editing_clip(&tracks, None, None);
    assert_eq!(r.edit_origin, 0);
    assert!(r.scope.is_empty());
}

#[test]
fn the_inspector_steps_by_the_grid_that_is_shown() {
    let (long, short, channels) = note_names();
    let n = NoteNames { articulations: &long, short: &short, channels: &channels };
    let c = clip(vec![note(1, 60, 0.0, 1.0)]);
    let mut r = roll();
    r.selection = IdSet::single(1);
    r.grid_res = GridRes::Adaptive;
    let rows = r.render_note_inspector(&c, &all_articulations(), &n);
    let starts: Vec<NoteAction> = rows
        .iter()
        .flat_map(|row| match row {
            InspectorRow::Buttons(buttons) => buttons.iter().map(|b| b.action).collect::<Vec<NoteAction>>(),
            _ => vec![],
        })
        .filter(|action| matches!(action, NoteAction::Start(_) | NoteAction::Length(_)))
        .collect();
    assert_eq!(
        starts,
        vec![
            NoteAction::Start(-beats(0.25)),
            NoteAction::Start(beats(0.25)),
            NoteAction::Length(-beats(0.0625)),
            NoteAction::Length(beats(0.0625)),
        ]
    );
}
