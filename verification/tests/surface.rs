use sphere_ui_components::articulation::available_articulations;
use sphere_ui_components::canvas::{CursorShape, PianoRollPlayheadFrame};
use sphere_ui_components::commands::CommandInput;
use sphere_ui_components::drag::PianoDrag;
use sphere_ui_components::editor_chrome::{resolve_chrome_palette, ChromeColours, Colour};
use sphere_ui_components::grid::GridRes;
use sphere_ui_components::id_set::IdSet;
use sphere_ui_components::inspector::articulation_button_id;
use sphere_ui_components::labels::NoteInspectorSnapshot;
use sphere_ui_components::lane_image::CcLaneSnapshot;
use sphere_ui_components::lanes::{ControllerLaneKind, PianoSelectMenu, PianoTool};
use sphere_ui_components::marquee::Modifiers;
use sphere_ui_components::midi::{
    ArticulationId, MidiArticulationEvent, MidiChannel, MidiControllerKind, MidiControllerPoint, MidiNote,
};
use sphere_ui_components::motion::{MouseButton, Pointer};
use sphere_ui_components::note_edits::resize_targets;
use sphere_ui_components::preview::{PreviewTarget, UiMidiPreviewCommand};
use sphere_ui_components::roll::{Bounds, ClipView, PianoRoll};
use sphere_ui_components::roll_edit::RollEdit;
use sphere_ui_components::toolbar::select_menu_width;
use sphere_ui_components::velocity_ops::VelocityOperation;
use sphere_ui_components::zoom::{wheel_lines_to_pixels, WheelTurn};

fn beats(b: f64) -> i64 {
    (b * 960_000.0).round() as i64
}

fn px(p: f64) -> i64 {
    (p * 1_000_000.0).round() as i64
}

fn note(id: u64, pitch: u8, start: f64, velocity: u8) -> MidiNote {
    MidiNote {
        id,
        pitch,
        start: beats(start),
        duration: beats(1.0),
        velocity,
        muted: false,
        channel: MidiChannel { raw: 0 },
        articulation: None,
        pitch_curve: None,
    }
}

fn clip(notes: Vec<MidiNote>) -> ClipView {
    ClipView { id: "c".to_string(), start: 0, duration: beats(16.0), notes, points: vec![], articulations: vec![] }
}

fn roll() -> PianoRoll {
    let mut r = PianoRoll::new();
    r.grid_bounds = Some(Bounds { x: 0, y: 0, width: px(800.0), height: px(420.0) });
    r.lane_bounds = Some(Bounds { x: 0, y: px(420.0), width: px(800.0), height: px(140.0) });
    r
}

fn roll_on(kind: ControllerLaneKind) -> PianoRoll {
    let mut r = roll();
    r.set_lane(kind);
    r.lane_bounds = Some(Bounds { x: 0, y: px(420.0), width: px(800.0), height: px(140.0) });
    r
}

const NO_KEYS: Modifiers = Modifiers { control: false, alt: false, shift: false, platform: false };

fn lane(x: f64, y: f64, button: MouseButton) -> Pointer {
    Pointer { x: px(x), y: px(420.0 + y), modifiers: NO_KEYS, button: Some(button) }
}

#[test]
fn the_instrument_says_what_it_can_play() {
    assert_eq!(available_articulations(None).len(), 9);
    let own = vec![ArticulationId::Legato];
    assert_eq!(available_articulations(Some(own)), vec![ArticulationId::Legato]);
    assert_eq!(available_articulations(Some(vec![])), vec![]);
}

#[test]
fn the_playhead_shows_only_on_its_surface() {
    let frame = PianoRollPlayheadFrame { x: px(-2.0), visible: true, playing: true };
    assert!(frame.shows_on(px(100.0), px(10.0)));
    assert!(!frame.shows_on(px(100.0), 0));
    assert!(!PianoRollPlayheadFrame { x: px(-2.1), ..frame }.shows_on(px(100.0), px(10.0)));
    assert!(PianoRollPlayheadFrame { x: px(102.0), ..frame }.shows_on(px(100.0), px(10.0)));
    assert!(!PianoRollPlayheadFrame { x: px(102.1), ..frame }.shows_on(px(100.0), px(10.0)));
    assert!(!PianoRollPlayheadFrame { visible: false, ..frame }.shows_on(px(100.0), px(10.0)));
}

#[test]
fn the_pointer_closes_its_hand_while_panning() {
    let mut r = roll();
    assert_eq!(r.editor_cursor(), CursorShape::Arrow);
    let p = Pointer { x: px(10.0), y: px(10.0), modifiers: NO_KEYS, button: Some(MouseButton::Middle) };
    r.begin_pan(p, None, None);
    assert_eq!(r.editor_cursor(), CursorShape::ClosedHand);
}

#[test]
fn every_colour_of_the_strip_is_packed_red_first() {
    let c = |r: i64| Colour { r, g: 500_000_000, b: 0, a: 1_000_000_000 };
    let one = 1_000_000_000;
    let p = resolve_chrome_palette(&ChromeColours {
        strip_bg: c(0),
        row_bg: c(one / 5),
        border: c(one * 2 / 5),
        control_bg: c(one * 3 / 5),
        control_hover: c(one * 4 / 5),
        control_pressed: c(one),
        accent: c(2 * one),
        text_primary: c(-one),
        text_secondary: c(one / 10),
        text_faint: c(one / 2),
    });
    assert_eq!(p.strip_bg, 0x0080_00FF);
    assert_eq!(p.row_bg, 0x3380_00FF);
    assert_eq!(p.border, 0x6680_00FF);
    assert_eq!(p.control_bg, 0x9980_00FF);
    assert_eq!(p.control_hover, 0xCC80_00FF);
    assert_eq!(p.control_pressed, 0xFF80_00FF);
    assert_eq!(p.accent, 0xFF80_00FF);
    assert_eq!(p.text_primary, 0x0080_00FF);
    assert_eq!(p.text_secondary, 0x1A80_00FF);
    assert_eq!(p.text_faint, 0x8080_00FF);
}

#[test]
fn cancelling_a_marquee_brings_the_selection_back() {
    let c = clip(vec![note(1, 127, 1.0, 100)]);
    let mut r = roll();
    r.tool = PianoTool::Select;
    r.selection = IdSet::single(7);
    let p = Pointer { x: px(400.0), y: px(100.0), modifiers: NO_KEYS, button: Some(MouseButton::Left) };
    r.on_grid_down(p, Some(&c), MidiChannel { raw: 0 }, None);
    assert!(matches!(r.drag, PianoDrag::MarqueeSelect(..)));
    r.cancel_marquee_select();
    assert!(r.drag.is_idle());
    assert!(r.selection.contains(7));
    r.begin_pan(p, Some(&c), None);
    r.cancel_marquee_select();
    assert!(matches!(r.drag, PianoDrag::Pan(..)));
}

#[test]
fn articulation_buttons_have_names_of_their_own() {
    assert_eq!(articulation_button_id(None), "pr-art-assign-none");
    assert_eq!(articulation_button_id(Some(ArticulationId::Staccatissimo)), "pr-art-assign-staccatissimo");
    assert_eq!(articulation_button_id(Some(ArticulationId::Tremolo)), "pr-art-assign-tremolo");
}

#[test]
fn the_inspector_names_a_shared_articulation() {
    let mut a = note(1, 60, 0.0, 100);
    a.articulation = Some(ArticulationId::Accent);
    let b = note(2, 62, 1.0, 100);
    let one = NoteInspectorSnapshot { selected: vec![a] };
    assert_eq!(one.articulation_label("Accent"), "Accent");
    let none = NoteInspectorSnapshot { selected: vec![b] };
    assert_eq!(none.articulation_label(""), "None");
    let both = NoteInspectorSnapshot { selected: vec![a, b] };
    assert_eq!(both.articulation_label("Accent"), "Mixed");
}

fn event(id: u64, beat: f64) -> MidiArticulationEvent {
    MidiArticulationEvent { id, beat: beats(beat), articulation: ArticulationId::Staccato }
}

#[test]
fn an_inserted_articulation_is_recorded_and_selected() {
    let mut r = roll_on(ControllerLaneKind::Articulations);
    assert!(r.articulation_inserted("c".to_string(), vec![event(1, 0.0)], vec![event(1, 0.0)], Some(1)).is_none());
    assert_eq!(r.selected_articulation, None);
    match r.articulation_inserted("c".to_string(), vec![], vec![event(2, 4.0)], Some(2)) {
        Some(RollEdit::SetEvents { clip_id, prev, next }) => {
            assert_eq!(clip_id, "c");
            assert!(prev.is_empty());
            assert_eq!(next, vec![event(2, 4.0)]);
        }
        _ => panic!("no edit"),
    }
    assert_eq!(r.selected_articulation, Some(2));
}

#[test]
fn a_right_press_deletes_the_articulation_under_it() {
    let mut c = clip(vec![]);
    c.articulations = vec![event(1, 1.0), event(2, 4.0)];
    let mut r = roll_on(ControllerLaneKind::Articulations);
    r.selected_articulation = Some(2);
    assert!(r.articulation_lane_right_down(lane(320.0, 5.0, MouseButton::Right), Some(&c)).is_none());
    match r.articulation_lane_right_down(lane(320.0, 90.0, MouseButton::Right), Some(&c)) {
        Some(RollEdit::SetEvents { prev, next, .. }) => {
            assert_eq!(prev.len(), 2);
            assert_eq!(next, vec![event(1, 1.0)]);
        }
        _ => panic!("no edit"),
    }
    assert_eq!(r.selected_articulation, None);
}

#[test]
fn the_palette_chooses_what_is_inserted() {
    let c = clip(vec![]);
    let mut r = roll_on(ControllerLaneKind::Articulations);
    r.choose_articulation(ArticulationId::Legato);
    let (other, edit) = r.articulation_lane_down(lane(320.0, 90.0, MouseButton::Left), Some(&c));
    assert!(other.is_none());
    match edit {
        Some(RollEdit::InsertEvent { beat, articulation, .. }) => {
            assert_eq!((beat, articulation), (beats(4.0), ArticulationId::Legato));
        }
        _ => panic!("no edit"),
    }
}

#[test]
fn dashes_run_over_the_base_line() {
    let s = CcLaneSnapshot {
        width: px(23.0),
        height: px(10.0),
        scale: 1_000_000,
        samples: vec![],
        handles: vec![],
        baseline_y: 0,
    };
    assert_eq!(s.dashes(), vec![(0, px(6.0)), (px(10.0), px(6.0)), (px(20.0), px(3.0))]);
}

#[test]
fn a_press_in_the_velocity_lane_paints_from_there() {
    let c = clip(vec![note(1, 60, 1.0, 40), note(2, 62, 6.0, 40)]);
    let mut r = roll();
    let edit = r.begin_velocity_lane_click(lane(80.0, 70.0, MouseButton::Left), Some(&c));
    assert!(matches!(r.drag, PianoDrag::VelocityPaint(_)));
    match edit {
        Some(RollEdit::LiveVelocities { targets, .. }) => {
            assert_eq!(targets.len(), 1);
            assert_eq!(targets[0].0, 1);
        }
        _ => panic!("no edit"),
    }
    let mut s = roll();
    s.tool = PianoTool::Select;
    assert!(s.begin_velocity_lane_click(lane(400.0, 70.0, MouseButton::Left), Some(&c)).is_none());
    assert!(matches!(s.drag, PianoDrag::VelocitySelect(..)));
}

#[test]
fn the_velocity_menu_opens_on_the_nearest_bar() {
    let c = clip(vec![note(1, 60, 1.0, 40), note(2, 62, 6.0, 40)]);
    let mut r = roll();
    r.open_velocity_context_menu(lane(81.0, 70.0, MouseButton::Right), Some(&c));
    assert!(r.selection.contains(1) && !r.selection.contains(2));
    assert_eq!(r.open_velocity_menu, Some((px(81.0), px(70.0))));
    let mut empty = roll();
    empty.open_velocity_context_menu(lane(300.0, 70.0, MouseButton::Right), Some(&c));
    assert_eq!(empty.open_velocity_menu, None);
}

#[test]
fn a_velocity_operation_sets_the_selected_notes() {
    let c = clip(vec![note(1, 60, 1.0, 40), note(2, 62, 2.0, 60), note(3, 64, 3.0, 80)]);
    let mut r = roll();
    r.open_velocity_menu = Some((0, 0));
    assert!(r.apply_velocity_operation(VelocityOperation::Add, Some(&c)).is_none());
    assert_eq!(r.open_velocity_menu, Some((0, 0)));
    r.selection = IdSet::from_ids(&vec![1, 3]);
    match r.apply_velocity_operation(VelocityOperation::Reverse, Some(&c)) {
        Some(RollEdit::SetVelocities { targets, .. }) => assert_eq!(targets, vec![(1, 80), (3, 40)]),
        _ => panic!("no edit"),
    }
    assert_eq!(r.open_velocity_menu, None);
}

#[test]
fn a_right_press_in_the_controller_lane_deletes_or_opens_the_menu() {
    let mut c = clip(vec![]);
    c.points = vec![MidiControllerPoint { id: 5, beat: beats(1.0), value: 500_000_000 }];
    let mut r = roll_on(ControllerLaneKind::Controller(MidiControllerKind::CC(1)));
    assert!(r.cc_lane_right_down(lane(400.0, 10.0, MouseButton::Right), Some(&c), 100).is_none());
    assert_eq!(r.open_cc_curve_menu, Some((px(400.0), px(10.0))));
    match r.cc_lane_right_down(lane(80.0, 70.0, MouseButton::Right), Some(&c), 100) {
        Some(RollEdit::ReplacePoints { prev, next, .. }) => {
            assert_eq!(prev.len(), 1);
            assert!(next.is_empty());
        }
        _ => panic!("no edit"),
    }
}

#[test]
fn hovering_a_note_describes_it() {
    let mut r = roll();
    let mut n = note(1, 127, 1.0, 90);
    n.muted = true;
    let blocks = r.build_note_elements(&vec![n]);
    assert_eq!(blocks[0].hover_status(), "G9 · start 1.00 · len 1.00 · vel 90 · muted");
    r.note_right_down(1, px(85.0), px(5.0), true);
    assert!(r.selection.contains(1));
    assert_eq!(r.open_note_menu, Some((px(85.0), px(5.0))));
    let mut other = roll();
    other.note_right_down(1, px(85.0), px(5.0), false);
    assert_eq!(other.open_note_menu, None);
}

#[test]
fn the_status_line_counts_the_notes() {
    let mut r = roll();
    r.grid_res = GridRes::Eighth;
    assert_eq!(r.grid_label(), "1/8");
    assert!(r.toolbar_status(12, 3).starts_with("12 notes · 3 sel · "));
    assert_eq!(select_menu_width(PianoSelectMenu::Grid), px(160.0));
    assert_eq!(select_menu_width(PianoSelectMenu::Lane), px(148.0));
    r.hover_quantize(true);
    assert!(r.quantize_preview);
}

#[test]
fn switching_the_output_per_note_asks_for_the_opposite() {
    let mut r = roll();
    assert!(r.toggle_track_output_per_note(None, None).edit.is_none());
    match r.toggle_track_output_per_note(Some(("t".to_string(), true)), None).edit {
        Some(RollEdit::SetOutputPerNote { track_id, per_note }) => assert_eq!((track_id.as_str(), per_note), ("t", false)),
        _ => panic!("no edit"),
    }
}

#[test]
fn losing_the_keyboard_silences_the_preview() {
    let c = clip(vec![]);
    let target = || Some(PreviewTarget { track_id: "t".to_string(), channel: 2 });
    let mut r = roll();
    r.set_midi_preview_handler(true);
    let down = Pointer { x: px(85.0), y: px(20.0), modifiers: NO_KEYS, button: Some(MouseButton::Left) };
    r.on_grid_down(down, Some(&c), MidiChannel { raw: 0 }, target());
    assert!(matches!(r.drag, PianoDrag::DrawNote(_)));
    let o = r.focus_lost(Some(&c), target());
    assert!(matches!(o.preview.as_slice(), [UiMidiPreviewCommand::AllNotesOff { .. }]));
    assert!(r.drag.is_idle());
    let again = r.focus_lost(Some(&c), target());
    assert!(again.preview.is_empty() && again.edit.is_none());
}

#[test]
fn keys_and_wheel_can_be_handed_on() {
    let c = clip(vec![note(1, 60, 0.0, 100)]);
    let available = vec![];
    let input = CommandInput { clip: Some(&c), playhead: 0, clipboard: None, available: &available, next_id: 10 };
    let mut r = roll();
    let (used, _, _) = r.handle_key_event("a", true, false, &input, None);
    assert!(used && r.selection.contains(1));
    let turn = WheelTurn {
        dx: 0,
        dy: px(wheel_lines_to_pixels(-2) as f64),
        modifiers: NO_KEYS,
        x: 0,
        y: 0,
        natural: false,
        factor: 1_000_000_000,
    };
    r.forward_wheel(turn);
    assert_eq!(r.scroll_y, px(72.0));
}

#[test]
fn the_lane_selector_steps_with_alt_and_the_wheel() {
    let mut r = roll();
    assert!(!r.lane_selector_wheel(false, px(-10.0)));
    assert!(!r.lane_selector_wheel(true, 0));
    let before = r.current_lane();
    assert!(r.lane_selector_wheel(true, px(-10.0)));
    assert_ne!(r.current_lane(), before);
    assert!(r.lane_selector_wheel(true, px(10.0)));
    assert_eq!(r.current_lane(), before);
    let selector = r.render_lane_selector(&vec![], false, false);
    assert_eq!(selector.fold_label(), "▾");
}

#[test]
fn the_vertical_zoom_keeps_the_pitch_under_the_pointer() {
    let mut r = roll();
    r.row_h = px(10.0);
    r.zoom_viewport_vertically(2_000_000_000, px(400.0), px(100.0));
    assert_eq!((r.row_h, r.scroll_y), (px(20.0), px(100.0)));
    r.fit_viewport_vertically(px(496.0), 60_000_000, 80_000_000);
    assert_eq!((r.row_h, r.scroll_y), (px(20.0), px(902.0)));
    r.scroll_y = 0;
    assert_eq!(r.viewport(px(56.0)).visible_pitches(px(100.0)), (121, 127));
    let before = r.row_h;
    r.fit_viewport_vertically(px(1.0), 0, 1_000_000);
    assert_eq!(r.row_h, before);
}

#[test]
fn a_pitch_comes_back_from_where_it_is_drawn() {
    let mut r = roll();
    r.row_h = px(7.3);
    r.scroll_y = px(123.4);
    let v = r.viewport(px(56.0));
    for pitch in [0, 59_999_999, 60_500_000, 127_000_000] {
        assert_eq!(v.y_to_pitch_continuous(v.pitch_center_y(pitch)), pitch);
    }
}

#[test]
fn resized_notes_keep_their_differences() {
    let prev = vec![(1, beats(1.0)), (2, beats(2.0)), (3, beats(0.25))];
    let next = resize_targets(&prev, beats(-0.5));
    assert_eq!(next[0], (1, beats(0.5)));
    assert_eq!(next[1], (2, beats(1.5)));
    assert!(next[2].1 > 0 && next[2].1 < beats(0.25));
}

#[test]
fn clips_out_of_range_are_told_apart() {
    assert!(clip(vec![note(1, 60, 1.0, 100)]).is_valid());
    assert!(!clip(vec![note(1, 128, 1.0, 100)]).is_valid());
    assert!(!clip(vec![note(1, 60, -1.0, 100)]).is_valid());
    let mut c = clip(vec![]);
    c.points = vec![MidiControllerPoint { id: 1, beat: 0, value: 1_000_000_001 }];
    assert!(!c.is_valid());
    c.points = vec![];
    c.articulations = vec![event(1, -1.0)];
    assert!(!c.is_valid());
    c.articulations = vec![event(1, 0.0)];
    assert!(c.is_valid());
    c.start = -1;
    assert!(!c.is_valid());
}
