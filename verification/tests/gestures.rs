use sphere_ui_components::drag::PianoDrag;
use sphere_ui_components::hit::{width_of_note, NOTE_MIN_W, NOTE_RESIZE_MIN_W, RESIZE_ZONE};
use sphere_ui_components::id_set::IdSet;
use sphere_ui_components::lanes::{ControllerLaneKind, PianoTool};
use sphere_ui_components::marquee::{apply_marquee_mode, MarqueeSelectionMode, Modifiers};
use sphere_ui_components::midi::{
    ArticulationId, MidiArticulationEvent, MidiChannel, MidiControllerKind, MidiControllerPoint, MidiNote,
};
use sphere_ui_components::motion::{Around, MouseButton, Pointer};
use sphere_ui_components::preview::{PreviewTarget, UiMidiPreviewCommand};
use sphere_ui_components::roll::{Bounds, ClipView, PianoRoll};
use sphere_ui_components::roll_edit::{Outcome, RollEdit};

const GRID_X: f64 = 100.0;
const GRID_Y: f64 = 50.0;
const LANE_Y: f64 = 470.0;

fn beats(b: f64) -> i64 {
    (b * 960_000.0).round() as i64
}

fn px(p: f64) -> i64 {
    (p * 1_000_000.0).round() as i64
}

fn note(id: u64, pitch: u8, start: f64, duration: f64) -> MidiNote {
    MidiNote {
        id,
        pitch,
        start: beats(start),
        duration: beats(duration),
        velocity: 100,
        muted: false,
        channel: MidiChannel { raw: 0 },
        articulation: None,
        pitch_curve: None,
    }
}

fn clip(notes: Vec<MidiNote>) -> ClipView {
    ClipView { id: "c".to_string(), start: 0, duration: beats(16.0), notes, points: vec![], articulations: vec![] }
}

fn bounds(x: f64, y: f64, w: f64, h: f64) -> Option<Bounds> {
    Some(Bounds { x: px(x), y: px(y), width: px(w), height: px(h) })
}

fn roll() -> PianoRoll {
    let mut r = PianoRoll::new();
    r.grid_bounds = bounds(GRID_X, GRID_Y, 800.0, 420.0);
    r.lane_bounds = bounds(GRID_X, LANE_Y, 800.0, 140.0);
    r.ruler_bounds = bounds(GRID_X, 26.0, 800.0, 24.0);
    r.key_bounds = bounds(44.0, GRID_Y, 56.0, 420.0);
    r.preview.connected = true;
    r
}

fn roll_on(kind: ControllerLaneKind) -> PianoRoll {
    let mut r = roll();
    r.set_lane(kind);
    assert!(r.lane_bounds.is_none());
    r.lane_bounds = bounds(GRID_X, LANE_Y, 800.0, 140.0);
    r
}

fn names() -> Vec<String> {
    (0..9).map(|i| format!("Art{i}")).collect()
}

const NO_KEYS: Modifiers = Modifiers { control: false, alt: false, shift: false, platform: false };

fn at(x: f64, y: f64, button: MouseButton) -> Pointer {
    Pointer { x: px(x), y: px(y), modifiers: NO_KEYS, button: Some(button) }
}

fn grid(x: f64, y: f64) -> Pointer {
    at(GRID_X + x, GRID_Y + y, MouseButton::Left)
}

fn lane(x: f64, y: f64) -> Pointer {
    at(GRID_X + x, LANE_Y + y, MouseButton::Left)
}

fn target() -> Option<PreviewTarget> {
    Some(PreviewTarget { track_id: "t".to_string(), channel: 2 })
}

fn drag_to(r: &mut PianoRoll, p: Pointer, c: &ClipView) -> Outcome {
    let names = names();
    let around = Around { clip: Some(c), own_notes: &c.notes, own_points: &c.points, names: &names, next_id: 100 };
    r.on_move(p, &around, target())
}

fn release(r: &mut PianoRoll, c: &ClipView) -> Outcome {
    let names = names();
    let around = Around { clip: Some(c), own_notes: &c.notes, own_points: &c.points, names: &names, next_id: 100 };
    r.on_up(&around, target())
}

#[test]
fn minimum_note_width_is_shared_by_drawing_and_hit_testing() {
    let ppb = 20.0f32;
    let duration = 0.01f32;
    assert!(((duration * ppb) as f64 * 1e6) < NOTE_MIN_W as f64);
    assert_eq!(width_of_note(beats(0.01), px(20.0)), NOTE_MIN_W);

    let mut r = roll();
    r.ppb = px(20.0);
    let short = note(1, 127, 1.0, 0.01);
    let blocks = r.build_note_elements(&vec![short]);
    assert_eq!(blocks[0].width, NOTE_MIN_W);
    assert_eq!(r.note_at_grid(&vec![short], px(24.5), px(5.0)), Some(1));
}

#[test]
fn resize_handle_never_covers_the_whole_note() {
    assert!(NOTE_RESIZE_MIN_W - RESIZE_ZONE >= RESIZE_ZONE);
}

#[test]
fn drawing_makes_a_note_on_the_grid_and_auditions_it() {
    let c = clip(vec![]);
    let mut r = roll();
    let down = r.on_grid_down(grid(85.0, 20.0), Some(&c), MidiChannel { raw: 0 }, target());
    assert!(down.edit.is_none());
    assert!(matches!(
        down.preview.as_slice(),
        [UiMidiPreviewCommand::NoteOn { pitch: 126, velocity: 100, channel: 2, .. }]
    ));
    assert!(drag_to(&mut r, grid(167.0, 20.0), &c).edit.is_none());
    let up = release(&mut r, &c);
    assert!(matches!(up.preview.as_slice(), [UiMidiPreviewCommand::NoteOff { pitch: 126, .. }]));
    match up.edit {
        Some(RollEdit::CreateNotes { clip_id, notes }) => {
            assert_eq!(clip_id, "c");
            assert_eq!(notes.len(), 1);
            let n = notes[0].note;
            assert_eq!((n.id, n.pitch, n.start, n.duration), (100, 126, beats(1.0), beats(1.0)));
        }
        _ => panic!("no note"),
    }
    assert_eq!(r.selected_note_ids(), vec![100]);
    assert!(r.drag.is_idle());
}

#[test]
fn a_click_draws_a_note_of_one_grid_step() {
    let c = clip(vec![]);
    let mut r = roll();
    r.on_grid_down(grid(85.0, 20.0), Some(&c), MidiChannel { raw: 0 }, None);
    match release(&mut r, &c).edit {
        Some(RollEdit::CreateNotes { notes, .. }) => assert_eq!(notes[0].note.duration, beats(0.25)),
        _ => panic!("no note"),
    }
}

#[test]
fn a_dragged_note_lands_on_the_grid() {
    let c = clip(vec![note(1, 126, 1.0, 1.0), note(2, 120, 1.1, 1.0)]);
    let mut r = roll();
    r.tool = PianoTool::Select;
    r.selection = IdSet::from_ids(&vec![1, 2]);
    let down = r.note_mouse_down(1, grid(90.0, 20.0), Some(&c), target(), 100);
    assert!(down.edit.is_none());
    drag_to(&mut r, grid(133.0, 34.0), &c);
    let shown = r.display_note(&c.notes[0]);
    assert_eq!((shown.start, shown.pitch), (beats(1.5), 125));
    match release(&mut r, &c).edit {
        Some(RollEdit::MoveNotes { targets, .. }) => {
            let t: Vec<(u64, i64, u8)> = targets.iter().map(|p| (p.id, p.start, p.pitch)).collect();
            assert_eq!(t, vec![(1, beats(1.5), 125), (2, beats(1.6), 119)]);
        }
        _ => panic!("no move"),
    }
}

#[test]
fn a_drag_that_returns_records_nothing() {
    let c = clip(vec![note(1, 126, 1.0, 1.0)]);
    let mut r = roll();
    r.tool = PianoTool::Select;
    r.note_mouse_down(1, grid(90.0, 20.0), Some(&c), target(), 100);
    drag_to(&mut r, grid(200.0, 60.0), &c);
    drag_to(&mut r, grid(91.0, 21.0), &c);
    assert!(release(&mut r, &c).edit.is_none());
}

#[test]
fn resizing_snaps_the_right_edge() {
    let c = clip(vec![note(1, 126, 1.0, 1.0), note(2, 120, 4.0, 0.5)]);
    let mut r = roll();
    r.selection = IdSet::from_ids(&vec![1, 2]);
    r.begin_resize_drag(1, grid(160.0, 20.0), Some(&c));
    drag_to(&mut r, grid(204.0, 20.0), &c);
    match release(&mut r, &c).edit {
        Some(RollEdit::ResizeNotes { targets, .. }) => {
            assert_eq!(targets, vec![(1, beats(1.5)), (2, beats(1.0))]);
        }
        _ => panic!("no resize"),
    }
}

#[test]
fn a_marquee_selects_what_it_meets() {
    let c = clip(vec![note(1, 126, 1.0, 1.0), note(2, 110, 1.0, 1.0), note(3, 126, 9.0, 1.0)]);
    let mut r = roll();
    r.tool = PianoTool::Select;
    r.selection = IdSet::single(3);
    r.on_grid_down(grid(10.0, 2.0), Some(&c), MidiChannel { raw: 0 }, None);
    drag_to(&mut r, grid(200.0, 60.0), &c);
    assert_eq!(r.selected_note_ids(), vec![1]);
    release(&mut r, &c);
    assert_eq!(r.selected_note_ids(), vec![1]);
}

#[test]
fn a_cancelled_marquee_restores_the_selection() {
    let c = clip(vec![note(1, 126, 1.0, 1.0), note(3, 126, 9.0, 1.0)]);
    let mut r = roll();
    r.tool = PianoTool::Select;
    r.selection = IdSet::single(3);
    r.on_grid_down(grid(10.0, 2.0), Some(&c), MidiChannel { raw: 0 }, None);
    drag_to(&mut r, grid(200.0, 60.0), &c);
    let o = r.cancel_active_gesture(Some(&c), target());
    assert!(o.edit.is_none());
    assert_eq!(r.selected_note_ids(), vec![3]);
    assert!(r.drag.is_idle());
}

#[test]
fn marquee_modes_combine_selections() {
    let before = IdSet::from_ids(&vec![1, 2]);
    let hits = IdSet::from_ids(&vec![2, 3]);
    let ids = |m: MarqueeSelectionMode| apply_marquee_mode(&before, &hits, m).to_list();
    assert_eq!(ids(MarqueeSelectionMode::Replace), vec![2, 3]);
    assert_eq!(ids(MarqueeSelectionMode::Add), vec![1, 2, 3]);
    assert_eq!(ids(MarqueeSelectionMode::Toggle), vec![1, 3]);
    assert_eq!(ids(MarqueeSelectionMode::Subtract), vec![1]);
    assert_eq!(MarqueeSelectionMode::from_modifiers(NO_KEYS), MarqueeSelectionMode::Replace);
    let shift = Modifiers { shift: true, ..NO_KEYS };
    assert_eq!(MarqueeSelectionMode::from_modifiers(shift), MarqueeSelectionMode::Add);
    let alt = Modifiers { alt: true, ..NO_KEYS };
    assert_eq!(MarqueeSelectionMode::from_modifiers(alt), MarqueeSelectionMode::Subtract);
    let control = Modifiers { control: true, ..NO_KEYS };
    assert_eq!(MarqueeSelectionMode::from_modifiers(control), MarqueeSelectionMode::Toggle);
}

fn erased_ids(edit: Option<RollEdit>) -> Vec<u64> {
    match edit {
        Some(RollEdit::DeleteNotes { notes, .. }) => notes.iter().map(|n| n.id).collect(),
        _ => panic!("nothing erased"),
    }
}

#[test]
fn a_right_drag_sweeps_notes_away() {
    let c = clip(vec![note(1, 126, 1.0, 1.0), note(2, 110, 1.0, 1.0)]);
    let mut r = roll();
    r.on_grid_right_down(at(GRID_X + 10.0, GRID_Y + 2.0, MouseButton::Right), Some(&c));
    drag_to(&mut r, at(GRID_X + 200.0, GRID_Y + 60.0, MouseButton::Right), &c);
    assert!(r.erase_preview_ids.contains(1));
    assert_eq!(erased_ids(release(&mut r, &c).edit), vec![1]);
    assert!(r.erase_preview_ids.is_empty());
}

#[test]
fn the_erase_tool_sweeps_with_the_left_button() {
    let c = clip(vec![note(1, 126, 1.0, 1.0), note(2, 110, 1.0, 1.0)]);
    let mut r = roll();
    r.tool = PianoTool::Erase;
    r.on_grid_down(grid(10.0, 2.0), Some(&c), MidiChannel { raw: 0 }, None);
    drag_to(&mut r, grid(200.0, 60.0), &c);
    assert_eq!(erased_ids(release(&mut r, &c).edit), vec![1]);
}

#[test]
fn a_velocity_bar_drags_its_selection_along() {
    let mut c = clip(vec![note(1, 126, 1.0, 1.0), note(2, 110, 2.0, 1.0)]);
    c.notes[1].velocity = 60;
    let mut r = roll();
    r.selection = IdSet::from_ids(&vec![1, 2]);
    r.begin_velocity_drag(1, 100, lane(81.0, 60.0), 1, Some(&c));
    match drag_to(&mut r, lane(81.0, 40.0), &c).edit {
        Some(RollEdit::LiveVelocities { targets, .. }) => assert_eq!(targets, vec![(1, 119), (2, 79)]),
        _ => panic!("no velocities"),
    }
    c.notes[0].velocity = 119;
    c.notes[1].velocity = 79;
    match release(&mut r, &c).edit {
        Some(RollEdit::RecordNotes { prev, next, .. }) => {
            assert_eq!(prev.iter().map(|n| n.velocity).collect::<Vec<u8>>(), vec![100, 60]);
            assert_eq!(next.iter().map(|n| n.velocity).collect::<Vec<u8>>(), vec![119, 79]);
        }
        _ => panic!("nothing recorded"),
    }
}

#[test]
fn a_cancelled_velocity_drag_puts_the_velocities_back() {
    let mut c = clip(vec![note(1, 126, 1.0, 1.0)]);
    let mut r = roll();
    r.begin_velocity_drag(1, 100, lane(81.0, 60.0), 1, Some(&c));
    drag_to(&mut r, lane(81.0, 40.0), &c);
    c.notes[0].velocity = 119;
    match r.cancel_active_gesture(Some(&c), target()).edit {
        Some(RollEdit::RestoreVelocities { snapshot, .. }) => assert_eq!(snapshot, vec![(1, 100)]),
        _ => panic!("nothing restored"),
    }
}

#[test]
fn a_double_click_resets_a_velocity() {
    let mut c = clip(vec![note(1, 126, 1.0, 1.0)]);
    c.notes[0].velocity = 33;
    let mut r = roll();
    match r.begin_velocity_drag(1, 33, lane(81.0, 60.0), 2, Some(&c)) {
        Some(RollEdit::SetVelocities { targets, .. }) => assert_eq!(targets, vec![(1, 100)]),
        _ => panic!("no reset"),
    }
}

#[test]
fn a_stroke_in_a_controller_lane_becomes_one_edit() {
    let mut c = clip(vec![]);
    let mut r = roll_on(ControllerLaneKind::Controller(MidiControllerKind::CC(1)));
    let first = r.cc_lane_down(lane(80.0, 70.0), Some(&c), 100);
    match &first {
        Some(RollEdit::LivePoints { points, kind, .. }) => {
            assert_eq!(*kind, MidiControllerKind::CC(1));
            assert_eq!(points.len(), 1);
            assert_eq!((points[0].beat, points[0].value), (beats(1.0), 500_000_000));
        }
        _ => panic!("no point"),
    }
    match drag_to(&mut r, lane(120.0, 35.0), &c).edit {
        Some(RollEdit::LivePoints { points, .. }) => {
            assert_eq!(points.iter().map(|p| p.beat).collect::<Vec<i64>>(), vec![beats(1.0), beats(1.25), beats(1.5)]);
            c.points = points;
        }
        _ => panic!("no points"),
    }
    match release(&mut r, &c).edit {
        Some(RollEdit::RecordPoints { prev, next, .. }) => {
            assert!(prev.is_empty());
            assert_eq!(next.len(), 3);
        }
        _ => panic!("nothing recorded"),
    }
}

#[test]
fn grabbing_a_controller_point_moves_it() {
    let mut c = clip(vec![]);
    c.points = vec![MidiControllerPoint { id: 7, beat: beats(1.0), value: 500_000_000 }];
    let mut r = roll_on(ControllerLaneKind::Controller(MidiControllerKind::CC(1)));
    assert!(r.cc_lane_down(lane(80.0, 70.0), Some(&c), 100).is_none());
    assert!(matches!(r.drag, PianoDrag::CcMove(_)));
    match drag_to(&mut r, lane(160.0, 35.0), &c).edit {
        Some(RollEdit::LiveMovePoints { targets, .. }) => {
            assert_eq!(targets, vec![(7, beats(2.0), 750_000_000)]);
        }
        _ => panic!("no move"),
    }
}

#[test]
fn controller_points_off_the_grid_keep_their_distance() {
    let mut c = clip(vec![]);
    c.points = vec![
        MidiControllerPoint { id: 7, beat: beats(1.0), value: 500_000_000 },
        MidiControllerPoint { id: 8, beat: beats(1.1), value: 400_000_000 },
    ];
    let mut r = roll_on(ControllerLaneKind::Controller(MidiControllerKind::CC(1)));
    r.cc_selection = IdSet::from_ids(&vec![7, 8]);
    assert!(r.cc_lane_down(lane(80.0, 70.0), Some(&c), 100).is_none());
    match drag_to(&mut r, lane(161.0, 70.0), &c).edit {
        Some(RollEdit::LiveMovePoints { targets, .. }) => {
            assert_eq!(targets, vec![(7, beats(2.0), 500_000_000), (8, beats(2.1), 400_000_000)]);
        }
        _ => panic!("no move"),
    }
}

#[test]
fn a_held_key_follows_the_pointer() {
    let c = clip(vec![]);
    let mut r = roll();
    let down = r.key_down(126, target());
    assert_eq!(down.preview.len(), 1);
    let same = drag_to(&mut r, at(60.0, GRID_Y + 20.0, MouseButton::Left), &c);
    assert!(same.preview.is_empty());
    let next = drag_to(&mut r, at(60.0, GRID_Y + 34.0, MouseButton::Left), &c);
    assert!(matches!(
        next.preview.as_slice(),
        [UiMidiPreviewCommand::NoteOff { pitch: 126, .. }, UiMidiPreviewCommand::NoteOn { pitch: 125, .. }]
    ));
    let outside = drag_to(&mut r, at(300.0, 300.0, MouseButton::Left), &c);
    assert!(matches!(outside.preview.as_slice(), [UiMidiPreviewCommand::NoteOff { pitch: 125, .. }]));
    release(&mut r, &c);
    assert!(!r.preview.key_drag && r.preview.key_pressed.is_none());
}

#[test]
fn the_ruler_seeks_within_the_clip() {
    let c = clip(vec![]);
    let mut r = roll();
    match r.ruler_down(at(GRID_X + 160.0, 30.0, MouseButton::Left), Some(&c)) {
        Some(RollEdit::Seek { beat }) => assert_eq!(beat, beats(2.0)),
        _ => panic!("no seek"),
    }
    match drag_to(&mut r, at(GRID_X + 5000.0, 30.0, MouseButton::Left), &c).edit {
        Some(RollEdit::Seek { beat }) => assert_eq!(beat, beats(16.0)),
        _ => panic!("no seek"),
    }
    release(&mut r, &c);
    assert!(r.drag.is_idle());
}

#[test]
fn an_articulation_marker_moves_and_is_recorded() {
    let mut c = clip(vec![]);
    c.articulations = vec![MidiArticulationEvent { id: 5, beat: beats(1.0), articulation: ArticulationId::Staccato }];
    let mut r = roll_on(ControllerLaneKind::Articulations);
    let (retarget, edit) = r.articulation_lane_down(lane(80.0, 60.0), Some(&c));
    assert!(retarget.is_none() && edit.is_none());
    match drag_to(&mut r, lane(160.0, 60.0), &c).edit {
        Some(RollEdit::LiveMoveEvent { id, beat, .. }) => assert_eq!((id, beat), (5, beats(2.0))),
        _ => panic!("no move"),
    }
    c.articulations[0].beat = beats(2.0);
    match release(&mut r, &c).edit {
        Some(RollEdit::SetEvents { prev, next, .. }) => {
            assert_eq!(prev[0].beat, beats(1.0));
            assert_eq!(next[0].beat, beats(2.0));
        }
        _ => panic!("nothing recorded"),
    }
}

#[test]
fn the_middle_button_pans() {
    let c = clip(vec![]);
    let mut r = roll();
    r.scroll_x = px(100.0);
    r.scroll_y = px(100.0);
    r.begin_pan(at(300.0, 300.0, MouseButton::Middle), Some(&c), None);
    drag_to(&mut r, at(290.0, 280.0, MouseButton::Middle), &c);
    assert_eq!(r.scroll_y, px(120.0));
    drag_to(&mut r, at(290.0, 280.0, MouseButton::Left), &c);
    assert!(r.drag.is_idle());
}

#[test]
fn pruning_forgets_notes_that_are_gone() {
    let c = clip(vec![note(1, 126, 1.0, 1.0)]);
    let mut r = roll();
    r.selection = IdSet::from_ids(&vec![1, 9]);
    r.prune_transient_state(Some(&c));
    assert_eq!(r.selected_note_ids(), vec![1]);
}
