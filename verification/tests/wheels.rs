use sphere_ui_components::grid_render::{hairline, render_lane_grid, render_note_grid, snap, NoteGridSnapshot};
use sphere_ui_components::pitch::{fifths_pitch_class, fifths_position, is_black, note_name};
use sphere_ui_components::wheel::{
    arc_steps, wheel_picture, SegmentTone, WheelFrame, WheelTooLarge, GLOBALS_LEN, TURN,
};

const ONE: i64 = 1_000_000_000;

fn px(p: f64) -> i64 {
    (p * 1_000_000.0).round() as i64
}

#[test]
fn circle_of_fifths_order_round_trips() {
    let order: Vec<usize> = (0..12).map(fifths_pitch_class).collect();
    assert_eq!(order, vec![0, 7, 2, 9, 4, 11, 6, 1, 8, 3, 10, 5]);
    for pc in 0..12 {
        assert_eq!(fifths_pitch_class(fifths_position(pc)), pc);
    }
}

fn frame() -> WheelFrame {
    WheelFrame {
        size: px(280.0),
        scale: 2_000_000,
        energy: [ONE / 2; 12],
        in_key: [false; 12],
        tonic: Some(9),
        sweep: None,
        beat_phase: Some(ONE / 4),
        bar_phase: ONE / 10,
    }
}

#[test]
fn content_hash_changes_with_motion_only_when_it_moves() {
    let still = frame();
    let same = frame();
    assert_eq!(still.content_hash(), same.content_hash());
    let mut moved = frame();
    moved.beat_phase = Some(3 * ONE / 10);
    assert_ne!(still.content_hash(), moved.content_hash());
}

#[test]
fn snapping_lands_on_device_pixels() {
    assert_eq!(snap(px(10.3), 1_000_000), px(10.0));
    assert_eq!(snap(px(10.3), 2_000_000), px(10.5));
    assert_eq!(snap(px(10.2), 2_000_000), px(10.0));
    assert_eq!(hairline(1_000_000), px(1.0));
    assert_eq!(hairline(2_000_000), px(1.0));
    assert!((hairline(1_500_000) as f64 / 1_000_000.0 * 1.5 - 2.0).abs() < 1e-6);
}

#[test]
fn grid_fills_lie_on_device_pixels() {
    let snapshot = NoteGridSnapshot {
        scale: 2_000_000,
        rows: vec![(px(10.3), px(20.0), 1)],
        row_lines: vec![(px(5.1), 2)],
        columns: vec![(px(7.4), 3)],
    };
    let fills = render_note_grid(&snapshot);
    assert_eq!(fills.rows[0].at, px(10.5));
    assert_eq!(fills.row_lines[0].at, px(4.0));
    assert_eq!(fills.row_lines[0].length, px(1.0));
    assert_eq!(fills.columns[0].at, px(7.5));
    assert_eq!(fills.columns[0].colour, 3);
    let lane = render_lane_grid(2_000_000, &vec![(px(7.4), 3)]);
    assert_eq!(lane[0].at, fills.columns[0].at);
}

#[test]
fn segments_follow_the_circle_of_fifths() {
    let segments = frame().segments();
    assert_eq!(segments.len(), 12);
    assert_eq!(segments[1].class, 7);
    assert_eq!(segments[3].tone, SegmentTone::Tonic);
    assert_eq!(segments[0].tone, SegmentTone::OutOfKey);
    assert_eq!(segments[0].inner, px(84.0));
    assert_eq!(segments[0].track, px(137.2));
    assert_eq!(segments[0].outer, Some(px(110.6)));
    assert!(segments.iter().all(|s| s.start < s.end));
}

#[test]
fn a_quiet_segment_is_empty() {
    let mut f = frame();
    f.energy[0] = 1_000_000;
    f.in_key[0] = true;
    let s = f.segments()[0];
    assert_eq!(s.outer, None);
    assert_eq!(s.tone, SegmentTone::InKey);
}

#[test]
fn the_ripple_grows_and_fades() {
    let mut f = frame();
    f.beat_phase = Some(0);
    let start = f.pulse().expect("a pulse");
    assert_eq!(start.ripple_radius, px(22.4));
    assert_eq!(start.ripple_opacity, 600_000_000);
    f.beat_phase = Some(ONE);
    let end = f.pulse().expect("a pulse");
    assert_eq!(end.ripple_radius, px(68.6));
    assert_eq!(end.ripple_opacity, 0);
    f.bar_phase = ONE / 2;
    assert_eq!(f.pulse().map(|p| (p.bar_angle, p.beat)), Some(((TURN + 1) / 2, 2)));
    f.beat_phase = None;
    assert!(f.pulse().is_none());
}

#[test]
fn the_sweep_is_one_segment_wide() {
    let mut f = frame();
    assert_eq!(f.sweep_arc(), None);
    f.sweep = Some(TURN / 4);
    assert_eq!(f.sweep_arc(), Some((TURN / 4 - TURN / 12, TURN / 4)));
}

#[test]
fn a_huge_wheel_is_not_for_the_gpu() {
    let mut f = frame();
    assert_eq!(f.gpu_edge(), Ok(560));
    f.size = px(2000.0);
    assert_eq!(f.gpu_edge(), Err(WheelTooLarge));
    assert_eq!(WheelTooLarge.message(), "wheel too large for the GPU pass");
    f.size = 0;
    assert_eq!(f.gpu_edge(), Ok(1));
}

#[test]
fn the_shader_reads_the_frame() {
    let mut f = frame();
    f.in_key[2] = true;
    let g = f.globals(560, &[1, 2, 3, 4], &[5, 6, 7, 8]);
    assert_eq!(g.len(), GLOBALS_LEN);
    assert_eq!(g[..8], [560 * ONE, 560 * ONE, 2 * ONE, 9 * ONE, -ONE, ONE / 4, ONE / 10, 0]);
    assert_eq!(g[8..16], [1, 2, 3, 4, 5, 6, 7, 8]);
    assert_eq!(g[19], 3 * ONE);
    assert_eq!(g[20], 600_000_000);
    assert_eq!(g[32], ONE / 2);
    assert_eq!(g[44..48], [0, 0, ONE, 0]);
}

#[test]
fn a_wheel_picture_has_a_square_of_pixels() {
    let mapped = vec![9u8; 256 * 2];
    assert_eq!(wheel_picture(&mapped, 2).expect("a picture"), vec![9u8; 16]);
}

#[test]
fn an_arc_has_two_pieces_at_least() {
    assert_eq!(arc_steps(0, 0, 96), 0);
    assert_eq!(arc_steps(10, 0, 96), 0);
    assert_eq!(arc_steps(0, 1, 96), 2);
    assert_eq!(arc_steps(0, TURN, 96), 96);
}

#[test]
fn pitches_have_names() {
    assert_eq!(note_name(60), "C4");
    assert_eq!(note_name(61), "C#4");
    assert_eq!(note_name(0), "C-1");
    assert_eq!(note_name(127), "G9");
    assert!(is_black(61) && !is_black(60) && is_black(70));
}
