use sphere_ui_components::fixed::{MIN_NOTE_TICKS, TICKS_PER_BEAT};
use sphere_ui_components::grid::{
    adaptive_step_beats, grid_step_beats, is_multiple, snap_beat_to_step, viewport_snap_step, GridLineKind, GridRes,
};
use sphere_ui_components::viewport::{
    beat_to_local_x, local_x_to_beat, local_y_to_pitch, local_y_to_pitch_units, ClipAxis, PianoRollViewport,
    DEFAULT_ROW_H, PITCH_COUNT,
};

const MAX_PITCH: u8 = (PITCH_COUNT - 1) as u8;

fn beats(b: f64) -> i64 {
    (b * TICKS_PER_BEAT as f64).round() as i64
}

fn px(p: f64) -> i64 {
    (p * 1_000_000.0).round() as i64
}

#[test]
fn top_row_is_highest_pitch() {
    assert_eq!(local_y_to_pitch(0, 0, DEFAULT_ROW_H), MAX_PITCH);
}

#[test]
fn moving_down_one_row_lowers_pitch_by_one() {
    assert_eq!(local_y_to_pitch(DEFAULT_ROW_H, 0, DEFAULT_ROW_H), MAX_PITCH - 1);
    assert_eq!(local_y_to_pitch(DEFAULT_ROW_H * 2, 0, DEFAULT_ROW_H), MAX_PITCH - 2);
}

#[test]
fn scroll_offsets_mapping_by_whole_rows() {
    let scroll = DEFAULT_ROW_H * 3;
    assert_eq!(local_y_to_pitch(0, scroll, DEFAULT_ROW_H), MAX_PITCH - 3);
    assert_eq!(local_y_to_pitch(DEFAULT_ROW_H, scroll, DEFAULT_ROW_H), MAX_PITCH - 4);
}

#[test]
fn round_trips_with_key_layout() {
    let scroll = DEFAULT_ROW_H * 5 / 2;
    for pitch in [0u8, 24, 60, 100, MAX_PITCH] {
        let row_top = (PITCH_COUNT as i64 - 1 - pitch as i64) * DEFAULT_ROW_H - scroll;
        let row_mid = row_top + DEFAULT_ROW_H / 2;
        assert_eq!(local_y_to_pitch(row_mid, scroll, DEFAULT_ROW_H), pitch, "pitch {pitch}");
    }
}

#[test]
fn clamps_beyond_the_range() {
    assert_eq!(local_y_to_pitch(px(1.0e6), 0, DEFAULT_ROW_H), 0);
    assert_eq!(local_y_to_pitch(px(-1.0e6), 0, DEFAULT_ROW_H), MAX_PITCH);
}

#[test]
fn beat_pixel_roundtrip_respects_scroll_and_zoom() {
    let ppb = px(96.0);
    let scroll = px(173.5);
    for beat in [0.0, 0.25, 1.0, 7.5, 64.0] {
        let x = beat_to_local_x(beats(beat), ppb, scroll);
        let roundtrip = local_x_to_beat(x, ppb, scroll) as f64 / TICKS_PER_BEAT as f64;
        assert!((roundtrip - beat).abs() < 1.0e-5, "beat={beat}");
    }
}

#[test]
fn snap_boundaries_round_to_nearest_grid_line() {
    assert_eq!(snap_beat_to_step(beats(0.1249), beats(0.25)), beats(0.0));
    assert_eq!(snap_beat_to_step(beats(0.1251), beats(0.25)), beats(0.25));
    assert_eq!(snap_beat_to_step(beats(1.3749), beats(0.25)), beats(1.25));
    assert_eq!(snap_beat_to_step(beats(1.3751), beats(0.25)), beats(1.5));
}

#[test]
fn viewport_publishes_the_step_the_notes_snap_to() {
    for ppb in [4.0f64, 12.0, 24.0, 48.0, 96.0, 200.0, 400.0] {
        for grid in GridRes::all() {
            let note_step = grid_step_beats(grid, px(ppb));
            let lane_step = viewport_snap_step(true, grid, px(ppb));
            if grid.is_free() {
                assert_eq!(lane_step, 0, "{grid:?} @ {ppb}");
            } else {
                assert_eq!(lane_step, note_step.max(MIN_NOTE_TICKS), "{grid:?} @ {ppb}");
            }
        }
    }
}

#[test]
fn adaptive_lane_step_follows_zoom_not_the_fixed_table() {
    assert_eq!(viewport_snap_step(true, GridRes::Adaptive, px(20.0)), beats(1.0));
    assert_eq!(viewport_snap_step(true, GridRes::Adaptive, px(4.0)), beats(4.0));
    assert_eq!(viewport_snap_step(true, GridRes::Adaptive, px(300.0)), beats(0.0625));
}

#[test]
fn snapping_off_publishes_no_step() {
    for grid in GridRes::all() {
        assert_eq!(viewport_snap_step(false, grid, px(96.0)), 0, "{grid:?}");
    }
    assert_eq!(viewport_snap_step(true, GridRes::Free, px(96.0)), 0);
}

#[test]
fn a_zero_step_is_a_pass_through() {
    assert_eq!(snap_beat_to_step(beats(1.234), 0), beats(1.234));
}

#[test]
fn a_beat_before_the_start_snaps_to_the_start() {
    assert_eq!(snap_beat_to_step(beats(-3.0), beats(0.25)), 0);
    assert_eq!(snap_beat_to_step(beats(-3.0), 0), 0);
}

#[test]
fn snapping_twice_changes_nothing() {
    for b in [0.0, 0.3, 1.37, 99.9] {
        for grid in GridRes::all() {
            let step = grid_step_beats(grid, px(96.0));
            let once = snap_beat_to_step(beats(b), step);
            assert_eq!(snap_beat_to_step(once, step), once);
        }
    }
}

#[test]
fn grid_resolutions_have_labels_and_steps() {
    let labels: Vec<&str> = GridRes::all().into_iter().map(|g| g.label()).collect();
    assert_eq!(
        labels,
        vec![
            "Free", "Adaptive", "1 Bar", "1/1", "1/2", "1/4", "1/8", "1/16", "1/32", "1/64", "1/4T", "1/8T", "1/16T"
        ]
    );
    assert_eq!(GridRes::Bar.fixed_beats(), beats(4.0));
    assert_eq!(GridRes::Sixteenth.fixed_beats(), beats(0.25));
    assert_eq!(GridRes::EighthTriplet.fixed_beats(), 320_000);
    assert_eq!(GridRes::SixteenthTriplet.fixed_beats(), 160_000);
    assert_eq!(GridRes::SixteenthTriplet.cycle(), GridRes::Free);
    assert_eq!(GridRes::Free.cycle(), GridRes::Adaptive);
    assert_eq!(GridLineKind::Bar.alpha(), 26);
    assert_eq!(GridLineKind::Beat.alpha(), 13);
    assert_eq!(GridLineKind::Subdivision.alpha(), 6);
}

#[test]
fn the_adaptive_grid_refines_as_the_view_zooms_in() {
    let steps: Vec<i64> =
        [7.9, 8.0, 16.0, 32.0, 64.0, 128.0, 256.0].into_iter().map(|p| adaptive_step_beats(px(p))).collect();
    assert_eq!(
        steps,
        vec![beats(4.0), beats(2.0), beats(1.0), beats(0.5), beats(0.25), beats(0.125), beats(0.0625)]
    );
}

#[test]
fn multiples_are_told_with_a_small_tolerance() {
    assert!(is_multiple(beats(8.0), beats(4.0)));
    assert!(is_multiple(beats(8.0) + 959, beats(4.0)));
    assert!(!is_multiple(beats(8.0) + 960, beats(4.0)));
    assert!(!is_multiple(beats(9.0), beats(4.0)));
    assert!(!is_multiple(0, 0));
}

#[test]
fn a_clip_axis_starts_at_its_clip() {
    let axis = ClipAxis { ppb: px(100.0), scroll_x: px(50.0), origin: beats(16.0) };
    assert_eq!(axis.clip_beat_to_x(0), px(1550.0));
    assert_eq!(axis.x_to_clip_beat(px(1550.0)), 0);
    assert_eq!(axis.x_to_clip_beat(px(1650.0)), beats(1.0));
    assert_eq!(axis.x_to_clip_beat(px(-50.0)), beats(-16.0));
}

#[test]
fn pitch_can_be_read_between_rows() {
    assert_eq!(local_y_to_pitch_units(DEFAULT_ROW_H / 2, 0, DEFAULT_ROW_H), 127_000_000);
    assert_eq!(local_y_to_pitch_units(DEFAULT_ROW_H, 0, DEFAULT_ROW_H), 126_500_000);
}

fn view() -> PianoRollViewport {
    PianoRollViewport {
        ppb: px(96.0),
        scroll_x: 0,
        row_h: DEFAULT_ROW_H,
        scroll_y: 0,
        key_lane_width: px(56.0),
        snap_step_beats: beats(0.25),
        sub_step_beats: beats(0.25),
        grid_width: px(800.0),
        grid_height: px(420.0),
    }
}

#[test]
fn the_ruler_names_beats_where_there_is_room() {
    let marks = view().ruler_marks(0, beats(4.0), beats(4.0));
    let labels: Vec<&str> = marks.iter().map(|m| m.label.as_str()).collect();
    assert_eq!(labels[..5], ["1.1", "1.2", "1.3", "1.4", "2.1"]);
    assert_eq!(marks[1].x, px(96.0));
    assert!(marks[0].on_bar && !marks[1].on_bar && marks[4].on_bar);
}

#[test]
fn the_ruler_names_bars_where_there_is_little_room() {
    let mut v = view();
    v.ppb = px(8.0);
    let marks = v.ruler_marks(0, beats(32.0), beats(4.0));
    assert_eq!(marks[0].label, "1");
    assert_eq!(marks[1].label, "3");
    assert_eq!(marks[1].beat, beats(8.0));
}

#[test]
fn grid_lines_tell_bars_from_beats_from_subdivisions() {
    let lines = view().grid_lines(0, beats(4.0), beats(4.0));
    assert_eq!(lines[0], (0, GridLineKind::Bar));
    assert_eq!(lines[1], (px(24.0), GridLineKind::Subdivision));
    assert_eq!(lines[4], (px(96.0), GridLineKind::Beat));
    assert_eq!(lines[16], (px(384.0), GridLineKind::Bar));
}

fn lines_to(v: &PianoRollViewport, end: f64, bar: f64) -> Vec<(i64, GridLineKind)> {
    let reach = v.beat_to_x(beats(end));
    v.grid_lines(0, beats(end), beats(bar)).into_iter().filter(|l| l.0 <= reach).collect()
}

#[test]
fn a_grid_coarser_than_a_beat_keeps_beats_and_bars() {
    let mut v = view();
    v.ppb = px(80.0);
    v.snap_step_beats = beats(4.0);
    v.sub_step_beats = beats(4.0);
    assert_eq!(
        lines_to(&v, 4.0, 4.0),
        vec![
            (0, GridLineKind::Bar),
            (px(80.0), GridLineKind::Beat),
            (px(160.0), GridLineKind::Beat),
            (px(240.0), GridLineKind::Beat),
            (px(320.0), GridLineKind::Bar),
        ]
    );
    assert_eq!(
        lines_to(&v, 6.0, 3.0),
        vec![
            (0, GridLineKind::Bar),
            (px(80.0), GridLineKind::Beat),
            (px(160.0), GridLineKind::Beat),
            (px(240.0), GridLineKind::Bar),
            (px(320.0), GridLineKind::Beat),
            (px(400.0), GridLineKind::Beat),
            (px(480.0), GridLineKind::Bar),
        ]
    );
}

#[test]
fn triplets_stand_between_the_beats() {
    let mut v = view();
    v.sub_step_beats = 640_000;
    assert_eq!(
        lines_to(&v, 2.0, 4.0),
        vec![
            (0, GridLineKind::Bar),
            (px(64.0), GridLineKind::Subdivision),
            (px(96.0), GridLineKind::Beat),
            (px(128.0), GridLineKind::Subdivision),
            (px(192.0), GridLineKind::Beat),
        ]
    );
}

#[test]
fn bars_that_end_between_beats_have_their_line() {
    let mut v = view();
    v.ppb = px(20.0);
    assert_eq!(
        lines_to(&v, 4.0, 3.5),
        vec![
            (0, GridLineKind::Bar),
            (px(20.0), GridLineKind::Beat),
            (px(40.0), GridLineKind::Beat),
            (px(60.0), GridLineKind::Beat),
            (px(70.0), GridLineKind::Bar),
            (px(80.0), GridLineKind::Beat),
        ]
    );
}

#[test]
fn bars_passed_over_leave_no_line() {
    let mut v = view();
    v.ppb = px(12.0);
    assert_eq!(
        lines_to(&v, 4.0, 1.0),
        vec![(0, GridLineKind::Bar), (px(24.0), GridLineKind::Bar), (px(48.0), GridLineKind::Bar)]
    );
    v.ppb = px(1.0);
    assert_eq!(lines_to(&v, 40.0, 4.0), vec![(0, GridLineKind::Bar), (px(32.0), GridLineKind::Bar)]);
}

#[test]
fn grid_lines_start_at_the_view_and_go_right() {
    let v = view();
    let lines = v.grid_lines(beats(2.6), beats(5.0), beats(4.0));
    assert_eq!(lines[0], (px(240.0), GridLineKind::Subdivision));
    assert!(lines.windows(2).all(|w| w[0].0 < w[1].0));
    assert!(lines[lines.len() - 1].0 >= px(480.0));
    assert!(v.grid_lines(beats(2.6), beats(9.0), beats(4.0)).starts_with(&lines));
    assert!(v.grid_lines(beats(-9.0), beats(-8.0), beats(4.0)).is_empty());
}

#[test]
fn rows_and_pitches_agree() {
    let v = view();
    assert_eq!(v.pitch_row_top(127_000_000), 0);
    assert_eq!(v.pitch_center_y(126_000_000), DEFAULT_ROW_H + DEFAULT_ROW_H / 2);
    assert_eq!(v.y_to_pitch_continuous(v.pitch_center_y(60_000_000)), 60_000_000);
    assert_eq!(v.snap(beats(1.13)), beats(1.25));
    assert_eq!(v.visible_beats(px(960.0)), (0, beats(10.0)));
}
