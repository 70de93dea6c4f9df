use sphere_ui_components::cc_curve::{
    apply_cc_curve, cc_curve_samples, cc_curve_span, cc_handles, humanize_edits, CcCurveKind, CcHandle, CurveSpan,
};
use sphere_ui_components::cc_paint::{
    cc_line_points, cc_move_targets, controller_y_for_value, ramp_between, value_from_local_y, CcStroke, LaneView,
};
use sphere_ui_components::cc_points::{
    compact_cc_points, drop_points, duplicate_points, replace_cc_paint_segment, same_points, select_points,
    CC_POINT_MERGE_EPS,
};
use sphere_ui_components::id_set::IdSet;
use sphere_ui_components::lane_image::{
    grown_capacity, handle_dot_radius, lane_picture, readback_bytes, unpack_readback, CcLaneSnapshot, LaneColours,
    LaneGpuError, PictureCache, HANDLE_NUMBERS_LEN, LANE_GLOBALS_LEN,
};
use sphere_ui_components::midi::MidiControllerPoint;
use sphere_ui_components::velocity::LANE_H;
use sphere_ui_components::viewport::ClipAxis;

const ONE: i64 = 1_000_000_000;

fn beats(b: f64) -> i64 {
    (b * 960_000.0).round() as i64
}

fn px(p: f64) -> i64 {
    (p * 1_000_000.0).round() as i64
}

fn value(v: f64) -> i64 {
    (v * ONE as f64).round() as i64
}

fn point(id: u64, beat: f64, v: f64) -> MidiControllerPoint {
    MidiControllerPoint { id, beat: beats(beat), value: value(v) }
}

fn four() -> Vec<MidiControllerPoint> {
    vec![point(1, 0.0, 0.1), point(2, 0.25, 0.2), point(3, 0.5, 0.3), point(4, 0.75, 0.4)]
}

#[test]
fn reverse_paint_replaces_the_previous_horizontal_segment() {
    let points = replace_cc_paint_segment(
        &four(),
        &vec![(beats(0.75), value(0.9)), (beats(0.5), value(0.8))],
        false,
        CC_POINT_MERGE_EPS,
        10,
    );

    assert_eq!(points.len(), 4);
    assert_eq!(points[2].beat, beats(0.5));
    assert_eq!(points[2].value, value(0.8));
    assert_eq!(points[3].beat, beats(0.75));
    assert_eq!(points[3].value, value(0.9));
    assert!(points.windows(2).all(|pair| (pair[1].beat - pair[0].beat) > CC_POINT_MERGE_EPS));
}

#[test]
fn erase_paint_removes_the_whole_reversed_segment() {
    let points =
        replace_cc_paint_segment(&four(), &vec![(beats(0.75), 0), (beats(0.5), 0)], true, CC_POINT_MERGE_EPS, 10);

    assert_eq!(points.len(), 2);
    assert_eq!(points[0].beat, beats(0.0));
    assert_eq!(points[1].beat, beats(0.25));
}

#[test]
fn painting_nothing_changes_nothing() {
    let points = replace_cc_paint_segment(&four(), &vec![], false, CC_POINT_MERGE_EPS, 10);
    assert!(same_points(&points, &four()));
}

#[test]
fn compacting_keeps_the_later_of_two_points_at_a_beat() {
    let mut points = four();
    points.push(point(5, 0.5, 0.7));
    let compact = compact_cc_points(&points);
    assert_eq!(compact.len(), 4);
    assert_eq!(compact[2].value, value(0.7));
    assert!(same_points(&compact_cc_points(&compact), &compact));
}

#[test]
fn points_are_picked_and_dropped_by_id() {
    let ids = IdSet::from_ids(&vec![2, 4]);
    assert_eq!(select_points(&four(), &ids).iter().map(|p| p.id).collect::<Vec<u64>>(), vec![2, 4]);
    assert_eq!(drop_points(&four(), &ids).iter().map(|p| p.id).collect::<Vec<u64>>(), vec![1, 3]);
    let (doubled, used) = duplicate_points(&four(), &ids, beats(1.0), 10);
    assert_eq!(doubled.len(), 6);
    assert_eq!(used, 2);
    assert_eq!(doubled[4].beat, beats(1.25));
    assert_eq!(doubled[5].beat, beats(1.75));
}

#[test]
fn height_in_the_lane_is_value() {
    assert_eq!(value_from_local_y(px(70.0), LANE_H), value(0.5));
    assert_eq!(controller_y_for_value(value(0.5), LANE_H), px(70.0));
    assert_eq!(controller_y_for_value(ONE, LANE_H), px(5.0));
    assert_eq!(controller_y_for_value(0, LANE_H), px(135.0));
    assert_eq!(value_from_local_y(px(-5.0), LANE_H), ONE);
    assert_eq!(value_from_local_y(px(500.0), LANE_H), 0);
}

#[test]
fn moved_points_keep_their_distances_within_the_lane() {
    let prev = vec![(1, beats(0.0), value(0.1)), (2, beats(1.0), value(0.4))];
    assert_eq!(
        cc_move_targets(&prev, beats(0.5), value(0.2)),
        vec![(1, beats(0.5), value(0.3)), (2, beats(1.5), value(0.6))]
    );
    assert_eq!(
        cc_move_targets(&prev, beats(-2.0), value(0.9)),
        vec![(1, beats(0.0), ONE), (2, beats(0.0), ONE)]
    );
}

#[test]
fn a_ramp_runs_from_the_earlier_end() {
    let a = ramp_between(beats(1.0), value(0.9), beats(0.0), value(0.1), beats(0.25));
    assert_eq!((a.lo_beat, a.hi_beat, a.lo_value, a.hi_value), (beats(0.0), beats(1.0), value(0.1), value(0.9)));
    let points = cc_line_points(&vec![point(1, 0.6, 0.5), point(2, 3.0, 0.5)], a, 10);
    assert!(points.iter().any(|p| p.beat == 0 && p.value == value(0.1)));
    assert!(points.iter().any(|p| p.beat == beats(0.5) && p.value == value(0.5)));
    assert!(points.iter().any(|p| p.id == 2));
    assert!(!points.iter().any(|p| p.id == 1));
}

#[test]
fn a_free_stroke_is_thinned() {
    let view = LaneView {
        axis: ClipAxis { ppb: px(100.0), scroll_x: 0, origin: 0 },
        lane_h: LANE_H,
        snap_step: 0,
        grid_step: beats(0.25),
    };
    let stroke = CcStroke { from_x: 0, from_y: px(50.0), to_x: px(10.0), to_y: px(50.0), unsnap: true };
    let points = stroke.points(&view);
    assert_eq!(points.iter().map(|p| p.0).collect::<Vec<i64>>(), vec![0, beats(0.04), beats(0.08)]);
    assert!(points.iter().all(|p| p.1 == points[0].1));
}

#[test]
fn curve_shapes_have_their_values() {
    let half = ONE / 2;
    assert_eq!(CcCurveKind::Linear.sample(half, 0, ONE, 0), half);
    assert_eq!(CcCurveKind::EaseIn.sample(half, 0, ONE, 0), value(0.25));
    assert_eq!(CcCurveKind::EaseOut.sample(half, 0, ONE, 0), value(0.75));
    assert_eq!(CcCurveKind::EaseInOut.sample(value(0.25), 0, ONE, 0), value(0.125));
    assert_eq!(CcCurveKind::SCurve.sample(value(0.25), 0, ONE, 0), value(0.15625));
    assert_eq!(CcCurveKind::Exponential.sample(half, 0, ONE, value(0.03125)), value(0.03125));
    assert_eq!(CcCurveKind::Exponential.sample(0, value(0.5), ONE, ONE), value(0.5));
    assert_eq!(CcCurveKind::Flat.sample(half, value(0.3), ONE, 0), value(0.3));
    assert_eq!(CcCurveKind::Triangle.sample(value(0.25), 0, 0, 0), half);
    assert_eq!(CcCurveKind::Triangle.sample(half, 0, 0, 0), ONE);
    assert_eq!(CcCurveKind::Saw.sample(value(0.7), 0, 0, 0), value(0.7));
    assert_eq!(CcCurveKind::Square.sample(value(0.49), 0, 0, 0), ONE);
    assert_eq!(CcCurveKind::Square.sample(half, 0, 0, 0), 0);
    assert_eq!(CcCurveKind::Random.sample(half, 0, 0, 0), CcCurveKind::Humanize.sample(half, 0, 0, 0));
    assert_eq!(CcCurveKind::all().len(), 14);
    assert_eq!(CcCurveKind::EaseInOut.label(), "Ease In Out");
    assert!(CcCurveKind::Logarithmic.is_transcendental() && !CcCurveKind::SCurve.is_transcendental());
}

#[test]
fn a_stroke_paints_alike_both_ways() {
    let there = vec![(beats(0.3), value(0.1)), (beats(0.45), value(0.6)), (beats(0.6), value(0.2))];
    let back: Vec<(i64, i64)> = there.iter().rev().cloned().collect();
    let one = replace_cc_paint_segment(&four(), &there, false, CC_POINT_MERGE_EPS, 10);
    let other = replace_cc_paint_segment(&four(), &back, false, CC_POINT_MERGE_EPS, 10);
    let shape = |points: &Vec<MidiControllerPoint>| points.iter().map(|p| (p.beat, p.value)).collect::<Vec<_>>();
    assert_eq!(shape(&one), shape(&other));
    assert_eq!(one.len(), 6);
    assert!(four().iter().all(|p| p.beat < beats(0.3) || p.beat > beats(0.6) || one.iter().all(|q| q.id != p.id)));
    assert!(!same_points(&one, &other));
}

#[test]
fn curves_reach_their_ends_and_stay_on_the_scale() {
    assert_eq!(CcCurveKind::Exponential.sample(ONE, value(0.2), value(0.7), ONE), value(0.7));
    assert_eq!(CcCurveKind::Logarithmic.sample(ONE, value(0.2), value(0.7), ONE), value(0.7));
    assert_eq!(CcCurveKind::SCurve.sample(ONE, value(0.2), value(0.7), 0), value(0.7));
    for kind in CcCurveKind::all() {
        for time in [i64::MIN, -1, 0, ONE / 3, ONE, 2 * ONE, i64::MAX] {
            for (from, to) in [(0, ONE), (-ONE, 2 * ONE), (3 * ONE, -ONE), (i64::MIN, i64::MAX), (i64::MAX, i64::MIN)] {
                let v = kind.sample(time, from, to, ONE / 3);
                assert!((0..=ONE).contains(&v), "{kind:?}");
            }
        }
    }
    assert_eq!(CcCurveKind::Linear.sample(ONE / 2, -ONE, 2 * ONE, 0), ONE / 2);
    assert_eq!(CcCurveKind::Flat.sample(0, 2 * ONE, 0, 0), ONE);
}

#[test]
fn oscillators_fill_the_scale_whatever_the_ends_are() {
    for kind in [CcCurveKind::Triangle, CcCurveKind::Saw, CcCurveKind::Square] {
        let at = |time: i64| kind.sample(time, value(0.4), value(0.6), 0);
        assert_eq!(at(ONE / 4), kind.sample(ONE / 4, ONE, 0, ONE));
        assert!([0, ONE].iter().any(|t| at(*t) == 0));
        assert!([0, ONE / 2, ONE].iter().any(|t| at(*t) == ONE));
    }
}

#[test]
fn a_curve_spans_the_selected_points() {
    let span = cc_curve_span(&four(), beats(3.0), beats(0.25), beats(0.25));
    assert_eq!((span.lo, span.hi), (beats(0.0), beats(0.75)));
    assert_eq!((span.from, span.to), (value(0.1), value(0.4)));
    let alone = cc_curve_span(&vec![], beats(3.1), beats(0.25), beats(0.25));
    assert_eq!((alone.lo, alone.hi), (beats(3.0), beats(7.0)));
}

#[test]
fn applying_a_curve_replaces_the_span() {
    let span = CurveSpan { lo: 0, hi: beats(1.0), from: 0, to: ONE };
    let times = span.times(beats(0.25));
    let (points, used) = apply_cc_curve(&four(), CcCurveKind::Linear, span, beats(0.25), &vec![0; times.len()], 10);
    assert_eq!(points.len() as u64, used);
    assert_eq!(points.first().map(|p| (p.beat, p.value)), Some((0, 0)));
    assert_eq!(points.last().map(|p| (p.beat, p.value)), Some((beats(1.0), ONE)));
    assert!(points.windows(2).all(|w| w[0].value <= w[1].value));
}

#[test]
fn humanizing_stays_near_the_points() {
    let edits = humanize_edits(&four(), 0, beats(1.0));
    assert_eq!(edits.len(), 4);
    for (e, p) in edits.iter().zip(four()) {
        assert_eq!(e.0, p.beat);
        assert!((e.1 - p.value).abs() <= value(0.1));
    }
}

#[test]
fn the_curve_is_sampled_between_points() {
    let axis = ClipAxis { ppb: px(100.0), scroll_x: 0, origin: 0 };
    let samples = cc_curve_samples(&vec![point(1, 0.0, 0.0), point(2, 1.0, 1.0)], axis, LANE_H, 200, value(0.5));
    assert_eq!(samples.len(), 201);
    assert_eq!(samples[0], controller_y_for_value(0, LANE_H));
    assert_eq!(samples[50], controller_y_for_value(value(0.5), LANE_H));
    assert_eq!(samples[150], controller_y_for_value(ONE, LANE_H));
    let flat = cc_curve_samples(&vec![], axis, LANE_H, 10, value(0.5));
    assert!(flat.iter().all(|y| *y == controller_y_for_value(value(0.5), LANE_H)));
    let handles = cc_handles(&vec![point(1, 0.0, 0.0), point(2, 90.0, 1.0)], axis, px(200.0), LANE_H, &IdSet::single(1));
    assert_eq!(handles, vec![CcHandle { x: 0, y: controller_y_for_value(0, LANE_H), selected: true }]);
}

fn snapshot(samples: Vec<i64>) -> CcLaneSnapshot {
    CcLaneSnapshot {
        width: px((samples.len() - 1) as f64),
        height: px(140.0),
        scale: 1_000_000,
        samples,
        handles: vec![CcHandle { x: px(10.0), y: px(20.0), selected: false }],
        baseline_y: px(135.0),
    }
}

#[test]
fn content_hash_tracks_curve_and_handles_only() {
    let a = snapshot(vec![px(10.0), px(20.0), px(30.0)]);
    let same = snapshot(vec![px(10.0), px(20.0), px(30.0)]);
    assert_eq!(a.content_hash(), same.content_hash());

    let moved_curve = snapshot(vec![px(10.0), px(21.0), px(30.0)]);
    assert_ne!(a.content_hash(), moved_curve.content_hash());

    let mut selected = snapshot(vec![px(10.0), px(20.0), px(30.0)]);
    selected.handles[0].selected = true;
    assert_ne!(a.content_hash(), selected.content_hash());

    let mut rescaled = snapshot(vec![px(10.0), px(20.0), px(30.0)]);
    rescaled.scale = 2_000_000;
    assert_ne!(a.content_hash(), rescaled.content_hash());
}

#[test]
fn a_pass_has_a_height_for_every_device_column() {
    let mut s = snapshot(vec![px(10.0), px(20.0), px(30.0)]);
    s.scale = 2_000_000;
    let pass = s.gpu_pass().expect("a pass");
    assert_eq!((pass.width, pass.height), (4, 280));
    assert_eq!(pass.columns, vec![px(20.0), px(30.0), px(40.0), px(50.0), px(60.0)]);
    let empty = CcLaneSnapshot { width: 0, height: 0, scale: 0, samples: vec![], handles: vec![], baseline_y: 0 };
    let error = empty.gpu_pass().err().expect("nothing to draw");
    assert_eq!(error, LaneGpuError::TooWideOrEmpty);
    assert_ne!(error.message(), LaneGpuError::SizeMismatch.message());
}

#[test]
fn a_readback_loses_its_padding_and_keeps_its_pixels() {
    let (row, padded, total) = readback_bytes(2, 3);
    assert_eq!((row, padded, total), (8, 256, 768));
    let mut mapped = vec![255u8; total as usize];
    for y in 0..3usize {
        for x in 0..8usize {
            mapped[y * 256 + x] = (10 * y + x) as u8;
        }
    }
    let bgra = unpack_readback(&mapped, 2, 3);
    assert_eq!(
        bgra,
        vec![2, 1, 0, 3, 6, 5, 4, 7, 12, 11, 10, 13, 16, 15, 14, 17, 22, 21, 20, 23, 26, 25, 24, 27]
    );
    assert_eq!(lane_picture(&mapped, 2, 3).expect("a picture"), bgra);
}

#[test]
fn buffers_grow_to_powers_of_two() {
    assert_eq!(grown_capacity(4, 3), 4);
    assert_eq!(grown_capacity(4, 4), 4);
    assert_eq!(grown_capacity(4, 5), 8);
    assert_eq!(grown_capacity(0, 1000), 1024);
}

#[test]
fn a_picture_is_drawn_again_only_when_it_changed() {
    let mut cache = PictureCache { hash: 0, filled: false };
    assert!(!cache.serves(0));
    assert!(!cache.replace(7));
    assert!(cache.serves(7));
    assert!(!cache.serves(8));
    assert!(cache.replace(8));
    assert!(cache.serves(8));
    let plain = CcHandle { x: 0, y: 0, selected: false };
    let picked = CcHandle { x: 0, y: 0, selected: true };
    assert!(handle_dot_radius(&plain) != handle_dot_radius(&picked));
}

#[test]
fn the_lane_shader_reads_lengths_in_device_pixels() {
    let mut s = snapshot(vec![px(10.0), px(20.0), px(30.0)]);
    s.scale = 2_000_000;
    s.handles[0].selected = true;
    let c = LaneColours {
        line: [1, 2, 3, 4],
        fill_top: [5; 4],
        fill_bottom: [6; 4],
        baseline: [7; 4],
        handle: [8; 4],
        ring: [9; 4],
    };
    let pass = s.gpu_pass().expect("a pass");
    let g = s.globals(pass.width, pass.height, &c);
    assert_eq!(g.len(), LANE_GLOBALS_LEN);
    assert_eq!(g[..4], [4 * ONE, 280 * ONE, 270 * ONE, 1_800_000_000]);
    assert_eq!(g[4..8], [1, 2, 3, 4]);
    assert_eq!(g[16..], [7, 7, 7, 7, 12 * ONE, 8 * ONE, 0, 0]);
    let h = pass.handles.first().map(|h| h.numbers(s.scale, &c));
    assert_eq!(h, None);
    s.handles[0].x = px(1.0);
    let shown = s.gpu_pass().expect("a pass").handles[0].numbers(s.scale, &c);
    assert_eq!(shown.len(), HANDLE_NUMBERS_LEN);
    assert_eq!(shown, vec![2 * ONE, 40 * ONE, 8 * ONE, ONE, 8, 8, 8, 8, 9, 9, 9, 9]);
}
