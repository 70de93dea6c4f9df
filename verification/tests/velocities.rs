use sphere_ui_components::id_set::IdSet;
use sphere_ui_components::midi::{MidiChannel, MidiChannelMask, MidiNote};
use sphere_ui_components::rect::Rect;
use sphere_ui_components::velocity::{
    clamp_velocity, interpolate_velocity, relative_velocity, restore_velocity_values, set_velocities,
    snapshot_velocities, velocity_drag_delta, velocity_from_local_y, VelocityCurve, LANE_H,
};
use sphere_ui_components::velocity_lane::{
    velocity_bar_height, velocity_gesture_notes, velocity_line_updates, velocity_paint_updates, velocity_select_hits,
    Ramp, Stroke,
};
use sphere_ui_components::velocity_ops::{velocity_operation_updates, VelocityOperation};
use sphere_ui_components::viewport::ClipAxis;

fn beats(b: f64) -> i64 {
    (b * 960_000.0).round() as i64
}

fn px(p: f64) -> i64 {
    (p * 1_000_000.0).round() as i64
}

fn note(id: u64, pitch: u8, start: f64, duration: f64, velocity: u8) -> MidiNote {
    MidiNote {
        id,
        pitch,
        start: beats(start),
        duration: beats(duration),
        velocity,
        muted: false,
        channel: MidiChannel { raw: 0 },
        articulation: None,
        pitch_curve: None,
    }
}

#[test]
fn relative_velocity_preserves_differences_and_clamps() {
    assert_eq!(relative_velocity(40, 12), 52);
    assert_eq!(relative_velocity(80, 12), 92);
    assert_eq!(relative_velocity(120, 20), 127);
    assert_eq!(relative_velocity(8, -20), 1);
}

#[test]
fn drag_delta_is_derived_from_start_and_shift_is_fine() {
    let normal = velocity_drag_delta(px(100.0), px(80.0), LANE_H, false);
    let same_frame_again = velocity_drag_delta(px(100.0), px(80.0), LANE_H, false);
    let fine = velocity_drag_delta(px(100.0), px(80.0), LANE_H, true);
    assert_eq!(normal, same_frame_again);
    assert!(normal > 0);
    assert!(fine > 0 && fine < normal);
    assert_eq!(normal, 19);
    assert_eq!(fine, 4);
}

#[test]
fn linear_velocity_line_interpolates_note_values() {
    assert_eq!(interpolate_velocity(20, 120, 0, 2, VelocityCurve::Linear), 20);
    assert_eq!(interpolate_velocity(20, 120, 1, 2, VelocityCurve::Linear), 70);
    assert_eq!(interpolate_velocity(20, 120, 2, 2, VelocityCurve::Linear), 120);
}

#[test]
fn future_velocity_curves_stay_in_range() {
    for curve in [
        VelocityCurve::Exponential,
        VelocityCurve::Logarithmic,
        VelocityCurve::SCurve,
        VelocityCurve::ReverseSCurve,
    ] {
        let value = interpolate_velocity(1, 127, 4, 10, curve);
        assert!((1..=127).contains(&value));
    }
}

#[test]
fn velocity_curves_bend_the_line() {
    assert_eq!(interpolate_velocity(1, 127, 4, 10, VelocityCurve::Exponential), 21);
    assert_eq!(interpolate_velocity(1, 127, 4, 10, VelocityCurve::Logarithmic), 81);
    assert_eq!(interpolate_velocity(1, 127, 4, 10, VelocityCurve::SCurve), 45);
    assert_eq!(interpolate_velocity(1, 127, 5, 10, VelocityCurve::ReverseSCurve), 64);
    assert_eq!(interpolate_velocity(20, 120, -5, 10, VelocityCurve::Linear), 20);
    assert_eq!(interpolate_velocity(20, 120, 15, 10, VelocityCurve::Linear), 120);
}

#[test]
fn cancellation_snapshot_restores_every_affected_velocity() {
    let mut notes = vec![note(1, 60, 0.0, 1.0, 20), note(2, 64, 1.0, 1.0, 80)];
    let snapshot = vec![(notes[0].id, 20), (notes[1].id, 80)];
    notes[0].velocity = 75;
    notes[1].velocity = 127;
    restore_velocity_values(&mut notes, &snapshot);
    assert_eq!(notes[0].velocity, 20);
    assert_eq!(notes[1].velocity, 80);
}

#[test]
fn a_snapshot_undoes_any_updates() {
    let mut notes = vec![note(1, 60, 0.0, 1.0, 20), note(2, 64, 1.0, 1.0, 80), note(3, 67, 2.0, 1.0, 90)];
    let before = snapshot_velocities(&notes);
    set_velocities(&mut notes, &vec![(2, 10), (3, 11), (3, 12)]);
    assert_eq!(snapshot_velocities(&notes), vec![(1, 20), (2, 10), (3, 12)]);
    restore_velocity_values(&mut notes, &before);
    assert_eq!(snapshot_velocities(&notes), before);
}

#[test]
fn velocities_are_clamped_to_midi() {
    assert_eq!(clamp_velocity(-4), 1);
    assert_eq!(clamp_velocity(0), 1);
    assert_eq!(clamp_velocity(64), 64);
    assert_eq!(clamp_velocity(300), 127);
}

#[test]
fn height_in_the_lane_is_velocity() {
    assert_eq!(velocity_from_local_y(0, LANE_H), 127);
    assert_eq!(velocity_from_local_y(px(2.0), LANE_H), 127);
    assert_eq!(velocity_from_local_y(px(134.0), LANE_H), 1);
    assert_eq!(velocity_from_local_y(px(68.0), LANE_H), 64);
    assert_eq!(velocity_from_local_y(px(500.0), LANE_H), 1);
    assert_eq!(velocity_bar_height(127, LANE_H), px(132.0));
}

fn axis() -> ClipAxis {
    ClipAxis { ppb: px(100.0), scroll_x: 0, origin: 0 }
}

#[test]
fn a_stroke_paints_the_notes_it_passes() {
    let notes = vec![note(1, 60, 0.0, 1.0, 20), note(2, 64, 1.0, 1.0, 80), note(3, 67, 4.0, 1.0, 90)];
    let stroke = Stroke { from_x: 0, from_y: px(134.0), to_x: px(100.0), to_y: px(2.0) };
    assert_eq!(velocity_paint_updates(&notes, axis(), LANE_H, stroke), vec![(1, 1), (2, 127)]);
    let back = Stroke { from_x: px(100.0), from_y: px(2.0), to_x: 0, to_y: px(134.0) };
    assert_eq!(velocity_paint_updates(&notes, axis(), LANE_H, back), vec![(1, 1), (2, 127)]);
}

#[test]
fn a_ramp_covers_the_selected_notes_under_it() {
    let notes = vec![note(1, 60, 0.0, 1.0, 20), note(2, 64, 1.0, 1.0, 80), note(3, 67, 2.0, 1.0, 90)];
    let ramp = Ramp {
        anchor_beat: 0,
        anchor_value: 20,
        cursor_beat: beats(2.0),
        cursor_value: 120,
        curve: VelocityCurve::Linear,
    };
    let (all, _) = velocity_line_updates(&notes, &IdSet::new(), &IdSet::new(), ramp);
    assert_eq!(all, vec![(1, 20), (2, 70), (3, 120)]);
    let (some, _) = velocity_line_updates(&notes, &IdSet::single(2), &IdSet::new(), ramp);
    assert_eq!(some, vec![(2, 70)]);
}

#[test]
fn hidden_channels_are_left_alone() {
    let mut notes = vec![note(1, 60, 0.0, 1.0, 20), note(2, 64, 1.0, 1.0, 80)];
    notes[1].channel = MidiChannel { raw: 3 };
    let shown = velocity_gesture_notes(&notes, MidiChannelMask::single(MidiChannel { raw: 3 }));
    assert_eq!(shown.len(), 1);
    assert_eq!(shown[0].id, 2);
    assert_eq!(velocity_gesture_notes(&notes, MidiChannelMask::all()).len(), 2);
}

#[test]
fn a_marquee_in_the_lane_takes_the_bars_it_meets() {
    let notes = vec![note(1, 60, 0.0, 1.0, 127), note(2, 64, 1.0, 1.0, 1)];
    let rect = Rect { left: 0, top: 0, right: px(200.0), bottom: px(20.0) };
    let hits = velocity_select_hits(&notes, MidiChannelMask::all(), axis(), LANE_H, rect);
    assert!(hits.contains(1));
    assert!(!hits.contains(2));
}

#[test]
fn every_operation_has_a_label() {
    let labels: Vec<&str> = VelocityOperation::all().into_iter().map(|o| o.label()).collect();
    assert_eq!(labels.len(), 12);
    assert!(labels.iter().all(|l| !l.is_empty()));
}

#[test]
fn operations_change_velocities() {
    let notes = vec![note(1, 60, 0.0, 1.0, 20), note(2, 64, 1.0, 1.0, 80), note(3, 67, 2.0, 1.0, 50)];
    assert_eq!(velocity_operation_updates(&notes, VelocityOperation::SetDefault), vec![(1, 100), (2, 100), (3, 100)]);
    assert_eq!(velocity_operation_updates(&notes, VelocityOperation::Reverse), vec![(1, 50), (2, 80), (3, 20)]);
    assert_eq!(velocity_operation_updates(&notes, VelocityOperation::ResetDefault).len(), 3);
    let mixed = velocity_operation_updates(&notes, VelocityOperation::Add);
    assert_eq!(mixed, vec![(1, 25), (2, 85), (3, 55)]);
    let less = velocity_operation_updates(&notes, VelocityOperation::Subtract);
    assert_eq!(less, vec![(1, 15), (2, 75), (3, 45)]);
}
