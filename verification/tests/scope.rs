use sphere_ui_components::scope::{
    clip_meta, track_color_for_clip, ClipInfo, ClipSpan, EditorScope, TrackInfo, MISSING_CLIP_LENGTH,
};

fn beats(b: f64) -> i64 {
    (b * 960_000.0).round() as i64
}

fn span(id: &str, start: f64, len: f64, editable: bool) -> ClipSpan {
    ClipSpan {
        clip_id: id.to_string(),
        track_id: "t1".to_string(),
        name: id.to_string(),
        start_beat: beats(start),
        duration_beats: beats(len),
        color: 0,
        editable,
    }
}

fn scope(spans: Vec<ClipSpan>) -> EditorScope {
    EditorScope::from_spans(spans)
}

#[test]
fn local_and_project_beats_round_trip() {
    let clip = span("a", 16.0, 8.0, true);
    assert_eq!(clip.to_project(beats(0.0)), beats(16.0));
    assert_eq!(clip.to_local(beats(16.0)), beats(0.0));
    assert_eq!(clip.to_local(clip.to_project(beats(3.5))), beats(3.5));
    assert_eq!(clip.end_beat(), beats(24.0));
}

#[test]
fn a_shared_boundary_belongs_to_the_later_clip() {
    let first = span("a", 0.0, 16.0, false);
    let second = span("b", 16.0, 16.0, false);
    assert!(first.contains(beats(15.999)));
    assert!(!first.contains(beats(16.0)));
    assert!(second.contains(beats(16.0)));

    let scope = scope(vec![first, second]);
    assert_eq!(scope.owner_at(beats(16.0)).map(|s| s.clip_id.as_str()), Some("b"));
}

#[test]
fn a_beat_in_no_clip_has_no_owner() {
    let scope = scope(vec![span("a", 0.0, 4.0, true), span("b", 16.0, 4.0, false)]);
    assert!(scope.owner_at(beats(8.0)).is_none());
    assert!(scope.owner_at(beats(-1.0)).is_none());
    assert!(scope.owner_at(beats(64.0)).is_none());
}

#[test]
fn the_edited_clip_wins_an_overlap() {
    let scope = scope(vec![span("under", 0.0, 32.0, false), span("editing", 8.0, 8.0, true)]);
    assert_eq!(scope.owner_at(beats(10.0)).map(|s| s.clip_id.as_str()), Some("editing"));
    assert_eq!(scope.owner_at(beats(20.0)).map(|s| s.clip_id.as_str()), Some("under"));
}

#[test]
fn extent_spans_every_clip() {
    let scope = scope(vec![span("a", 8.0, 4.0, true), span("b", 32.0, 16.0, false)]);
    assert_eq!(scope.extent(), Some((beats(8.0), beats(48.0))));
}

#[test]
fn extent_uses_the_furthest_end_not_the_last_start() {
    let scope = scope(vec![span("long", 0.0, 64.0, true), span("short", 8.0, 4.0, false)]);
    assert_eq!(scope.extent(), Some((beats(0.0), beats(64.0))));
}

#[test]
fn an_empty_scope_claims_nothing() {
    let scope = EditorScope::default();
    assert!(scope.is_empty());
    assert!(scope.extent().is_none());
    assert!(scope.owner_at(0).is_none());
    assert!(scope.editing().is_none());
}

#[test]
fn a_note_rebased_between_clips_keeps_its_place_in_the_song() {
    let from = span("a", 16.0, 16.0, true);
    let to = span("b", 32.0, 16.0, false);

    let local_in_from = beats(14.0);
    let on_timeline = from.to_project(local_in_from);
    assert_eq!(on_timeline, beats(30.0));

    let dropped_at = on_timeline + beats(4.0);
    assert!(to.contains(dropped_at));
    let local_in_to = to.to_local(dropped_at);
    assert_eq!(local_in_to, beats(2.0));
    assert_eq!(to.to_project(local_in_to), dropped_at);
}

#[test]
fn the_gap_between_clips_owns_no_note() {
    let scope = scope(vec![span("a", 0.0, 8.0, true), span("b", 16.0, 8.0, false)]);
    assert!(scope.owner_at(beats(12.0)).is_none());
}

#[test]
fn migration_works_in_both_directions() {
    let earlier = span("a", 0.0, 16.0, false);
    let editing = span("b", 16.0, 16.0, true);
    let scope = scope(vec![earlier.clone(), editing.clone()]);

    let dropped_at = editing.to_project(beats(2.0)) - beats(5.0);
    assert_eq!(dropped_at, beats(13.0));
    let owner = scope.owner_at(dropped_at).expect("a clip owns beat 13");
    assert_eq!(owner.clip_id, "a");
    assert_eq!(owner.to_local(dropped_at), beats(13.0));
}

#[test]
fn a_zero_length_clip_owns_nothing() {
    let clip = span("empty", 4.0, 0.0, true);
    assert!(!clip.contains(beats(4.0)));
    assert!(!clip.contains(beats(3.999)));
    assert!(!clip.contains(beats(4.001)));
}

fn clip(id: &str, start: f64, len: f64, is_midi: bool) -> ClipInfo {
    ClipInfo {
        id: id.to_string(),
        name: id.to_string(),
        start_beat: beats(start),
        duration_beats: beats(len),
        is_midi,
    }
}

fn song() -> Vec<TrackInfo> {
    vec![
        TrackInfo { id: "drums".to_string(), color: 7, clips: vec![clip("d", 0.0, 4.0, true)] },
        TrackInfo {
            id: "keys".to_string(),
            color: 9,
            clips: vec![clip("late", 32.0, 8.0, true), clip("audio", 0.0, 8.0, false), clip("early", 8.0, 8.0, true)],
        },
    ]
}

#[test]
fn a_scope_holds_the_midi_clips_of_the_edited_track_in_order() {
    let scope = EditorScope::for_editing_clip(&song(), "late");
    let ids: Vec<&str> = scope.spans().iter().map(|s| s.clip_id.as_str()).collect();
    assert_eq!(ids, vec!["early", "late"]);
    assert_eq!(scope.editing().map(|s| s.clip_id.as_str()), Some("late"));
    assert_eq!(scope.span("early").map(|s| (s.track_id.as_str(), s.color)), Some(("keys", 9)));
    assert!(scope.span("d").is_none());
    assert!(EditorScope::for_editing_clip(&song(), "gone").is_empty());
}

#[test]
fn a_clip_is_found_by_its_id() {
    assert_eq!(clip_meta(&song(), "early"), (beats(8.0), beats(8.0)));
    assert_eq!(clip_meta(&song(), "gone"), (0, MISSING_CLIP_LENGTH));
    assert_eq!(MISSING_CLIP_LENGTH, beats(4.0));
    assert_eq!(track_color_for_clip(&song(), "late", 1), 9);
    assert_eq!(track_color_for_clip(&song(), "gone", 1), 1);
}
