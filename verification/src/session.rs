//! Following the clip that is being edited from frame to frame.

use crate::commands::{command_asks, command_copies, command_says, commanded, key_means, CommandInput};
use crate::gesture::{cancelled, pruned, silence, silenced, undo_of};
use crate::note_edits::ClipboardPayload;
use crate::preview::{PreviewMessage, PreviewTarget};
use crate::roll::{clip_valid, ClipView, PianoRoll};
use crate::roll_edit::{EditView, Outcome};
use crate::scope::{first_owner, owns_clip, spans_show, tracks_in_song, EditorScope, TrackInfo};
use crate::text::same_text;
use crate::viewport::x_of_beat;
use crate::zoom::{fitted, wheel_stays_in_reach, wheel_turned, WheelTurn};
use vstd::prelude::*;

verus! {

/// Whether a remembered id is that of a clip.
pub open spec fn names_clip(id: Option<String>, clip: Option<&ClipView>) -> bool {
    match (id, clip) {
        (Some(i), Some(c)) => i@ == c.id@,
        (None, None) => true,
        _ => false,
    }
}

/// Whether another clip is edited than at the last frame.
pub open spec fn clip_changed(roll: PianoRoll, clip: Option<&ClipView>) -> bool {
    !names_clip(roll.last_editing_clip, clip)
}

/// The editor knows where the clip starts and which clips are around it.
pub open spec fn placed(pre: PianoRoll, post: PianoRoll, tracks: Seq<TrackInfo>, clip: Option<&ClipView>) -> bool {
    &&& match clip {
        Some(c) => {
            &&& post.edit_origin == c.start
            &&& forall|i: int|
                first_owner(tracks, c.id@, i) ==> spans_show(post.scope@, #[trigger] tracks[i], c.id@)
            &&& (forall|i: int| 0 <= i < tracks.len() ==> !owns_clip(#[trigger] tracks[i], c.id@)) ==> post.scope@.len()
                == 0
        },
        None => post.edit_origin == 0 && post.scope@.len() == 0,
    }
    &&& post == (PianoRoll { edit_origin: post.edit_origin, scope: post.scope, ..pre })
}

/// A gesture that belonged to another clip has been given up.
pub open spec fn gesture_dropped(pre: PianoRoll, post: PianoRoll, clip: Option<&ClipView>) -> bool {
    if clip_changed(pre, clip) && !(pre.drag is Idle) {
        cancelled(pre, post)
    } else {
        post == pre
    }
}

/// The clip is the one remembered, and a sounding note of another is off.
pub open spec fn clip_entered(pre: PianoRoll, post: PianoRoll, clip: Option<&ClipView>) -> bool {
    if clip_changed(pre, clip) {
        &&& names_clip(post.last_editing_clip, clip)
        &&& if pre.preview.active is Some {
            silenced(pre, post)
        } else {
            post.preview == pre.preview
        }
        &&& post == (PianoRoll {
            last_editing_clip: post.last_editing_clip,
            preview: post.preview,
            fitted_clip_id: None,
            ..pre
        })
    } else {
        post == pre
    }
}

/// The view has been fitted to the clip, once.
pub open spec fn clip_fitted(pre: PianoRoll, post: PianoRoll, clip: Option<&ClipView>) -> bool {
    match clip {
        Some(c) => if names_clip(pre.fitted_clip_id, clip) {
            post == pre
        } else {
            &&& names_clip(post.fitted_clip_id, clip)
            &&& fitted(
                pre,
                (PianoRoll { fitted_clip_id: pre.fitted_clip_id, ..post }),
                c.notes@,
                c.duration as int,
            )
        },
        None => post == pre,
    }
}

/// The editor has been brought in step with the clip.
pub open spec fn synced(pre: PianoRoll, post: PianoRoll, clip: Option<&ClipView>) -> bool {
    exists|dropped: PianoRoll, clean: PianoRoll, entered: PianoRoll|
        #![trigger gesture_dropped(pre, dropped, clip), pruned(dropped, clean, clip), clip_entered(clean, entered, clip)]
        gesture_dropped(pre, dropped, clip) && pruned(dropped, clean, clip) && clip_entered(clean, entered, clip)
            && clip_fitted(entered, post, clip)
}

pub open spec fn sync_says(pre: PianoRoll, clip: Option<&ClipView>, target: Option<PreviewTarget>) -> Seq<PreviewMessage> {
    if clip_changed(pre, clip) && (!(pre.drag is Idle) || pre.preview.active is Some) {
        silence(pre, target)
    } else {
        Seq::empty()
    }
}

pub open spec fn sync_asks(pre: PianoRoll, clip: Option<&ClipView>) -> Option<EditView> {
    if clip_changed(pre, clip) {
        undo_of(pre, clip)
    } else {
        None
    }
}

/// No note of the clip left behind is still sounding or being dragged once
/// another clip is edited, and a clip once fitted is not fitted again.
pub proof fn law_a_new_clip_starts_clean(pre: PianoRoll, post: PianoRoll, clip: Option<&ClipView>)
    requires
        synced(pre, post, clip),
    ensures
        names_clip(post.last_editing_clip, clip),
        clip is Some ==> names_clip(post.fitted_clip_id, clip),
        clip_changed(pre, clip) ==> post.drag is Idle && post.preview.active is None,
        clip is Some && !clip_changed(pre, clip) && names_clip(pre.fitted_clip_id, clip) ==> post.scroll_x
            == pre.scroll_x && post.scroll_y == pre.scroll_y && post.ppb == pre.ppb,
{
}

fn is_clip(id: &Option<String>, clip: Option<&ClipView>) -> (r: bool)
    ensures
        r == names_clip(*id, clip),
{
    match (id, clip) {
        (Some(i), Some(c)) => same_text(i.as_str(), c.id.as_str()),
        (None, None) => true,
        _ => false,
    }
}

fn id_of(clip: Option<&ClipView>) -> (r: Option<String>)
    ensures
        names_clip(r, clip),
{
    match clip {
        Some(c) => Some(c.id.clone()),
        None => None,
    }
}

/// The time axis starts where the clip does, and the view goes over the clips
/// around it, from the frame on in which the clip is first edited.
pub proof fn law_axis_follows_the_clip(
    pre: PianoRoll,
    there: PianoRoll,
    post: PianoRoll,
    tracks: Seq<TrackInfo>,
    clip: Option<&ClipView>,
    beat: int,
)
    requires
        placed(pre, there, tracks, clip),
        synced(there, post, clip),
    ensures
        post.edit_origin == there.edit_origin && post.scope == there.scope,
        clip matches Some(c) ==> post.axis().x_at(beat) == x_of_beat(
            c.start + beat,
            post.ppb as int,
            post.scroll_x as int,
        ),
{
}

impl PianoRoll {
    /// Takes over where the clip starts and which clips its track has.
    pub fn refresh_scope(&mut self, tracks: &Vec<TrackInfo>, clip: Option<&ClipView>)
        requires
            old(self).valid(),
            clip_valid(clip),
            tracks_in_song(tracks@),
        ensures
            placed(*old(self), *final(self), tracks@, clip),
            final(self).valid(),
    {
        match clip {
            Some(c) => {
                self.edit_origin = c.start;
                self.scope = EditorScope::for_editing_clip(tracks, c.id.as_str());
            },
            None => {
                self.edit_origin = 0;
                self.scope = EditorScope::default();
            },
        }
    }

    fn fit_once(&mut self, clip: Option<&ClipView>)
        requires
            old(self).valid(),
            clip_valid(clip),
        ensures
            clip_fitted(*old(self), *final(self), clip),
            final(self).valid(),
    {
        match clip {
            Some(c) => {
                if !is_clip(&self.fitted_clip_id, clip) {
                    self.fit_piano_roll_to_notes(c);
                    self.fitted_clip_id = Some(c.id.clone());
                }
            },
            None => {},
        }
    }

    /// Brings the editor in step with the clip that is edited now: the axis and
    /// the clips around it are those of the timeline, what belonged to another
    /// clip is dropped, what names deleted notes is cleaned, and a clip that is
    /// shown for the first time is fitted to the view.
    pub fn sync_editing_clip(
        &mut self,
        tracks: &Vec<TrackInfo>,
        clip: Option<&ClipView>,
        target: Option<PreviewTarget>,
    ) -> (o: Outcome)
        requires
            old(self).valid(),
            clip_valid(clip),
            tracks_in_song(tracks@),
        ensures
            exists|there: PianoRoll| #[trigger]
                placed(*old(self), there, tracks@, clip) && synced(there, *final(self), clip),
            o.said() == sync_says(*old(self), clip, target),
            o.asks() == sync_asks(*old(self), clip),
            final(self).valid(),
    {
        self.refresh_scope(tracks, clip);
        self.follow_clip(clip, target)
    }

    #[verifier::rlimit(40)]
    fn follow_clip(&mut self, clip: Option<&ClipView>, target: Option<PreviewTarget>) -> (o: Outcome)
        requires
            old(self).valid(),
            clip_valid(clip),
        ensures
            synced(*old(self), *final(self), clip),
            o.said() == sync_says(*old(self), clip, target),
            o.asks() == sync_asks(*old(self), clip),
            final(self).valid(),
    {
        let changed = !is_clip(&self.last_editing_clip, clip);
        let dragging = !self.drag.is_idle();
        if changed && dragging {
            let o = self.cancel_active_gesture(clip, target);
            let ghost dropped = *self;
            assert(gesture_dropped(*old(self), dropped, clip));
            self.prune_transient_state(clip);
            let ghost clean = *self;
            assert(pruned(dropped, clean, clip));
            self.last_editing_clip = id_of(clip);
            self.fitted_clip_id = None;
            assert(clip_entered(clean, *self, clip));
            self.fit_once(clip);
            o
        } else {
            assert(gesture_dropped(*old(self), *self, clip));
            self.prune_transient_state(clip);
            let ghost clean = *self;
            assert(pruned(*old(self), clean, clip));
            let o = if changed && self.preview.active.is_some() {
                let preview = self.preview.preview_all_notes_off(target);
                Outcome { preview, edit: None }
            } else {
                Outcome::nothing()
            };
            if changed {
                self.last_editing_clip = id_of(clip);
                self.fitted_clip_id = None;
            }
            assert(clip_entered(clean, *self, clip));
            self.fit_once(clip);
            o
        }
    }

    /// Previews are heard from now on, or no longer.
    pub fn set_midi_preview_handler(&mut self, connected: bool)
        requires
            old(self).valid(),
        ensures
            final(self).preview == (crate::preview::PreviewState { connected, ..old(self).preview }),
            *final(self) == (PianoRoll { preview: final(self).preview, ..*old(self) }),
            final(self).valid(),
    {
        self.preview.connected = connected;
    }

    /// Whether the editor can be opened in a window of its own.
    pub fn set_pop_out_handler(&mut self, set: bool)
        requires
            old(self).valid(),
        ensures
            *final(self) == (PianoRoll { can_pop_out: set, ..*old(self) }),
            final(self).valid(),
    {
        self.can_pop_out = set;
    }

    /// Stops every note that the editor may have started.
    pub fn preview_all_notes_off(&mut self, target: Option<PreviewTarget>) -> (o: Outcome)
        requires
            old(self).valid(),
        ensures
            silenced(*old(self), *final(self)),
            *final(self) == (PianoRoll { preview: final(self).preview, ..*old(self) }),
            o.said() == silence(*old(self), target),
            o.asks() is None,
            final(self).valid(),
    {
        let preview = self.preview.preview_all_notes_off(target);
        Outcome { preview, edit: None }
    }

    /// Silences the track altogether.
    pub fn midi_panic(&mut self, target: Option<PreviewTarget>) -> (o: Outcome)
        requires
            old(self).valid(),
        ensures
            silenced(*old(self), *final(self)),
            *final(self) == (PianoRoll { preview: final(self).preview, ..*old(self) }),
            o.said() == (match old(self).preview.stop_track(target) {
                Some(track) => if old(self).preview.connected {
                    seq![PreviewMessage::MidiPanic(track)]
                } else {
                    Seq::empty()
                },
                None => Seq::empty(),
            }),
            o.asks() is None,
            final(self).valid(),
    {
        let preview = self.preview.midi_panic(target);
        Outcome { preview, edit: None }
    }

    /// A turn of the wheel on a surface that shares this view.
    pub fn forward_wheel(&mut self, w: WheelTurn)
        requires
            old(self).valid(),
            w.valid(),
            wheel_stays_in_reach(*old(self), w),
        ensures
            wheel_turned(*old(self), *final(self), w),
            final(self).valid(),
    {
        self.on_wheel(w);
    }

    /// A key that another surface hands to the editor.
    pub fn handle_key_event(
        &mut self,
        key: &str,
        ctrl: bool,
        shift: bool,
        input: &CommandInput,
        target: Option<PreviewTarget>,
    ) -> (r: (bool, Outcome, Option<ClipboardPayload>))
        requires
            old(self).valid(),
            input.valid(),
        ensures
            match (input.clip, key_means(*old(self), key@, ctrl, shift)) {
                (Some(_), Some(c)) => {
                    &&& r.0
                    &&& commanded(*old(self), *final(self), c, *input)
                    &&& r.1.asks() == command_asks(*old(self), c, *input)
                    &&& r.1.said() == command_says(*old(self), c, *input, target)
                    &&& command_copies(*old(self), c, *input, r.2)
                },
                _ => !r.0 && *final(self) == *old(self) && r.1.silent() && r.2 is None,
            },
            final(self).valid(),
    {
        self.on_key(key, ctrl, shift, input, target)
    }

    /// Gives up what is under way when the editor loses the keyboard.
    pub fn focus_lost(&mut self, clip: Option<&ClipView>, target: Option<PreviewTarget>) -> (o: Outcome)
        requires
            old(self).valid(),
            clip_valid(clip),
        ensures
            if !(old(self).drag is Idle) || old(self).preview.active is Some {
                &&& cancelled(*old(self), *final(self))
                &&& o.said() == silence(*old(self), target)
                &&& o.asks() == undo_of(*old(self), clip)
            } else {
                *final(self) == *old(self) && o.silent()
            },
            final(self).valid(),
    {
        if !self.drag.is_idle() || self.preview.active.is_some() {
            self.cancel_active_gesture(clip, target)
        } else {
            Outcome::nothing()
        }
    }
}

} // verus!
