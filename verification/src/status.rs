//! Texts that tell what a gesture does.

use crate::drag::PianoDrag;
use crate::fixed::{max_i64, max_of, min_i64, min_of, POSITION_LIMIT, TICKS_PER_BEAT};
use crate::labels::{
    beats_text, cc_kind_label, controller_display_value, display_value, kind_label, plural, plural_text, push_beats,
    push_signed, signed_text,
};
use crate::midi::{MidiControllerKind, DEFAULT_NOTE_VELOCITY};
use crate::pitch::{note_name, pitch_name};
use crate::roll::PianoRoll;
use crate::text::{decimal_text, natural_text, push_decimal, push_natural};
use vstd::prelude::*;

verus! {

/// The status line of the toolbar.
pub open spec fn status_text(roll: PianoRoll, note_count: int, sel_count: int) -> Seq<char> {
    natural_text(note_count) + " notes · "@ + natural_text(sel_count) + " sel · "@ + roll.gesture_text()
}

/// A whole number with its sign.
pub open spec fn signed_number(n: int) -> Seq<char> {
    if n < 0 {
        decimal_text(n)
    } else {
        "+"@ + decimal_text(n)
    }
}

fn push_signed_number(out: &mut String, n: i64)
    ensures
        final(out)@ == old(out)@ + signed_number(n as int),
{
    if n >= 0 {
        out.append("+");
    }
    push_decimal(out, n);
    proof {
        if n >= 0 {
            assert(out@ =~= old(out)@ + ("+"@ + decimal_text(n as int)));
        }
    }
}

/// `" · 3 notes"`, with the right plural.
pub open spec fn note_count_text(count: int) -> Seq<char> {
    " · "@ + natural_text(count) + " note"@ + plural_text(count)
}

fn push_note_count(out: &mut String, count: usize)
    ensures
        final(out)@ == old(out)@ + note_count_text(count as int),
{
    out.append(" · ");
    push_natural(out, count as u64);
    out.append(" note");
    out.append(plural(count));
    assert(out@ =~= old(out)@ + note_count_text(count as int));
}

pub open spec fn paint_text(value: int, count: int) -> Seq<char> {
    "Paint "@ + natural_text(value) + note_count_text(count)
}

/// While velocities are painted.
pub fn paint_status(value: u8, count: usize) -> (s: String)
    ensures
        s@ == paint_text(value as int, count as int),
{
    let mut s = "Paint ".to_owned();
    push_natural(&mut s, value as u64);
    push_note_count(&mut s, count);
    s
}

pub open spec fn line_text(from: int, to: int, from_beat: int, to_beat: int) -> Seq<char> {
    "Linear "@ + natural_text(from) + "→"@ + natural_text(to) + " · "@ + beats_text(from_beat) + ".."@ + beats_text(
        to_beat,
    )
}

/// While a velocity ramp is drawn.
pub fn line_status(from: u8, to: u8, from_beat: i64, to_beat: i64) -> (s: String)
    requires
        -8 * POSITION_LIMIT <= from_beat <= 8 * POSITION_LIMIT,
        -8 * POSITION_LIMIT <= to_beat <= 8 * POSITION_LIMIT,
    ensures
        s@ == line_text(from as int, to as int, from_beat as int, to_beat as int),
{
    let mut s = "Linear ".to_owned();
    push_natural(&mut s, from as u64);
    s.append("→");
    push_natural(&mut s, to as u64);
    s.append(" · ");
    push_beats(&mut s, from_beat);
    s.append("..");
    push_beats(&mut s, to_beat);
    s
}

pub open spec fn absolute_text(value: int, count: int) -> Seq<char> {
    "Velocity: "@ + natural_text(value) + " · absolute"@ + note_count_text(count)
}

/// While velocities are set to one value.
pub fn absolute_status(value: u8, count: usize) -> (s: String)
    ensures
        s@ == absolute_text(value as int, count as int),
{
    let mut s = "Velocity: ".to_owned();
    push_natural(&mut s, value as u64);
    s.append(" · absolute");
    push_note_count(&mut s, count);
    s
}

pub open spec fn relative_text(anchor: int, delta: int, fine: bool, count: int) -> Seq<char> {
    "Anchor "@ + natural_text(anchor) + " · Δ"@ + signed_number(delta) + (if fine {
        " fine"@
    } else {
        ""@
    }) + note_count_text(count)
}

/// While velocities change together.
pub fn relative_status(anchor: u8, delta: i32, fine: bool, count: usize) -> (s: String)
    ensures
        s@ == relative_text(anchor as int, delta as int, fine, count as int),
{
    let mut s = "Anchor ".to_owned();
    push_natural(&mut s, anchor as u64);
    s.append(" · Δ");
    push_signed_number(&mut s, delta as i64);
    s.append(
        if fine {
            " fine"
        } else {
            ""
        },
    );
    push_note_count(&mut s, count);
    s
}

pub open spec fn reset_text(count: int) -> Seq<char> {
    "Velocity: "@ + natural_text(DEFAULT_NOTE_VELOCITY as int) + note_count_text(count)
}

/// After velocities are reset.
pub fn reset_status(count: usize) -> (s: String)
    ensures
        s@ == reset_text(count as int),
{
    let mut s = "Velocity: ".to_owned();
    push_natural(&mut s, DEFAULT_NOTE_VELOCITY as u64);
    push_note_count(&mut s, count);
    s
}

pub open spec fn grabbed_text(velocity: int, count: int) -> Seq<char> {
    if count == 1 {
        "Velocity: "@ + natural_text(velocity) + " · Δ+0"@
    } else {
        "Anchor "@ + natural_text(velocity) + " · Δ+0 · "@ + natural_text(count) + " notes"@
    }
}

/// When a velocity bar is grabbed.
pub fn grabbed_status(velocity: u8, count: usize) -> (s: String)
    ensures
        s@ == grabbed_text(velocity as int, count as int),
{
    if count == 1 {
        let mut s = "Velocity: ".to_owned();
        push_natural(&mut s, velocity as u64);
        s.append(" · Δ+0");
        s
    } else {
        let mut s = "Anchor ".to_owned();
        push_natural(&mut s, velocity as u64);
        s.append(" · Δ+0 · ");
        push_natural(&mut s, count as u64);
        s.append(" notes");
        s
    }
}

pub open spec fn cc_text(kind: MidiControllerKind, value: int, free: bool) -> Seq<char> {
    kind_label(kind) + ": "@ + display_value(kind, value) + (if free {
        " · free"@
    } else {
        ""@
    })
}

/// While a controller value is drawn.
pub fn cc_status(kind: MidiControllerKind, value: i64, free: bool) -> (s: String)
    ensures
        s@ == cc_text(kind, value as int, free),
{
    let mut s = cc_kind_label(kind);
    s.append(": ");
    s.append(controller_display_value(kind, value).as_str());
    s.append(
        if free {
            " · free"
        } else {
            ""
        },
    );
    s
}

pub open spec fn cc_move_text(kind: MidiControllerKind, value: int, d_beat: int, count: int) -> Seq<char> {
    if count == 1 {
        kind_label(kind) + ": "@ + display_value(kind, value)
    } else {
        kind_label(kind) + " Δbeat "@ + signed_text(d_beat, TICKS_PER_BEAT as int) + " · "@ + natural_text(count)
            + " pts"@
    }
}

/// While controller points move.
pub fn cc_move_status(kind: MidiControllerKind, value: i64, d_beat: i64, count: usize) -> (s: String)
    requires
        -8 * POSITION_LIMIT <= d_beat <= 8 * POSITION_LIMIT,
    ensures
        s@ == cc_move_text(kind, value as int, d_beat as int, count as int),
{
    let mut s = cc_kind_label(kind);
    if count == 1 {
        s.append(": ");
        s.append(controller_display_value(kind, value).as_str());
    } else {
        s.append(" Δbeat ");
        push_signed(&mut s, d_beat, 960_000);
        s.append(" · ");
        push_natural(&mut s, count as u64);
        s.append(" pts");
    }
    s
}

pub open spec fn cc_line_text(kind: MidiControllerKind, from: int, to: int) -> Seq<char> {
    kind_label(kind) + " line: "@ + display_value(kind, from) + "→"@ + display_value(kind, to)
}

/// While a controller ramp is drawn.
pub fn cc_line_status(kind: MidiControllerKind, from: i64, to: i64) -> (s: String)
    ensures
        s@ == cc_line_text(kind, from as int, to as int),
{
    let mut s = cc_kind_label(kind);
    s.append(" line: ");
    s.append(controller_display_value(kind, from).as_str());
    s.append("→");
    s.append(controller_display_value(kind, to).as_str());
    s
}

pub open spec fn seek_text(beat: int) -> Seq<char> {
    "Seek "@ + beats_text(beat)
}

/// While the playhead is dragged.
pub fn seek_status(beat: i64) -> (s: String)
    requires
        -8 * POSITION_LIMIT <= beat <= 8 * POSITION_LIMIT,
    ensures
        s@ == seek_text(beat as int),
{
    let mut s = "Seek ".to_owned();
    push_beats(&mut s, beat);
    s
}

pub open spec fn event_text(label: Seq<char>, beat: int) -> Seq<char> {
    label + " @ "@ + beats_text(beat)
}

/// While an articulation moves.
pub fn event_status(label: &str, beat: i64) -> (s: String)
    requires
        -8 * POSITION_LIMIT <= beat <= 8 * POSITION_LIMIT,
    ensures
        s@ == event_text(label@, beat as int),
{
    let mut s = label.to_owned();
    s.append(" @ ");
    push_beats(&mut s, beat);
    s
}

/// The given text, or another where there is none.
pub open spec fn text_or(t: Option<String>, other: Seq<char>) -> Seq<char> {
    match t {
        Some(s) => s@,
        None => other,
    }
}

fn copy_or(t: &Option<String>, other: &str) -> (s: String)
    ensures
        s@ == text_or(*t, other@),
{
    match t {
        Some(s) => s.clone(),
        None => other.to_owned(),
    }
}

impl PianoRoll {
    /// What the pointer is over.
    pub open spec fn pointer_text(self) -> Seq<char> {
        match (self.hover_pitch, self.hover_beat) {
            (Some(pitch), Some(beat)) => pitch_name(pitch as int) + " @ "@ + beats_text(beat as int),
            _ => "Pointer: —"@,
        }
    }

    /// What the gesture in progress does.
    pub open spec fn gesture_text(self) -> Seq<char> {
        match self.drag {
            PianoDrag::Velocity(d) => text_or(
                self.drag_value_status,
                "Vel drag"@ + note_count_text(d.prev@.len() as int),
            ),
            PianoDrag::VelocityPaint(d) => text_or(
                self.drag_value_status,
                "Velocity paint · "@ + natural_text(d.touched@.len() as int) + " notes"@,
            ),
            PianoDrag::VelocityLine(d) => text_or(
                self.drag_value_status,
                "Velocity line · "@ + natural_text(d.affected@.len() as int) + " notes"@,
            ),
            PianoDrag::VelocitySelect(_, m) => if m.dragging {
                "Velocity select · "@ + m.mode.spec_label()
            } else {
                "Velocity select"@
            },
            PianoDrag::DrawNote(d) => {
                let lo = min_of(d.start_beat as int, d.end_beat as int);
                let hi = max_of(d.start_beat as int, d.end_beat as int);
                "Draw "@ + pitch_name(d.pitch as int) + " · "@ + beats_text(lo) + "+"@ + beats_text(
                    max_of(hi - lo, self.step()),
                )
            },
            PianoDrag::Move(d) => "Move Δ"@ + beats_text(d.dx_beats as int) + " beat Δ"@ + decimal_text(d.dpitch as int)
                + " st"@,
            PianoDrag::Resize(d) => "Length "@ + beats_text(d.new_dur as int),
            PianoDrag::CcPaint(d) => text_or(
                self.drag_value_status,
                if d.erase {
                    "CC erase"@
                } else {
                    "CC draw"@
                },
            ),
            PianoDrag::CcMove(_) => text_or(self.drag_value_status, "CC move"@),
            PianoDrag::CcLine(_) => text_or(self.drag_value_status, "CC line"@),
            PianoDrag::CcSelect(_, _, m) => if m.dragging {
                "CC select · "@ + m.mode.spec_label()
            } else {
                "CC select"@
            },
            PianoDrag::ArtMove(_) => text_or(self.drag_value_status, "Articulation move"@),
            PianoDrag::RulerSeek => text_or(self.drag_value_status, "Seek"@),
            PianoDrag::EraseNotes(d) => "Erase "@ + natural_text(d.erased@.len() as int) + " note"@ + plural_text(
                d.erased@.len() as int,
            ),
            PianoDrag::MarqueeSelect(m) => if m.dragging {
                "Select · "@ + m.mode.spec_label()
            } else {
                "Select"@
            },
            PianoDrag::Pan(_, _) => "Pan"@,
            PianoDrag::Idle => text_or(self.hover_note_status, self.pointer_text()),
        }
    }

    fn pointer_status(&self) -> (s: String)
        requires
            self.valid(),
        ensures
            s@ == self.pointer_text(),
    {
        match (self.hover_pitch, self.hover_beat) {
            (Some(pitch), Some(beat)) => {
                let mut s = note_name(pitch as i32);
                s.append(" @ ");
                push_beats(&mut s, beat);
                s
            },
            _ => "Pointer: —".to_owned(),
        }
    }

    fn counted(&self, head: &str, count: usize) -> (s: String)
        ensures
            s@ == text_or(self.drag_value_status, head@ + natural_text(count as int) + " notes"@),
    {
        match &self.drag_value_status {
            Some(t) => t.clone(),
            None => {
                let mut s = head.to_owned();
                push_natural(&mut s, count as u64);
                s.append(" notes");
                s
            },
        }
    }

    fn selecting(head: &str, m: &crate::marquee::Marquee) -> (s: String)
        ensures
            s@ == (if m.dragging {
                head@ + " · "@ + m.mode.spec_label()
            } else {
                head@
            }),
    {
        let mut s = head.to_owned();
        if m.dragging {
            s.append(" · ");
            s.append(m.mode.label());
        }
        s
    }

    fn gesture_status(&self) -> (s: String)
        requires
            self.valid(),
        ensures
            s@ == self.gesture_text(),
    {
        match &self.drag {
            PianoDrag::Velocity(d) => match &self.drag_value_status {
                Some(t) => t.clone(),
                None => {
                    let mut s = "Vel drag".to_owned();
                    push_note_count(&mut s, d.prev.len());
                    s
                },
            },
            PianoDrag::VelocityPaint(d) => self.counted("Velocity paint · ", d.touched.len()),
            PianoDrag::VelocityLine(d) => self.counted("Velocity line · ", d.affected.len()),
            PianoDrag::VelocitySelect(_, m) => {
                proof {
                    reveal_strlit("Velocity select · ");
                    reveal_strlit("Velocity select");
                    reveal_strlit(" · ");
                    assert("Velocity select · "@ =~= "Velocity select"@ + " · "@);
                }
                Self::selecting("Velocity select", m)
            },
            PianoDrag::DrawNote(d) => {
                let lo = min_i64(d.start_beat, d.end_beat);
                let hi = max_i64(d.start_beat, d.end_beat);
                let mut s = "Draw ".to_owned();
                s.append(note_name(d.pitch as i32).as_str());
                s.append(" · ");
                push_beats(&mut s, lo);
                s.append("+");
                push_beats(&mut s, max_i64(hi - lo, self.step_beats()));
                s
            },
            PianoDrag::Move(d) => {
                let mut s = "Move Δ".to_owned();
                push_beats(&mut s, d.dx_beats);
                s.append(" beat Δ");
                push_decimal(&mut s, d.dpitch as i64);
                s.append(" st");
                s
            },
            PianoDrag::Resize(d) => {
                let mut s = "Length ".to_owned();
                push_beats(&mut s, d.new_dur);
                s
            },
            PianoDrag::CcPaint(d) => copy_or(
                &self.drag_value_status,
                if d.erase {
                    "CC erase"
                } else {
                    "CC draw"
                },
            ),
            PianoDrag::CcMove(_) => copy_or(&self.drag_value_status, "CC move"),
            PianoDrag::CcLine(_) => copy_or(&self.drag_value_status, "CC line"),
            PianoDrag::CcSelect(_, _, m) => {
                proof {
                    reveal_strlit("CC select · ");
                    reveal_strlit("CC select");
                    reveal_strlit(" · ");
                    assert("CC select · "@ =~= "CC select"@ + " · "@);
                }
                Self::selecting("CC select", m)
            },
            PianoDrag::ArtMove(_) => copy_or(&self.drag_value_status, "Articulation move"),
            PianoDrag::RulerSeek => copy_or(&self.drag_value_status, "Seek"),
            PianoDrag::EraseNotes(d) => {
                let count = d.erased.len();
                let mut s = "Erase ".to_owned();
                push_natural(&mut s, count as u64);
                s.append(" note");
                s.append(plural(count));
                s
            },
            PianoDrag::MarqueeSelect(m) => {
                proof {
                    reveal_strlit("Select · ");
                    reveal_strlit("Select");
                    reveal_strlit(" · ");
                    assert("Select · "@ =~= "Select"@ + " · "@);
                }
                Self::selecting("Select", m)
            },
            PianoDrag::Pan(_, _) => "Pan".to_owned(),
            PianoDrag::Idle => match &self.hover_note_status {
                Some(t) => t.clone(),
                None => self.pointer_status(),
            },
        }
    }

    /// The status line of the toolbar.
    pub fn toolbar_status(&self, note_count: usize, sel_count: usize) -> (s: String)
        requires
            self.valid(),
        ensures
            s@ == status_text(*self, note_count as int, sel_count as int),
    {
        let mut s = "".to_owned();
        push_natural(&mut s, note_count as u64);
        proof {
            reveal_strlit("");
            assert(s@ =~= natural_text(note_count as int));
        }
        s.append(" notes · ");
        push_natural(&mut s, sel_count as u64);
        s.append(" sel · ");
        s.append(self.gesture_status().as_str());
        s
    }
}

} // verus!
