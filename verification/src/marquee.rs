//! Selection by a dragged rectangle.

use crate::fixed::on_axis;
use crate::id_set::IdSet;
use crate::rect::{moved_past_threshold, normalized_marquee_rect, past_threshold, Rect};
use vstd::prelude::*;

verus! {

/// Modifier keys.
#[derive(Debug, Clone, Copy, PartialEq, Eq, Structural)]
pub struct Modifiers {
    pub control: bool,
    pub alt: bool,
    pub shift: bool,
    /// The platform's command key.
    pub platform: bool,
}

/// How a marquee changes the selection.
#[derive(Debug, Clone, Copy, PartialEq, Eq, Structural)]
pub enum MarqueeSelectionMode {
    Replace,
    Add,
    Toggle,
    Subtract,
}

impl MarqueeSelectionMode {
    /// Mode that the modifiers ask for: Alt takes away, Ctrl or the command key
    /// toggles, Shift adds.
    pub open spec fn for_modifiers(m: Modifiers) -> MarqueeSelectionMode {
        if m.alt {
            MarqueeSelectionMode::Subtract
        } else if m.control || m.platform {
            MarqueeSelectionMode::Toggle
        } else if m.shift {
            MarqueeSelectionMode::Add
        } else {
            MarqueeSelectionMode::Replace
        }
    }

    /// Mode that the modifiers ask for.
    pub fn from_modifiers(m: Modifiers) -> (mode: MarqueeSelectionMode)
        ensures
            mode == MarqueeSelectionMode::for_modifiers(m),
    {
        if m.alt {
            MarqueeSelectionMode::Subtract
        } else if m.control || m.platform {
            MarqueeSelectionMode::Toggle
        } else if m.shift {
            MarqueeSelectionMode::Add
        } else {
            MarqueeSelectionMode::Replace
        }
    }

    /// Name of the mode in the status line.
    pub open spec fn spec_label(self) -> Seq<char> {
        match self {
            MarqueeSelectionMode::Replace => "Replace"@,
            MarqueeSelectionMode::Add => "Add"@,
            MarqueeSelectionMode::Toggle => "Toggle"@,
            MarqueeSelectionMode::Subtract => "Subtract"@,
        }
    }

    /// Name of the mode in the status line.
    pub fn label(self) -> (s: &'static str)
        ensures
            s@ == self.spec_label(),
    {
        match self {
            MarqueeSelectionMode::Replace => "Replace",
            MarqueeSelectionMode::Add => "Add",
            MarqueeSelectionMode::Toggle => "Toggle",
            MarqueeSelectionMode::Subtract => "Subtract",
        }
    }
}

/// Selection that a marquee makes of the one before it and what it hits.
pub open spec fn marquee_selection(before: Set<u64>, hits: Set<u64>, mode: MarqueeSelectionMode) -> Set<u64> {
    match mode {
        MarqueeSelectionMode::Replace => hits,
        MarqueeSelectionMode::Add => before.union(hits),
        MarqueeSelectionMode::Toggle => before.difference(hits).union(hits.difference(before)),
        MarqueeSelectionMode::Subtract => before.difference(hits),
    }
}

/// Selection that a marquee makes of the one before it and what it hits.
pub fn apply_marquee_mode(before: &IdSet, hits: &IdSet, mode: MarqueeSelectionMode) -> (s: IdSet)
    ensures
        s@ == marquee_selection(before@, hits@, mode),
{
    match mode {
        MarqueeSelectionMode::Replace => hits.copy(),
        MarqueeSelectionMode::Add => before.union(hits),
        MarqueeSelectionMode::Toggle => before.symmetric_difference(hits),
        MarqueeSelectionMode::Subtract => before.difference(hits),
    }
}

/// Toggling the same hits twice gives the selection back; adding and then
/// subtracting them leaves none of them; a marquee that hits nothing changes
/// nothing unless it replaces.
pub proof fn law_marquee_modes(before: Set<u64>, hits: Set<u64>)
    ensures
        marquee_selection(
            marquee_selection(before, hits, MarqueeSelectionMode::Toggle),
            hits,
            MarqueeSelectionMode::Toggle,
        ) == before,
        marquee_selection(
            marquee_selection(before, hits, MarqueeSelectionMode::Add),
            hits,
            MarqueeSelectionMode::Subtract,
        ) == before.difference(hits),
        marquee_selection(before, Set::empty(), MarqueeSelectionMode::Add) == before,
        marquee_selection(before, Set::empty(), MarqueeSelectionMode::Toggle) == before,
        marquee_selection(before, Set::empty(), MarqueeSelectionMode::Subtract) == before,
{
    assert(marquee_selection(
        marquee_selection(before, hits, MarqueeSelectionMode::Toggle),
        hits,
        MarqueeSelectionMode::Toggle,
    ) =~= before);
    assert(marquee_selection(
        marquee_selection(before, hits, MarqueeSelectionMode::Add),
        hits,
        MarqueeSelectionMode::Subtract,
    ) =~= before.difference(hits));
    assert(marquee_selection(before, Set::empty(), MarqueeSelectionMode::Add) =~= before);
    assert(marquee_selection(before, Set::empty(), MarqueeSelectionMode::Toggle) =~= before);
    assert(marquee_selection(before, Set::empty(), MarqueeSelectionMode::Subtract) =~= before);
}

/// A rectangle that is being dragged out.
#[derive(Debug, Clone, Copy, PartialEq, Eq, Structural)]
pub struct Marquee {
    pub start_x: i64,
    pub start_y: i64,
    pub current_x: i64,
    pub current_y: i64,
    pub mode: MarqueeSelectionMode,
    /// The pointer has moved past the threshold.
    pub dragging: bool,
}

impl Marquee {
    /// Both corners lie on the axes.
    pub open spec fn valid(self) -> bool {
        on_axis(self.start_x as int) && on_axis(self.start_y as int)
    }

    /// A marquee that was just pressed.
    pub open spec fn pressed(x: i64, y: i64, mode: MarqueeSelectionMode) -> Marquee {
        Marquee { start_x: x, start_y: y, current_x: x, current_y: y, mode, dragging: false }
    }

    /// A marquee pressed at a point.
    pub fn at(x: i64, y: i64, mode: MarqueeSelectionMode) -> (m: Marquee)
        ensures
            m == Marquee::pressed(x, y, mode),
    {
        Marquee { start_x: x, start_y: y, current_x: x, current_y: y, mode, dragging: false }
    }

    /// The marquee with its free corner moved. Once past the threshold it stays
    /// a drag.
    pub open spec fn dragged_to(self, x: i64, y: i64) -> Marquee {
        Marquee {
            current_x: x,
            current_y: y,
            dragging: self.dragging || past_threshold(x - self.start_x, y - self.start_y),
            ..self
        }
    }

    /// Moves the free corner.
    pub fn drag_to(&self, x: i64, y: i64) -> (m: Marquee)
        requires
            self.valid(),
            on_axis(x as int),
            on_axis(y as int),
        ensures
            m == self.dragged_to(x, y),
    {
        Marquee {
            start_x: self.start_x,
            start_y: self.start_y,
            current_x: x,
            current_y: y,
            mode: self.mode,
            dragging: self.dragging || moved_past_threshold(x - self.start_x, y - self.start_y),
        }
    }

    /// The part of the view between the two corners.
    pub open spec fn area(self, view_w: int, view_h: int) -> Rect {
        let b = crate::rect::marquee_between(
            self.start_x as int,
            self.start_y as int,
            self.current_x as int,
            self.current_y as int,
            view_w,
            view_h,
        );
        Rect { left: b.0 as i64, top: b.1 as i64, right: b.2 as i64, bottom: b.3 as i64 }
    }

    /// The marquee's rectangle inside a view.
    pub fn rect(&self, view_w: i64, view_h: i64) -> (r: Rect)
        ensures
            r == self.area(view_w as int, view_h as int),
    {
        normalized_marquee_rect(self.start_x, self.start_y, self.current_x, self.current_y, view_w, view_h)
    }
}

/// What a marquee leaves selected: alone what it meets, that and what was
/// selected, what was selected but not met, or of both what is in only one.
pub proof fn law_marquee_modes_by_membership(before: Set<u64>, hits: Set<u64>, id: u64)
    ensures
        marquee_selection(before, hits, MarqueeSelectionMode::Replace).contains(id) <==> hits.contains(id),
        marquee_selection(before, hits, MarqueeSelectionMode::Add).contains(id) <==> before.contains(id)
            || hits.contains(id),
        marquee_selection(before, hits, MarqueeSelectionMode::Subtract).contains(id) <==> before.contains(id)
            && !hits.contains(id),
        marquee_selection(before, hits, MarqueeSelectionMode::Toggle).contains(id) <==> before.contains(id)
            != hits.contains(id),
{
}

/// Without a key a marquee selects anew; shift adds, control turns over and alt
/// takes away, each before the one named before it.
pub proof fn law_keys_choose_the_marquee(m: Modifiers)
    ensures
        m.alt ==> MarqueeSelectionMode::for_modifiers(m) == MarqueeSelectionMode::Subtract,
        !m.alt && (m.control || m.platform) ==> MarqueeSelectionMode::for_modifiers(m) == MarqueeSelectionMode::Toggle,
        !m.alt && !m.control && !m.platform && m.shift ==> MarqueeSelectionMode::for_modifiers(m)
            == MarqueeSelectionMode::Add,
        !m.alt && !m.control && !m.platform && !m.shift ==> MarqueeSelectionMode::for_modifiers(m)
            == MarqueeSelectionMode::Replace,
{
}

} // verus!
