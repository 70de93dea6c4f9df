//! The scale that pitches are held to.

use crate::note_edits::{dragged_pitch, pitch_table, shifted_pitch};
use vstd::prelude::*;

verus! {

/// A scale, by the places of its root and its kind in the lists on offer.
#[derive(Debug, Clone, Copy, PartialEq, Eq, Structural)]
pub struct Scale {
    pub root: usize,
    pub kind: usize,
}

/// The active scale, and whether pitches that are drawn or dragged are held to
/// it.
#[derive(Debug, Clone, Copy, PartialEq, Eq, Structural)]
pub struct PitchContext {
    pub scale: Scale,
    pub constrain: bool,
}

/// A table that holds every pitch to itself.
#[verifier::opaque]
pub open spec fn chromatic(map: Seq<u8>) -> bool {
    map.len() == 128 && forall|i: int| 0 <= i < 128 ==> #[trigger] map[i] == i
}

/// A table that holds every pitch to itself.
pub fn chromatic_map() -> (map: Vec<u8>)
    ensures
        chromatic(map@),
        pitch_table(map@),
{
    let mut map: Vec<u8> = Vec::new();
    let mut i: u8 = 0;
    while i < 128
        invariant
            i <= 128,
            map@.len() == i,
            forall|k: int| 0 <= k < i ==> #[trigger] map@[k] == k,
        decreases 128 - i,
    {
        map.push(i);
        i = i + 1;
    }
    proof {
        reveal(chromatic);
    }
    map
}

/// The scales on offer: the names of the roots and of the kinds, and for each
/// root and each kind in turn the nearest pitch of that scale to every pitch.
pub struct ScaleChoices<'a> {
    pub roots: &'a Vec<String>,
    pub kinds: &'a Vec<String>,
    pub tables: &'a Vec<Vec<u8>>,
}

impl<'a> ScaleChoices<'a> {
    /// There is a table for every scale.
    pub open spec fn valid(self) -> bool {
        &&& self.tables@.len() == self.roots@.len() * self.kinds@.len()
        &&& forall|i: int| 0 <= i < self.tables@.len() ==> pitch_table((#[trigger] self.tables@[i])@)
    }

    /// The scale is on offer.
    pub open spec fn offers(self, scale: Scale) -> bool {
        scale.root < self.roots@.len() && scale.kind < self.kinds@.len()
    }

    /// The nearest pitches of a scale.
    pub open spec fn nearest_pitches(self, scale: Scale) -> Seq<u8> {
        self.tables@[scale.root * self.kinds@.len() + scale.kind]@
    }

    /// `map` is what pitches are held to: the scale while it is locked, and else
    /// themselves.
    pub open spec fn holds(self, ctx: PitchContext, map: Seq<u8>) -> bool {
        if ctx.constrain {
            map == self.nearest_pitches(ctx.scale)
        } else {
            chromatic(map)
        }
    }

    /// What pitches are held to.
    pub fn held_pitches(&self, ctx: PitchContext) -> (map: Vec<u8>)
        requires
            self.valid(),
            self.offers(ctx.scale),
        ensures
            self.holds(ctx, map@),
            pitch_table(map@),
    {
        if !ctx.constrain {
            return chromatic_map();
        }
        proof {
            assert(self.tables.len() == self.tables@.len());
            assert(ctx.scale.root * self.kinds@.len() + ctx.scale.kind < self.roots@.len() * self.kinds@.len())
                by (nonlinear_arith)
                requires
                    ctx.scale.root + 1 <= self.roots@.len(),
                    ctx.scale.kind < self.kinds@.len(),
            ;
            assert(0 <= ctx.scale.root * self.kinds@.len()) by (nonlinear_arith)
                requires
                    0 <= ctx.scale.root,
            ;
        }
        let table = &self.tables[ctx.scale.root * self.kinds.len() + ctx.scale.kind];
        assert(pitch_table(table@));
        let mut map: Vec<u8> = Vec::new();
        let mut i: usize = 0;
        while i < table.len()
            invariant
                i <= table@.len(),
                map@ == table@.subrange(0, i as int),
            decreases table@.len() - i,
        {
            map.push(table[i]);
            assert(map@ =~= table@.subrange(0, i + 1));
            i = i + 1;
        }
        assert(map@ =~= table@);
        map
    }
}

/// While the scale is not locked, a pitch that is dragged goes where it is
/// dragged to.
pub proof fn law_unlocked_pitches_move_freely(
    scales: ScaleChoices,
    ctx: PitchContext,
    map: Seq<u8>,
    pitch: int,
    semitones: int,
)
    requires
        !ctx.constrain,
        scales.holds(ctx, map),
    ensures
        dragged_pitch(map, pitch, semitones) == shifted_pitch(pitch, semitones),
{
    reveal(chromatic);
}

} // verus!
