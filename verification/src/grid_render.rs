//! Lines and fills of the grid on whole device pixels.

use crate::fixed::{
    lemma_nearest_bound, lemma_nearest_monotone, lemma_nearest_of_near, max_i64, max_of, nearest, nearest_div, PX,
};
use crate::lane_image::{scale_used, SCALE_LIMIT, SCALE_MIN};
use crate::midi::lemma_filter_step;
use vstd::prelude::*;

verus! {

/// Device pixel that a place falls on.
pub open spec fn device_place(v: int, scale: int) -> int {
    nearest(v * scale_used(scale), PX * PX)
}

/// Where a device pixel starts.
pub open spec fn logical_place(k: int, scale: int) -> int {
    nearest(k * (PX * PX), scale_used(scale))
}

/// A place on the grid of device pixels.
pub open spec fn on_device(v: int, scale: int) -> int {
    logical_place(device_place(v, scale), scale)
}

/// Thickness of a line: one pixel, in whole device pixels.
pub open spec fn line_width(scale: int) -> int {
    logical_place(max_of(nearest(scale_used(scale), PX as int), 1), scale)
}

/// A place that is on a device pixel stays.
pub proof fn law_snapping_again_changes_nothing(v: int, scale: int)
    requires
        scale <= SCALE_LIMIT,
    ensures
        on_device(on_device(v, scale), scale) == on_device(v, scale),
{
    let s = scale_used(scale);
    let k = device_place(v, scale);
    let p = logical_place(k, scale);
    lemma_nearest_bound(k * (PX * PX), s);
    lemma_nearest_of_near(p * s, PX * PX, k);
}

/// Places keep their order, so that rows that share an edge still share it.
pub proof fn law_snapping_keeps_order(a: int, b: int, scale: int)
    requires
        a <= b,
    ensures
        on_device(a, scale) <= on_device(b, scale),
{
    let s = scale_used(scale);
    assert(a * s <= b * s) by (nonlinear_arith)
        requires
            a <= b,
            s > 0,
    ;
    lemma_nearest_monotone(a * s, b * s, PX * PX);
    let i = device_place(a, scale);
    let j = device_place(b, scale);
    assert(i * (PX * PX) <= j * (PX * PX)) by (nonlinear_arith)
        requires
            i <= j,
    ;
    lemma_nearest_monotone(i * (PX * PX), j * (PX * PX), s);
}

fn logical_of(k: i128, scale: i64) -> (r: i64)
    requires
        -0x1_0000_0000_0000 <= k <= 0x1_0000_0000_0000,
        SCALE_MIN <= scale <= SCALE_LIMIT,
        -0x100_0000_0000_0000 * scale <= k * (PX * PX) <= 0x100_0000_0000_0000 * scale,
    ensures
        r == nearest(k * (PX * PX), scale as int),
        -0x200_0000_0000_0000 <= r <= 0x200_0000_0000_0000,
{
    let q = nearest_div(k * 1_000_000_000_000, scale as i128);
    proof {
        let n = k * 1_000_000_000_000;
        lemma_nearest_bound(n, scale as int);
        assert(-0x200_0000_0000_0000 <= q <= 0x200_0000_0000_0000) by (nonlinear_arith)
            requires
                -scale <= 2 * (q * scale - n) <= scale,
                -0x100_0000_0000_0000 * scale <= n <= 0x100_0000_0000_0000 * scale,
                scale >= 1,
        ;
    }
    q as i64
}

/// A place on the grid of device pixels.
pub fn snap(v: i64, scale: i64) -> (r: i64)
    requires
        -0x40_0000_0000 <= v <= 0x40_0000_0000,
        scale <= SCALE_LIMIT,
    ensures
        r == on_device(v as int, scale as int),
        -0x200_0000_0000_0000 <= r <= 0x200_0000_0000_0000,
{
    let s = max_i64(scale, SCALE_MIN);
    assert(-0x40_0000_0000 * 64_000_000 <= v * s <= 0x40_0000_0000 * 64_000_000) by (nonlinear_arith)
        requires
            -0x40_0000_0000 <= v <= 0x40_0000_0000,
            0 <= s <= 64_000_000,
    ;
    let k = nearest_div(v as i128 * s as i128, 1_000_000_000_000);
    proof {
        lemma_nearest_bound(v * s, 1_000_000_000_000);
        assert(-0x100_0000_0000_0000 * s <= k * 1_000_000_000_000 <= 0x100_0000_0000_0000 * s) by (nonlinear_arith)
            requires
                -1_000_000_000_000 <= 2 * (k * 1_000_000_000_000 - v * s) <= 1_000_000_000_000,
                -0x40_0000_0000 <= v <= 0x40_0000_0000,
                500_000 <= s <= 64_000_000,
        ;
    }
    logical_of(k, s)
}

/// Thickness of a line.
pub fn hairline(scale: i64) -> (r: i64)
    requires
        scale <= SCALE_LIMIT,
    ensures
        r == line_width(scale as int),
        0 <= r <= 0x200_0000_0000_0000,
{
    let s = max_i64(scale, SCALE_MIN);
    let n = nearest_div(s as i128, 1_000_000);
    proof {
        lemma_nearest_bound(s as int, 1_000_000);
    }
    let k: i128 = if n < 1 {
        1
    } else {
        n
    };
    assert(0 <= k * 1_000_000_000_000 <= 0x100_0000_0000_0000 * s) by (nonlinear_arith)
        requires
            1 <= k <= 100,
            500_000 <= s,
    ;
    proof {
        lemma_nearest_monotone(0, k * (PX * PX), s as int);
        crate::fixed::lemma_nearest_of_multiple(0, s as int);
        assert(0 * s == 0);
    }
    logical_of(k, s)
}

/// A fill between two edges, or a line at one.
#[derive(Debug, Clone, Copy, PartialEq, Eq, Structural)]
pub struct Fill {
    pub at: i64,
    pub length: i64,
    /// Which of the caller's colours.
    pub colour: u32,
}

/// Everything that the note grid paints, with edges before snapping.
#[derive(Debug)]
pub struct NoteGridSnapshot {
    pub scale: i64,
    /// Row fills: top, bottom and colour.
    pub rows: Vec<(i64, i64, u32)>,
    /// Row separators: the edge below which a row ends, and colour.
    pub row_lines: Vec<(i64, u32)>,
    /// Timing lines: place and colour.
    pub columns: Vec<(i64, u32)>,
}

impl NoteGridSnapshot {
    pub open spec fn valid(self) -> bool {
        &&& self.scale <= SCALE_LIMIT
        &&& forall|i: int|
            0 <= i < self.rows@.len() ==> paintable((#[trigger] self.rows@[i]).0 as int) && paintable(
                self.rows@[i].1 as int,
            )
        &&& forall|i: int| 0 <= i < self.row_lines@.len() ==> paintable((#[trigger] self.row_lines@[i]).0 as int)
        &&& forall|i: int| 0 <= i < self.columns@.len() ==> paintable((#[trigger] self.columns@[i]).0 as int)
    }
}

/// A place near enough to the window to be painted.
pub open spec fn paintable(v: int) -> bool {
    -0x40_0000_0000 <= v <= 0x40_0000_0000
}

/// The row has a height on the device.
pub open spec fn row_painted(row: (i64, i64, u32), scale: int) -> bool {
    on_device(row.0 as int, scale) < on_device(row.1 as int, scale)
}

/// The fill of a row.
pub open spec fn row_fill(row: (i64, i64, u32), scale: int) -> Fill {
    Fill {
        at: on_device(row.0 as int, scale) as i64,
        length: (on_device(row.1 as int, scale) - on_device(row.0 as int, scale)) as i64,
        colour: row.2,
    }
}

/// The fills of a grid.
#[derive(Debug)]
pub struct GridFills {
    pub rows: Vec<Fill>,
    pub row_lines: Vec<Fill>,
    pub columns: Vec<Fill>,
}

fn paint_rows(rows: &Vec<(i64, i64, u32)>, scale: i64) -> (out: Vec<Fill>)
    requires
        scale <= SCALE_LIMIT,
        forall|i: int| 0 <= i < rows@.len() ==> paintable((#[trigger] rows@[i]).0 as int) && paintable(rows@[i].1 as int),
    ensures
        out@ == rows@.filter(|r: (i64, i64, u32)| row_painted(r, scale as int)).map_values(
            |r: (i64, i64, u32)| row_fill(r, scale as int),
        ),
{
    let ghost p = |r: (i64, i64, u32)| row_painted(r, scale as int);
    let ghost f = |r: (i64, i64, u32)| row_fill(r, scale as int);
    let mut out: Vec<Fill> = Vec::new();
    let mut i: usize = 0;
    proof {
        reveal(Seq::filter);
        assert(rows@.subrange(0, 0).filter(p).map_values(f) =~= Seq::<Fill>::empty());
    }
    while i < rows.len()
        invariant
            scale <= SCALE_LIMIT,
            forall|k: int|
                0 <= k < rows@.len() ==> paintable((#[trigger] rows@[k]).0 as int) && paintable(rows@[k].1 as int),
            i <= rows@.len(),
            p == (|r: (i64, i64, u32)| row_painted(r, scale as int)),
            f == (|r: (i64, i64, u32)| row_fill(r, scale as int)),
            out@ == rows@.subrange(0, i as int).filter(p).map_values(f),
        decreases rows@.len() - i,
    {
        proof {
            lemma_filter_step(rows@, i as int, p);
        }
        let ghost front = rows@.subrange(0, i as int).filter(p);
        let row = rows[i];
        assert(paintable(rows@[i as int].0 as int) && paintable(rows@[i as int].1 as int));
        let top = snap(row.0, scale);
        let bottom = snap(row.1, scale);
        if bottom > top {
            let fill = Fill { at: top, length: bottom - top, colour: row.2 };
            out.push(fill);
            assert(front.push(rows@[i as int]).map_values(f) =~= front.map_values(f).push(fill));
        }
        i = i + 1;
    }
    assert(rows@.subrange(0, rows@.len() as int) =~= rows@);
    out
}

fn paint_lines(lines: &Vec<(i64, u32)>, scale: i64, inside: bool) -> (out: Vec<Fill>)
    requires
        scale <= SCALE_LIMIT,
        forall|i: int| 0 <= i < lines@.len() ==> paintable((#[trigger] lines@[i]).0 as int),
    ensures
        out@.len() == lines@.len(),
        forall|i: int|
            0 <= i < out@.len() ==> (#[trigger] out@[i]).at == on_device(lines@[i].0 as int, scale as int) - (if inside {
                line_width(scale as int)
            } else {
                0
            }) && out@[i].length == line_width(scale as int) && out@[i].colour == lines@[i].1,
{
    let line = hairline(scale);
    let back: i64 = if inside {
        line
    } else {
        0
    };
    let mut out: Vec<Fill> = Vec::new();
    let mut i: usize = 0;
    while i < lines.len()
        invariant
            scale <= SCALE_LIMIT,
            line == line_width(scale as int),
            0 <= back <= 0x200_0000_0000_0000,
            back == (if inside {
                line_width(scale as int)
            } else {
                0
            }),
            forall|k: int| 0 <= k < lines@.len() ==> paintable((#[trigger] lines@[k]).0 as int),
            i <= lines@.len(),
            out@.len() == i,
            forall|k: int|
                0 <= k < out@.len() ==> (#[trigger] out@[k]).at == on_device(lines@[k].0 as int, scale as int) - back
                    && out@[k].length == line && out@[k].colour == lines@[k].1,
        decreases lines@.len() - i,
    {
        let l = lines[i];
        assert(paintable(lines@[i as int].0 as int));
        out.push(Fill { at: snap(l.0, scale) - back, length: line, colour: l.1 });
        i = i + 1;
    }
    out
}

/// The fills of a grid: rows that keep a height, a line just inside the end of
/// each row, and a line at each timing place.
pub fn render_note_grid(snapshot: &NoteGridSnapshot) -> (g: GridFills)
    requires
        snapshot.valid(),
    ensures
        ({
            let scale = snapshot.scale as int;
            &&& g.rows@ == snapshot.rows@.filter(|r: (i64, i64, u32)| row_painted(r, scale)).map_values(
                |r: (i64, i64, u32)| row_fill(r, scale),
            )
            &&& g.row_lines@.len() == snapshot.row_lines@.len()
            &&& forall|i: int|
                0 <= i < g.row_lines@.len() ==> (#[trigger] g.row_lines@[i]).at == on_device(
                    snapshot.row_lines@[i].0 as int,
                    scale,
                ) - line_width(scale) && g.row_lines@[i].length == line_width(scale) && g.row_lines@[i].colour
                    == snapshot.row_lines@[i].1
            &&& g.columns@.len() == snapshot.columns@.len()
            &&& forall|i: int|
                0 <= i < g.columns@.len() ==> (#[trigger] g.columns@[i]).at == on_device(
                    snapshot.columns@[i].0 as int,
                    scale,
                ) && g.columns@[i].length == line_width(scale) && g.columns@[i].colour == snapshot.columns@[i].1
        }),
{
    GridFills {
        rows: paint_rows(&snapshot.rows, snapshot.scale),
        row_lines: paint_lines(&snapshot.row_lines, snapshot.scale, true),
        columns: paint_lines(&snapshot.columns, snapshot.scale, false),
    }
}

/// The timing lines of a lane under the grid.
pub fn render_lane_grid(scale: i64, columns: &Vec<(i64, u32)>) -> (out: Vec<Fill>)
    requires
        scale <= SCALE_LIMIT,
        forall|i: int| 0 <= i < columns@.len() ==> paintable((#[trigger] columns@[i]).0 as int),
    ensures
        out@.len() == columns@.len(),
        forall|i: int|
            0 <= i < out@.len() ==> (#[trigger] out@[i]).at == on_device(columns@[i].0 as int, scale as int)
                && out@[i].length == line_width(scale as int) && out@[i].colour == columns@[i].1,
{
    paint_lines(columns, scale, false)
}

} // verus!
