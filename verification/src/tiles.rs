//! Tile painting and erasing strokes: a drag fills or clears every cell of the rectangle
//! between the cell where it started and the cell under the pointer.
use vstd::prelude::*;

verus! {

/// The cells `(col, row)` of one row, columns `c0` to `c1`, left to right.
pub open spec fn row_cells(row: i32, c0: int, c1: int) -> Seq<(i32, i32)>
    decreases c1 - c0 + 1,
{
    if c1 < c0 {
        seq![]
    } else {
        row_cells(row, c0, c1 - 1).push((c1 as i32, row))
    }
}

/// The cells of rows `r0` to `r1`, row by row, each over columns `c0` to `c1`.
pub open spec fn rect_cells(r0: int, r1: int, c0: int, c1: int) -> Seq<(i32, i32)>
    decreases r1 - r0 + 1,
{
    if r1 < r0 {
        seq![]
    } else {
        rect_cells(r0, r1 - 1, c0, c1) + row_cells(r1 as i32, c0, c1)
    }
}

pub open spec fn lo(a: i32, b: i32) -> i32 {
    if a <= b { a } else { b }
}

pub open spec fn hi(a: i32, b: i32) -> i32 {
    if a <= b { b } else { a }
}

/// The rectangle between two corner cells, inclusive at both ends.
pub open spec fn stroke_rect(start: (i32, i32), current: (i32, i32)) -> Seq<(i32, i32)> {
    rect_cells(
        lo(start.1, current.1) as int,
        hi(start.1, current.1) as int,
        lo(start.0, current.0) as int,
        hi(start.0, current.0) as int,
    )
}

/// The cells a stroke from `start` to `current` covers, row by row from the lowest row,
/// each row from its lowest column.
pub fn stroke_cells(start: (i32, i32), current: (i32, i32)) -> (cells: Vec<(i32, i32)>)
    ensures
        cells@ == stroke_rect(start, current),
{
    let r0: i32 = if start.1 <= current.1 { start.1 } else { current.1 };
    let r1: i32 = if start.1 <= current.1 { current.1 } else { start.1 };
    let c0: i32 = if start.0 <= current.0 { start.0 } else { current.0 };
    let c1: i32 = if start.0 <= current.0 { current.0 } else { start.0 };
    let mut out: Vec<(i32, i32)> = Vec::new();
    let mut row: i64 = r0 as i64;
    while row <= r1 as i64
        invariant
            r0 <= row <= r1 as int + 1,
            c0 <= c1,
            out@ == rect_cells(r0 as int, row - 1, c0 as int, c1 as int),
        decreases r1 - row + 1,
    {
        let mut col: i64 = c0 as i64;
        let ghost above = out@;
        while col <= c1 as i64
            invariant
                r0 <= row <= r1,
                c0 <= col <= c1 as int + 1,
                out@ == above + row_cells(row as i32, c0 as int, col - 1),
            decreases c1 - col + 1,
        {
            out.push((col as i32, row as i32));
            assert(above + row_cells(row as i32, c0 as int, col as int) =~= (above + row_cells(
                row as i32,
                c0 as int,
                col - 1,
            )).push((col as i32, row as i32)));
            col = col + 1;
        }
        assert(rect_cells(r0 as int, row as int, c0 as int, c1 as int) == rect_cells(r0 as int, row - 1, c0 as int, c1 as int)
            + row_cells(row as i32, c0 as int, c1 as int));
        row = row + 1;
    }
    out
}

proof fn lemma_row_cells_contains(row: i32, c0: int, c1: int, cell: (i32, i32))
    requires
        i32::MIN <= c0,
        c1 <= i32::MAX,
    ensures
        row_cells(row, c0, c1).contains(cell) <==> (cell.1 == row && c0 <= cell.0 <= c1),
    decreases c1 - c0 + 1,
{
    if c1 >= c0 {
        lemma_row_cells_contains(row, c0, c1 - 1, cell);
        let s = row_cells(row, c0, c1 - 1);
        let t = s.push((c1 as i32, row));
        assert(t[s.len() as int] == (c1 as i32, row));
        if s.contains(cell) {
            let i = choose|i: int| 0 <= i < s.len() && s[i] == cell;
            assert(t[i] == cell);
        }
        if t.contains(cell) && !s.contains(cell) {
            let i = choose|i: int| 0 <= i < t.len() && t[i] == cell;
            if i < s.len() {
                assert(s[i] == cell);
            }
        }
    }
}

proof fn lemma_rect_cells_contains(r0: int, r1: int, c0: int, c1: int, cell: (i32, i32))
    requires
        i32::MIN <= r0,
        r1 <= i32::MAX,
        i32::MIN <= c0,
        c1 <= i32::MAX,
    ensures
        rect_cells(r0, r1, c0, c1).contains(cell) <==> (r0 <= cell.1 <= r1 && c0 <= cell.0 <= c1),
    decreases r1 - r0 + 1,
{
    if r1 >= r0 {
        lemma_rect_cells_contains(r0, r1 - 1, c0, c1, cell);
        lemma_row_cells_contains(r1 as i32, c0, c1, cell);
        let a = rect_cells(r0, r1 - 1, c0, c1);
        let b = row_cells(r1 as i32, c0, c1);
        let t = a + b;
        if a.contains(cell) {
            let i = choose|i: int| 0 <= i < a.len() && a[i] == cell;
            assert(t[i] == cell);
        }
        if b.contains(cell) {
            let i = choose|i: int| 0 <= i < b.len() && b[i] == cell;
            assert(t[i + a.len()] == cell);
        }
        if t.contains(cell) {
            let i = choose|i: int| 0 <= i < t.len() && t[i] == cell;
            if i < a.len() {
                assert(a[i] == cell);
            } else {
                assert(b[i - a.len()] == cell);
            }
        }
    }
}

/// A stroke covers exactly the cells of the rectangle between its two corner cells, both
/// ends included, whichever way it was dragged.
pub proof fn law_stroke_covers_rectangle(start: (i32, i32), current: (i32, i32), cell: (i32, i32))
    ensures
        stroke_rect(start, current) == stroke_rect(current, start),
        stroke_rect(start, current).contains(cell) <==> (lo(start.0, current.0) <= cell.0 <= hi(start.0, current.0)
            && lo(start.1, current.1) <= cell.1 <= hi(start.1, current.1)),
{
    lemma_rect_cells_contains(
        lo(start.1, current.1) as int,
        hi(start.1, current.1) as int,
        lo(start.0, current.0) as int,
        hi(start.0, current.0) as int,
        cell,
    );
}

/// What a frame of a paint or erase drag does.
#[derive(Debug, Clone, PartialEq, Eq)]
pub enum StrokeStep {
    /// Nothing to do this frame.
    Idle,
    /// The button was released: the stroke ends, and the pending scene edit is finished
    /// when there is one.
    Released { finish_edit: bool },
    /// Fill (or clear) these cells; a scene edit begins first when `begin_edit` is set.
    Cells { begin_edit: bool, cells: Vec<(i32, i32)> },
}

/// A paint or erase drag: the cell where it started, if one is under way.
#[derive(Debug, Clone, Copy)]
pub struct TileStroke {
    pub start_cell: Option<(i32, i32)>,
}

impl TileStroke {
    pub fn new() -> (s: TileStroke)
        ensures
            s.start_cell is None,
    {
        TileStroke { start_cell: None }
    }

    /// One frame of the stroke. `tool_ready` is whether there is something to paint with
    /// (a tile brush; erasing always is); `button_down` whether the stroke's mouse button
    /// is held; `edit_pending` whether a scene edit is open; `cell` the cell under the
    /// pointer, when the pointer is over the viewport.
    pub fn update(&mut self, tool_ready: bool, button_down: bool, edit_pending: bool, cell: Option<(i32, i32)>) -> (step: StrokeStep)
        ensures
            !tool_ready ==> final(self).start_cell is None && step == StrokeStep::Idle,
            tool_ready && !button_down ==> final(self).start_cell is None && step == (StrokeStep::Released {
                finish_edit: edit_pending,
            }),
            tool_ready && button_down && cell is None ==> *final(self) == *old(self) && step == StrokeStep::Idle,
            tool_ready && button_down && cell is Some ==> {
                let start = match old(self).start_cell {
                    Some(s) => s,
                    None => cell.unwrap(),
                };
                &&& final(self).start_cell == Some(start)
                &&& step matches StrokeStep::Cells { begin_edit, cells }
                &&& begin_edit == old(self).start_cell is None
                &&& cells@ == stroke_rect(start, cell.unwrap())
            },
    {
        if !tool_ready {
            self.start_cell = None;
            return StrokeStep::Idle;
        }
        if !button_down {
            self.start_cell = None;
            return StrokeStep::Released { finish_edit: edit_pending };
        }
        let current = match cell {
            Some(c) => c,
            None => return StrokeStep::Idle,
        };
        let begin_edit = self.start_cell.is_none();
        let start = match self.start_cell {
            Some(s) => s,
            None => current,
        };
        self.start_cell = Some(start);
        StrokeStep::Cells { begin_edit, cells: stroke_cells(start, current) }
    }
}

} // verus!
