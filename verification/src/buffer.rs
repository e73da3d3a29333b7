//! The screen buffer: a fixed-size grid of cells plus a bounded scrollback
//! ring, owning the cursor position.
//!
//! Invariants (see [`TerminalBuffer::wf`]): every visible row has exactly
//! `cols` cells, the cursor always lies inside the grid, and the scrollback
//! never holds more than `scrollback_limit` lines (the oldest is evicted
//! first).
use std::collections::VecDeque;
use vstd::pervasive::VecAdditionalExecFns;
use vstd::prelude::*;

use crate::cell::TerminalCell;
use crate::cell::spec_default_cell;

verus! {

/// A visible row in which every cell is the default cell.
pub open spec fn default_row(cols: nat) -> Seq<TerminalCell> {
    Seq::new(cols, |i: int| spec_default_cell())
}

/// The rows a scroll of `n` lines carries out of a grid of `rows` visible
/// rows, oldest first: the top `n` rows of the grid, continuing with fresh
/// default rows once the whole grid has been carried out.
pub open spec fn scrolled_out_rows(grid: Seq<Seq<TerminalCell>>, cols: nat, n: nat) -> Seq<
    Seq<TerminalCell>,
> {
    Seq::new(n, |k: int| if k < grid.len() { grid[k] } else { default_row(cols) })
}

/// The grid that results from resizing `grid` to the given dimensions:
/// content in the overlapping region is kept and every new cell is the
/// default cell.
pub open spec fn resized_grid(grid: Seq<Seq<TerminalCell>>, new_rows: nat, new_cols: nat) -> Seq<
    Seq<TerminalCell>,
> {
    Seq::new(
        new_rows,
        |i: int|
            Seq::new(
                new_cols,
                |j: int|
                    if i < grid.len() && j < grid[i].len() {
                        grid[i][j]
                    } else {
                        spec_default_cell()
                    },
            ),
    )
}

/// The scrollback that results from appending `extra` to `sb`, keeping only
/// the newest `limit` lines: insertion is first-in, first-out eviction at
/// capacity.
pub open spec fn bounded_extend(
    sb: Seq<Seq<TerminalCell>>,
    extra: Seq<Seq<TerminalCell>>,
    limit: nat,
) -> Seq<Seq<TerminalCell>> {
    let all = sb + extra;
    if all.len() <= limit {
        all
    } else {
        all.subrange(all.len() - limit, all.len() as int)
    }
}

/// A fixed-size grid of styled cells with a cursor and a bounded scrollback.
#[derive(Debug)]
pub struct TerminalBuffer {
    cells: Vec<Vec<TerminalCell>>,
    rows: usize,
    cols: usize,
    cursor_row: usize,
    cursor_col: usize,
    scrollback: VecDeque<Vec<TerminalCell>>,
    scrollback_limit: usize,
}

impl TerminalBuffer {
    /// The visible grid, row by row.
    pub closed spec fn grid(&self) -> Seq<Seq<TerminalCell>> {
        self.cells@.map_values(|r: Vec<TerminalCell>| r@)
    }

    /// The number of visible rows.
    pub closed spec fn num_rows(&self) -> nat {
        self.rows as nat
    }

    /// The number of columns of each visible row.
    pub closed spec fn num_cols(&self) -> nat {
        self.cols as nat
    }

    /// The cursor's row, always within the grid.
    pub closed spec fn cur_row(&self) -> int {
        self.cursor_row as int
    }

    /// The cursor's column, always within the grid.
    pub closed spec fn cur_col(&self) -> int {
        self.cursor_col as int
    }

    /// The scrollback lines, oldest first.
    pub closed spec fn scrollback_lines(&self) -> Seq<Seq<TerminalCell>> {
        self.scrollback@.map_values(|r: Vec<TerminalCell>| r@)
    }

    /// The most lines the scrollback may hold.
    pub closed spec fn spec_scrollback_limit(&self) -> nat {
        self.scrollback_limit as nat
    }

    /// Well-formedness: the grid is exactly `num_rows` rows of `num_cols`
    /// cells, both at least one, the cursor lies inside the grid, and the
    /// scrollback is within its limit.
    pub open spec fn wf(&self) -> bool {
        &&& self.grid().len() == self.num_rows()
        &&& (forall|i: int|
            0 <= i < self.grid().len() ==> (#[trigger] self.grid()[i]).len() == self.num_cols())
        &&& 1 <= self.num_rows()
        &&& 1 <= self.num_cols()
        &&& 0 <= self.cur_row() < self.num_rows()
        &&& 0 <= self.cur_col() < self.num_cols()
        &&& self.scrollback_lines().len() <= self.spec_scrollback_limit()
    }

    /// A buffer of the given dimensions, filled with default cells, with the
    /// cursor at the top left and an empty scrollback.
    pub fn new(rows: usize, cols: usize, scrollback_limit: usize) -> (b: TerminalBuffer)
        requires
            1 <= rows,
            1 <= cols,
        ensures
            b.wf(),
            b.num_rows() == rows,
            b.num_cols() == cols,
            b.spec_scrollback_limit() == scrollback_limit,
            b.grid() =~= Seq::new(rows as nat, |i: int| default_row(cols as nat)),
            b.cur_row() == 0,
            b.cur_col() == 0,
            b.scrollback_lines() =~= Seq::<Seq<TerminalCell>>::empty(),
    {
        let mut cells: Vec<Vec<TerminalCell>> = Vec::new();
        let mut i: usize = 0;
        while i < rows
            invariant
                i <= rows,
                cells@.len() == i,
                forall|k: int| 0 <= k < i ==> (#[trigger] cells@[k])@ =~= default_row(cols as nat),
            decreases rows - i,
        {
            cells.push(default_row_vec(cols));
            i = i + 1;
        }
        TerminalBuffer {
            cells,
            rows,
            cols,
            cursor_row: 0,
            cursor_col: 0,
            scrollback: VecDeque::new(),
            scrollback_limit,
        }
    }

    /// Grows or shrinks the grid to the new dimensions. Content in the
    /// overlapping region is kept; new cells are default cells; the cursor is
    /// clamped into the new bounds. The scrollback is not touched.
    pub fn resize(&mut self, new_rows: usize, new_cols: usize)
        requires
            old(self).wf(),
            1 <= new_rows,
            1 <= new_cols,
        ensures
            final(self).wf(),
            final(self).num_rows() == new_rows,
            final(self).num_cols() == new_cols,
            final(self).grid() =~~= resized_grid(old(self).grid(), new_rows as nat, new_cols as nat),
            final(self).cur_row() == if old(self).cur_row() < new_rows {
                old(self).cur_row()
            } else {
                new_rows - 1
            },
            final(self).cur_col() == if old(self).cur_col() < new_cols {
                old(self).cur_col()
            } else {
                new_cols - 1
            },
            final(self).scrollback_lines() == old(self).scrollback_lines(),
            final(self).spec_scrollback_limit() == old(self).spec_scrollback_limit(),
    {
        let ghost old_grid = self.grid();
        let ghost old_cols = self.num_cols();
        // Adjust the row count.
        while self.cells.len() > new_rows
            invariant
                self.cells@.len() <= old_grid.len(),
                new_rows <= self.cells@.len() || self.cells@.len() == old_grid.len(),
                forall|k: int|
                    0 <= k < self.cells@.len() ==> (#[trigger] self.cells@[k])@ == old_grid[k],
                self.rows == old(self).rows,
                self.cols == old(self).cols,
                self.cursor_row == old(self).cursor_row,
                self.cursor_col == old(self).cursor_col,
                self.scrollback == old(self).scrollback,
                self.scrollback_limit == old(self).scrollback_limit,
            decreases self.cells@.len(),
        {
            self.cells.pop();
        }
        while self.cells.len() < new_rows
            invariant
                self.cells@.len() <= new_rows,
                old_grid.len() <= self.cells@.len() || new_rows <= self.cells@.len(),
                forall|k: int|
                    0 <= k < self.cells@.len() ==> (#[trigger] self.cells@[k])@ == (if k
                        < old_grid.len() {
                        old_grid[k]
                    } else {
                        default_row(new_cols as nat)
                    }),
                self.rows == old(self).rows,
                self.cols == old(self).cols,
                self.cursor_row == old(self).cursor_row,
                self.cursor_col == old(self).cursor_col,
                self.scrollback == old(self).scrollback,
                self.scrollback_limit == old(self).scrollback_limit,
            decreases new_rows - self.cells@.len(),
        {
            self.cells.push(default_row_vec(new_cols));
        }
        // Adjust every row to the new column count.
        let mut i: usize = 0;
        while i < new_rows
            invariant
                i <= new_rows,
                self.cells@.len() == new_rows,
                forall|k: int|
                    i <= k < new_rows ==> (#[trigger] self.cells@[k])@ == (if k < old_grid.len() {
                        old_grid[k]
                    } else {
                        default_row(new_cols as nat)
                    }),
                forall|k: int, j: int|
                    0 <= k < i && 0 <= j < new_cols ==> (#[trigger] self.cells@[k]@[j]) == (if k
                        < old_grid.len() && j < old_cols {
                        old_grid[k][j]
                    } else {
                        spec_default_cell()
                    }),
                forall|k: int| 0 <= k < i ==> (#[trigger] self.cells@[k])@.len() == new_cols,
                forall|k: int|
                    0 <= k < old_grid.len() ==> (#[trigger] old_grid[k]).len() == old_cols,
                self.rows == old(self).rows,
                self.cols == old(self).cols,
                self.cursor_row == old(self).cursor_row,
                self.cursor_col == old(self).cursor_col,
                self.scrollback == old(self).scrollback,
                self.scrollback_limit == old(self).scrollback_limit,
            decreases new_rows - i,
        {
            let ghost before = self.cells@[i as int]@;
            let mut newrow: Vec<TerminalCell> = Vec::new();
            let mut j: usize = 0;
            while j < new_cols
                invariant
                    j <= new_cols,
                    newrow@.len() == j,
                    i < self.cells@.len(),
                    before == self.cells@[i as int]@,
                    forall|t: int|
                        0 <= t < j ==> #[trigger] newrow@[t] == (if t < before.len() {
                            before[t]
                        } else {
                            spec_default_cell()
                        }),
                decreases new_cols - j,
            {
                if j < self.cells[i].len() {
                    let c = self.cells[i][j];
                    newrow.push(c);
                } else {
                    newrow.push(TerminalCell::default());
                }
                j = j + 1;
            }
            self.cells.set(i, newrow);
            i = i + 1;
        }
        self.rows = new_rows;
        self.cols = new_cols;
        // Clamp the cursor into the new bounds.
        if self.cursor_row >= new_rows {
            self.cursor_row = new_rows - 1;
        }
        if self.cursor_col >= new_cols {
            self.cursor_col = new_cols - 1;
        }
    }

    /// The cell at the given position, or nothing if it lies outside the
    /// grid.
    pub fn get_cell(&self, row: usize, col: usize) -> (r: Option<&TerminalCell>)
        ensures
            r is Some <==> row < self.grid().len() && col < self.grid()[row as int].len(),
            r matches Some(c) ==> *c == self.grid()[row as int][col as int],
    {
        if row < self.cells.len() {
            let rowv = &self.cells[row];
            if col < rowv.len() {
                Some(&rowv[col])
            } else {
                None
            }
        } else {
            None
        }
    }

    /// Writes the cell at the given position; does nothing if the position
    /// lies outside the grid.
    pub fn set_cell(&mut self, row: usize, col: usize, cell: TerminalCell)
        requires
            old(self).wf(),
        ensures
            final(self).wf(),
            row < old(self).num_rows() && col < old(self).num_cols() ==> final(self).grid()
                =~= old(self).grid().update(
                row as int,
                old(self).grid()[row as int].update(col as int, cell),
            ),
            !(row < old(self).num_rows() && col < old(self).num_cols()) ==> final(self).grid()
                == old(self).grid(),
            final(self).num_rows() == old(self).num_rows(),
            final(self).num_cols() == old(self).num_cols(),
            final(self).cur_row() == old(self).cur_row(),
            final(self).cur_col() == old(self).cur_col(),
            final(self).scrollback_lines() == old(self).scrollback_lines(),
            final(self).spec_scrollback_limit() == old(self).spec_scrollback_limit(),
    {
        if row < self.cells.len() {
            if col < self.cells[row].len() {
                let ghost before = self.cells@[row as int]@;
                let mut newrow: Vec<TerminalCell> = Vec::new();
                let mut j: usize = 0;
                let n = self.cells[row].len();
                while j < n
                    invariant
                        j <= n,
                        newrow@.len() == j,
                        row < self.cells@.len(),
                        col < n,
                        n == before.len(),
                        before == self.cells@[row as int]@,
                        forall|t: int|
                            0 <= t < j ==> #[trigger] newrow@[t] == (if t == col {
                                cell
                            } else {
                                before[t]
                            }),
                    decreases n - j,
                {
                    if j == col {
                        newrow.push(cell);
                    } else {
                        let c = self.cells[row][j];
                        newrow.push(c);
                    }
                    j = j + 1;
                }
                self.cells.set(row, newrow);
                proof {
                    assert(newrow@ =~= before.update(col as int, cell));
                    assert(self.grid() =~= old(self).grid().update(
                        row as int,
                        old(self).grid()[row as int].update(col as int, cell),
                    ));
                }
            }
        }
    }

    /// The number of visible rows.
    pub fn row_count(&self) -> (r: usize)
        ensures
            r == self.num_rows(),
    {
        self.rows
    }

    /// The number of columns of each visible row.
    pub fn col_count(&self) -> (r: usize)
        ensures
            r == self.num_cols(),
    {
        self.cols
    }

    /// The cursor position as `(row, col)`.
    pub fn cursor_position(&self) -> (r: (usize, usize))
        ensures
            r.0 == self.cur_row(),
            r.1 == self.cur_col(),
    {
        (self.cursor_row, self.cursor_col)
    }

    /// Moves the cursor, clamping both coordinates into the grid.
    pub fn move_cursor(&mut self, row: usize, col: usize)
        requires
            old(self).wf(),
        ensures
            final(self).wf(),
            final(self).cur_row() == if row < old(self).num_rows() {
                row as int
            } else {
                old(self).num_rows() - 1
            },
            final(self).cur_col() == if col < old(self).num_cols() {
                col as int
            } else {
                old(self).num_cols() - 1
            },
            final(self).grid() == old(self).grid(),
            final(self).num_rows() == old(self).num_rows(),
            final(self).num_cols() == old(self).num_cols(),
            final(self).scrollback_lines() == old(self).scrollback_lines(),
            final(self).spec_scrollback_limit() == old(self).spec_scrollback_limit(),
    {
        self.cursor_row = if row < self.rows {
            row
        } else {
            self.rows - 1
        };
        self.cursor_col = if col < self.cols {
            col
        } else {
            self.cols - 1
        };
    }

    /// Scrolls the grid up by `lines`: one line at a time, the top row is
    /// appended to the scrollback (evicting the oldest line if the scrollback
    /// is at its limit), removed from the grid, and a fresh default row is
    /// appended at the bottom. This is the only operation that grows the
    /// scrollback.
    pub fn scroll_up(&mut self, lines: usize)
        requires
            old(self).wf(),
        ensures
            final(self).wf(),
            forall|i: int|
                0 <= i < old(self).num_rows() ==> #[trigger] final(self).grid()[i] == (if i + lines
                    < old(self).num_rows() {
                    old(self).grid()[i + lines]
                } else {
                    default_row(old(self).num_cols())
                }),
            final(self).scrollback_lines() == bounded_extend(
                old(self).scrollback_lines(),
                scrolled_out_rows(old(self).grid(), old(self).num_cols(), lines as nat),
                old(self).spec_scrollback_limit(),
            ),
            final(self).num_rows() == old(self).num_rows(),
            final(self).num_cols() == old(self).num_cols(),
            final(self).cur_row() == old(self).cur_row(),
            final(self).cur_col() == old(self).cur_col(),
            final(self).spec_scrollback_limit() == old(self).spec_scrollback_limit(),
    {
        let ghost old_grid = old(self).grid();
        let ghost old_sb = old(self).scrollback_lines();
        let ghost cols = old(self).num_cols();
        let ghost limit = old(self).spec_scrollback_limit();
        let mut k: usize = 0;
        while k < lines
            invariant
                k <= lines,
                self.wf(),
                self.rows == old(self).rows,
                self.cols == old(self).cols,
                self.cursor_row == old(self).cursor_row,
                self.cursor_col == old(self).cursor_col,
                self.scrollback_limit == old(self).scrollback_limit,
                old_grid.len() == self.num_rows(),
                cols == self.num_cols(),
                limit == self.spec_scrollback_limit(),
                old_sb.len() <= limit,
                forall|j: int| 0 <= j < old_grid.len() ==> (#[trigger] old_grid[j]).len() == cols,
                forall|i: int|
                    0 <= i < self.num_rows() ==> #[trigger] self.grid()[i] == (if i + k
                        < old_grid.len() {
                        old_grid[i + k]
                    } else {
                        default_row(cols)
                    }),
                self.scrollback_lines() == bounded_extend(
                    old_sb,
                    scrolled_out_rows(old_grid, cols, k as nat),
                    limit,
                ),
            decreases lines - k,
        {
            let ghost sb_k = self.scrollback_lines();
            let ghost grid_k = self.grid();
            let line = self.cells.remove(0);
            self.scrollback.push_back(line);
            if self.scrollback.len() > self.scrollback_limit {
                self.scrollback.pop_front();
            }
            let fresh = default_row_vec(self.cols);
            self.cells.push(fresh);
            proof {
                assert(line@ == grid_k[0]);
                assert(line@ == scrolled_out_rows(old_grid, cols, (k + 1) as nat)[k as int]);
                assert(scrolled_out_rows(old_grid, cols, (k + 1) as nat) =~= scrolled_out_rows(
                    old_grid,
                    cols,
                    k as nat,
                ).push(line@));
                lemma_bounded_extend_step(
                    old_sb,
                    scrolled_out_rows(old_grid, cols, k as nat),
                    line@,
                    limit,
                );
                assert(self.scrollback_lines() =~= bounded_extend(
                    old_sb,
                    scrolled_out_rows(old_grid, cols, (k + 1) as nat),
                    limit,
                ));
                assert forall|i: int| 0 <= i < self.num_rows() implies #[trigger] self.grid()[i]
                    == (if i + k + 1 < old_grid.len() {
                    old_grid[i + k + 1]
                } else {
                    default_row(cols)
                }) by {
                    if i < self.num_rows() - 1 {
                        assert(self.grid()[i] == grid_k[i + 1]);
                    } else {
                        assert(self.grid()[i] == fresh@);
                        assert(fresh@ =~= default_row(cols));
                    }
                }
            }
            k = k + 1;
        }
    }

    /// The visible grid, for a renderer to read.
    pub fn get_visible_content(&self) -> (r: &Vec<Vec<TerminalCell>>)
        ensures
            r@.map_values(|row: Vec<TerminalCell>| row@) == self.grid(),
    {
        &self.cells
    }

    /// The scrollback lines, oldest first, for a renderer to read.
    pub fn get_scrollback(&self) -> (r: &VecDeque<Vec<TerminalCell>>)
        ensures
            r@.map_values(|row: Vec<TerminalCell>| row@) == self.scrollback_lines(),
    {
        &self.scrollback
    }
}

/// A freshly allocated row of `cols` default cells.
fn default_row_vec(cols: usize) -> (r: Vec<TerminalCell>)
    ensures
        r@ =~= default_row(cols as nat),
{
    let mut r: Vec<TerminalCell> = Vec::new();
    let mut j: usize = 0;
    while j < cols
        invariant
            j <= cols,
            r@.len() == j,
            forall|t: int| 0 <= t < j ==> #[trigger] r@[t] == spec_default_cell(),
        decreases cols - j,
    {
        r.push(TerminalCell::default());
        j = j + 1;
    }
    r
}

/// However many lines are scrolled out, the scrollback never exceeds its
/// limit, and what it keeps is the newest lines, oldest first: eviction is
/// first in, first out.
pub proof fn lemma_scrollback_bounded(
    sb: Seq<Seq<TerminalCell>>,
    extra: Seq<Seq<TerminalCell>>,
    limit: nat,
)
    requires
        sb.len() <= limit,
    ensures
        bounded_extend(sb, extra, limit).len() <= limit,
        ({
            let all = sb + extra;
            let kept = bounded_extend(sb, extra, limit);
            forall|i: int|
                0 <= i < kept.len() ==> #[trigger] kept[i] == all[all.len() - kept.len() + i]
        }),
{
}

/// Resizing a grid and then resizing it back to its original dimensions
/// restores the row and column count, and restores the content of the region
/// that both sizes cover; content outside that overlap is not restored but
/// replaced by default cells. The round trip is deliberately not an
/// identity.
pub proof fn lemma_resize_round_trip(
    grid: Seq<Seq<TerminalCell>>,
    rows: nat,
    cols: nat,
    mid_rows: nat,
    mid_cols: nat,
)
    requires
        grid.len() == rows,
        forall|i: int| 0 <= i < grid.len() ==> (#[trigger] grid[i]).len() == cols,
    ensures
        ({
            let back = resized_grid(resized_grid(grid, mid_rows, mid_cols), rows, cols);
            &&& back.len() == rows
            &&& (forall|i: int| 0 <= i < rows ==> (#[trigger] back[i]).len() == cols)
            &&& (forall|i: int, j: int|
                0 <= i < rows && 0 <= j < cols && i < mid_rows && j < mid_cols
                    ==> #[trigger] back[i][j] == grid[i][j])
            &&& (forall|i: int, j: int|
                0 <= i < rows && 0 <= j < cols && !(i < mid_rows && j < mid_cols)
                    ==> #[trigger] back[i][j] == spec_default_cell())
        }),
{
}

/// Extending a bounded scrollback by one more line is the same as pushing the
/// line and, if that exceeds the limit, evicting the oldest entry.
proof fn lemma_bounded_extend_step(
    sb: Seq<Seq<TerminalCell>>,
    extra: Seq<Seq<TerminalCell>>,
    line: Seq<TerminalCell>,
    limit: nat,
)
    requires
        sb.len() <= limit,
    ensures
        ({
            let cur = bounded_extend(sb, extra, limit);
            let pushed = cur.push(line);
            let next = if pushed.len() > limit {
                pushed.subrange(1, pushed.len() as int)
            } else {
                pushed
            };
            next == bounded_extend(sb, extra.push(line), limit)
        }),
{
    let cur = bounded_extend(sb, extra, limit);
    let pushed = cur.push(line);
    let next = if pushed.len() > limit {
        pushed.subrange(1, pushed.len() as int)
    } else {
        pushed
    };
    assert(next =~= bounded_extend(sb, extra.push(line), limit));
}

} // verus!
