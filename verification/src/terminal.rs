//! The terminal façade: the escape-sequence interpreter composed with the
//! screen buffer it drives.
//!
//! The observable behaviour is pinned down by a mathematical step model:
//! [`step_byte`] says what one input byte does to the whole terminal state
//! (grid, cursor, scrollback, pending style, and parser position), and
//! [`feed_bytes`] folds it over an input sequence. `process_data` is proved
//! to implement exactly that fold.
use vstd::prelude::*;

use crate::buffer::TerminalBuffer;
use crate::buffer::bounded_extend;
use crate::buffer::default_row;
use crate::buffer::resized_grid;
use crate::buffer::scrolled_out_rows;
use crate::cell::Rgb;
use crate::cell::TerminalCell;
use crate::cell::spec_default_cell;
use crate::config::TerminalConfig;
use crate::errors::LiminalError;
use crate::parser::Action;
use crate::parser::ActionView;
use crate::parser::CSI_MAX_PARAMS;
use crate::parser::Parser;
use crate::parser::ParserView;
use crate::parser::ground_view;
use crate::parser::parser_action;
use crate::parser::parser_step;

verus! {

/// The fixed eight-colour palette shared by the foreground codes (30 to 37)
/// and the background codes (40 to 47): black, red, green, yellow, blue,
/// magenta, cyan, white.
pub open spec fn palette(idx: int) -> Rgb {
    if idx == 0 {
        Rgb { r: 0, g: 0, b: 0 }
    } else if idx == 1 {
        Rgb { r: 205, g: 49, b: 49 }
    } else if idx == 2 {
        Rgb { r: 13, g: 188, b: 121 }
    } else if idx == 3 {
        Rgb { r: 229, g: 229, b: 16 }
    } else if idx == 4 {
        Rgb { r: 36, g: 114, b: 200 }
    } else if idx == 5 {
        Rgb { r: 188, g: 63, b: 188 }
    } else if idx == 6 {
        Rgb { r: 17, g: 168, b: 205 }
    } else {
        Rgb { r: 229, g: 229, b: 229 }
    }
}

/// The palette entry for an index below eight.
pub fn palette_color(idx: u16) -> (c: Rgb)
    requires
        idx < 8,
    ensures
        c == palette(idx as int),
{
    if idx == 0 {
        Rgb { r: 0, g: 0, b: 0 }
    } else if idx == 1 {
        Rgb { r: 205, g: 49, b: 49 }
    } else if idx == 2 {
        Rgb { r: 13, g: 188, b: 121 }
    } else if idx == 3 {
        Rgb { r: 229, g: 229, b: 16 }
    } else if idx == 4 {
        Rgb { r: 36, g: 114, b: 200 }
    } else if idx == 5 {
        Rgb { r: 188, g: 63, b: 188 }
    } else if idx == 6 {
        Rgb { r: 17, g: 168, b: 205 }
    } else {
        Rgb { r: 229, g: 229, b: 229 }
    }
}

/// One graphic-rendition code applied to the pending style: 0 resets it, 1
/// sets bold, 3 italic, 4 underline, 30 to 37 pick a foreground palette
/// entry, 40 to 47 a background entry, and every other code is ignored.
pub open spec fn spec_apply_sgr(style: TerminalCell, value: u16) -> TerminalCell {
    if value == 0 {
        spec_default_cell()
    } else if value == 1 {
        TerminalCell { bold: true, ..style }
    } else if value == 3 {
        TerminalCell { italic: true, ..style }
    } else if value == 4 {
        TerminalCell { underline: true, ..style }
    } else if 30 <= value && value <= 37 {
        TerminalCell { foreground_color: palette(value - 30), ..style }
    } else if 40 <= value && value <= 47 {
        TerminalCell { background_color: palette(value - 40), ..style }
    } else {
        style
    }
}

/// Every code of one graphic-rendition sequence applied in order.
pub open spec fn spec_apply_sgr_seq(style: TerminalCell, params: Seq<u16>) -> TerminalCell
    decreases params.len(),
{
    if params.len() == 0 {
        style
    } else {
        spec_apply_sgr(spec_apply_sgr_seq(style, params.drop_last()), params.last())
    }
}

/// The mathematical state of a whole terminal.
#[verifier::ext_equal]
pub ghost struct TermView {
    pub grid: Seq<Seq<TerminalCell>>,
    pub rows: nat,
    pub cols: nat,
    pub cur_row: int,
    pub cur_col: int,
    pub scrollback: Seq<Seq<TerminalCell>>,
    pub limit: nat,
    pub style: TerminalCell,
    pub parser: ParserView,
}

/// Well-formedness of a terminal state: the grid has exactly `rows` rows of
/// `cols` cells each, both dimensions are at least one, the cursor lies
/// inside the grid, the scrollback is within its limit, and the parser
/// carries no more parameters than a sequence may have.
pub open spec fn term_wf(t: TermView) -> bool {
    &&& t.grid.len() == t.rows
    &&& (forall|i: int| 0 <= i < t.grid.len() ==> (#[trigger] t.grid[i]).len() == t.cols)
    &&& 1 <= t.rows
    &&& 1 <= t.cols
    &&& 0 <= t.cur_row < t.rows
    &&& 0 <= t.cur_col < t.cols
    &&& t.scrollback.len() <= t.limit
    &&& t.parser.params.len() <= CSI_MAX_PARAMS
}

/// One line scrolled up: the top row moves into the scrollback (evicting the
/// oldest line at capacity), the rest move up, and a fresh default row
/// enters at the bottom. The cursor does not move.
pub open spec fn scroll1(t: TermView) -> TermView {
    TermView {
        grid: Seq::new(
            t.rows,
            |i: int| if i + 1 < t.rows { t.grid[i + 1] } else { default_row(t.cols) },
        ),
        scrollback: bounded_extend(t.scrollback, seq![t.grid[0]], t.limit),
        ..t
    }
}

/// A printed character: it is written with the pending style at the cursor,
/// and the cursor advances one column, wrapping to the start of the next row
/// at the last column, and scrolling one line first when there is no next
/// row.
pub open spec fn print_step(t: TermView, c: char) -> TermView {
    let cell = TerminalCell { character: c, ..t.style };
    let t1 = TermView {
        grid: t.grid.update(t.cur_row, t.grid[t.cur_row].update(t.cur_col, cell)),
        ..t
    };
    if t.cur_col + 1 < t.cols {
        TermView { cur_col: t.cur_col + 1, ..t1 }
    } else if t.cur_row + 1 < t.rows {
        TermView { cur_row: t.cur_row + 1, cur_col: 0, ..t1 }
    } else {
        TermView { cur_row: t.rows - 1, cur_col: 0, ..scroll1(t1) }
    }
}

/// A control code: line feed moves the cursor down one row (scrolling on the
/// last row, column unchanged), carriage return moves it to column zero, tab
/// advances it to the next multiple of eight columns clamped to the last
/// column, and every other code does nothing.
pub open spec fn execute_step(t: TermView, b: u8) -> TermView {
    if b == 0x0a {
        if t.cur_row + 1 < t.rows {
            TermView { cur_row: t.cur_row + 1, ..t }
        } else {
            scroll1(t)
        }
    } else if b == 0x0d {
        TermView { cur_col: 0, ..t }
    } else if b == 0x09 {
        let next_tab = (t.cur_col / 8 + 1) * 8;
        TermView {
            cur_col: if next_tab < t.cols {
                next_tab
            } else {
                t.cols - 1
            },
            ..t
        }
    } else {
        t
    }
}

/// The cursor-movement count a CSI sequence carries: its first parameter,
/// with one as the default when the parameter is absent or zero.
pub open spec fn csi_amount(params: Seq<u16>) -> int {
    if params.len() > 0 && params[0] > 0 {
        params[0] as int
    } else {
        1
    }
}

/// A complete CSI sequence: cursor movements clamp at the grid edges and
/// never scroll; `H` places the cursor from one-based coordinates; `m`
/// applies its graphic-rendition codes to the pending style; every other
/// final byte is consumed without effect.
pub open spec fn csi_step(t: TermView, params: Seq<u16>, fin: u8) -> TermView {
    let n = csi_amount(params);
    if fin == 0x41 {  // 'A': cursor up
        TermView {
            cur_row: if t.cur_row - n >= 0 {
                t.cur_row - n
            } else {
                0
            },
            ..t
        }
    } else if fin == 0x42 {  // 'B': cursor down
        TermView {
            cur_row: if t.cur_row + n < t.rows {
                t.cur_row + n
            } else {
                t.rows - 1
            },
            ..t
        }
    } else if fin == 0x43 {  // 'C': cursor right
        TermView {
            cur_col: if t.cur_col + n < t.cols {
                t.cur_col + n
            } else {
                t.cols - 1
            },
            ..t
        }
    } else if fin == 0x44 {  // 'D': cursor left
        TermView {
            cur_col: if t.cur_col - n >= 0 {
                t.cur_col - n
            } else {
                0
            },
            ..t
        }
    } else if fin == 0x48 {  // 'H': cursor position, one-based
        let r1 = if params.len() > 0 {
            params[0] as int
        } else {
            1
        };
        let c1 = if params.len() > 1 {
            params[1] as int
        } else {
            1
        };
        let r0 = if r1 > 0 {
            r1 - 1
        } else {
            0
        };
        let c0 = if c1 > 0 {
            c1 - 1
        } else {
            0
        };
        TermView {
            cur_row: if r0 < t.rows {
                r0
            } else {
                t.rows - 1
            },
            cur_col: if c0 < t.cols {
                c0
            } else {
                t.cols - 1
            },
            ..t
        }
    } else if fin == 0x6d {  // 'm': select graphic rendition
        TermView { style: spec_apply_sgr_seq(t.style, params), ..t }
    } else {
        t
    }
}

/// One decoded action applied to the terminal state.
pub open spec fn step_action(t: TermView, a: ActionView) -> TermView {
    match a {
        ActionView::Print(c) => print_step(t, c),
        ActionView::Execute(b) => execute_step(t, b),
        ActionView::CsiDispatch(params, fin) => csi_step(t, params, fin),
        ActionView::Ignore => t,
    }
}

/// One input byte: the parser takes its step, and the action the byte
/// carries in the old parser state is applied to the screen and the style.
pub open spec fn step_byte(t: TermView, b: u8) -> TermView {
    let t1 = TermView { parser: parser_step(t.parser, b), ..t };
    step_action(t1, parser_action(t.parser, b))
}

/// A whole byte sequence fed to the terminal, byte by byte.
pub open spec fn feed_bytes(t: TermView, bytes: Seq<u8>) -> TermView
    decreases bytes.len(),
{
    if bytes.len() == 0 {
        t
    } else {
        step_byte(feed_bytes(t, bytes.drop_last()), bytes.last())
    }
}

/// The escape-sequence interpreter composed with the screen buffer and the
/// pending style it drives.
pub struct Terminal {
    buffer: TerminalBuffer,
    parser: Parser,
    current_style: TerminalCell,
}

impl View for Terminal {
    type V = TermView;

    closed spec fn view(&self) -> TermView {
        TermView {
            grid: self.buffer.grid(),
            rows: self.buffer.num_rows(),
            cols: self.buffer.num_cols(),
            cur_row: self.buffer.cur_row(),
            cur_col: self.buffer.cur_col(),
            scrollback: self.buffer.scrollback_lines(),
            limit: self.buffer.spec_scrollback_limit(),
            style: self.current_style,
            parser: self.parser@,
        }
    }
}

impl Terminal {
    /// Well-formedness of the whole terminal.
    pub open spec fn wf(&self) -> bool {
        term_wf(self@)
    }

    /// A terminal of the configured dimensions: the grid is filled with
    /// default cells, the cursor is at the top left, the scrollback is
    /// empty, the pending style is the default, and the parser is in the
    /// ground state.
    pub fn new(config: &TerminalConfig) -> (r: Result<Terminal, LiminalError>)
        requires
            1 <= config.rows,
            1 <= config.cols,
        ensures
            r matches Ok(t) && t.wf() && t@ == (TermView {
                grid: Seq::new(config.rows as nat, |i: int| default_row(config.cols as nat)),
                rows: config.rows as nat,
                cols: config.cols as nat,
                cur_row: 0,
                cur_col: 0,
                scrollback: Seq::<Seq<TerminalCell>>::empty(),
                limit: config.scrollback_limit as nat,
                style: spec_default_cell(),
                parser: ground_view(),
            }),
    {
        let buffer = TerminalBuffer::new(
            config.rows as usize,
            config.cols as usize,
            config.scrollback_limit,
        );
        let t = Terminal { buffer, parser: Parser::new(), current_style: TerminalCell::default() };
        proof {
            assert(t@ =~~= (TermView {
                grid: Seq::new(config.rows as nat, |i: int| default_row(config.cols as nat)),
                rows: config.rows as nat,
                cols: config.cols as nat,
                cur_row: 0,
                cur_col: 0,
                scrollback: Seq::<Seq<TerminalCell>>::empty(),
                limit: config.scrollback_limit as nat,
                style: spec_default_cell(),
                parser: ground_view(),
            }));
        }
        Ok(t)
    }

    /// Writes `c` with the pending style at the cursor and advances the
    /// cursor, wrapping and scrolling as [`print_step`] says.
    pub fn print(&mut self, c: char)
        requires
            old(self).wf(),
        ensures
            final(self).wf(),
            final(self)@ == print_step(old(self)@, c),
    {
        let (row, col) = self.buffer.cursor_position();
        let mut cell = self.current_style;
        cell.character = c;
        self.buffer.set_cell(row, col, cell);
        let cols = self.buffer.col_count();
        let rows = self.buffer.row_count();
        if col + 1 < cols {
            self.buffer.move_cursor(row, col + 1);
        } else if row + 1 < rows {
            self.buffer.move_cursor(row + 1, 0);
        } else {
            self.buffer.scroll_up(1);
            self.buffer.move_cursor(rows - 1, 0);
            proof {
                let t1 = TermView {
                    grid: old(self)@.grid.update(
                        old(self)@.cur_row,
                        old(self)@.grid[old(self)@.cur_row].update(old(self)@.cur_col, cell),
                    ),
                    ..old(self)@
                };
                assert(scrolled_out_rows(t1.grid, t1.cols, 1) =~= seq![t1.grid[0]]);
                assert(self@.grid =~= scroll1(t1).grid);
            }
        }
        proof {
            assert(self@ =~~= print_step(old(self)@, c));
        }
    }

    /// Performs a C0 control code as [`execute_step`] says.
    pub fn execute(&mut self, byte: u8)
        requires
            old(self).wf(),
        ensures
            final(self).wf(),
            final(self)@ == execute_step(old(self)@, byte),
    {
        if byte == 0x0a {
            let (row, col) = self.buffer.cursor_position();
            let rows = self.buffer.row_count();
            if row + 1 < rows {
                self.buffer.move_cursor(row + 1, col);
            } else {
                self.buffer.scroll_up(1);
                proof {
                    assert(scrolled_out_rows(old(self)@.grid, old(self)@.cols, 1) =~= seq![
                        old(self)@.grid[0],
                    ]);
                    assert(self@.grid =~= scroll1(old(self)@).grid);
                }
            }
        } else if byte == 0x0d {
            let (row, _col) = self.buffer.cursor_position();
            self.buffer.move_cursor(row, 0);
        } else if byte == 0x09 {
            let (row, col) = self.buffer.cursor_position();
            let cols = self.buffer.col_count();
            let base = col - (col % 8);
            let target = if cols - 1 - base >= 8 {
                base + 8
            } else {
                cols - 1
            };
            self.buffer.move_cursor(row, target);
        }
        proof {
            assert(self@ =~~= execute_step(old(self)@, byte));
        }
    }

    /// Performs a complete CSI sequence as [`csi_step`] says.
    pub fn csi_dispatch(&mut self, params: &Vec<u16>, fin: u8)
        requires
            old(self).wf(),
        ensures
            final(self).wf(),
            final(self)@ == csi_step(old(self)@, params@, fin),
    {
        let (row, col) = self.buffer.cursor_position();
        let rows = self.buffer.row_count();
        let cols = self.buffer.col_count();
        if fin == 0x41 {
            let n = csi_amount_exec(params);
            let target = if n <= row {
                row - n
            } else {
                0
            };
            self.buffer.move_cursor(target, col);
        } else if fin == 0x42 {
            let n = csi_amount_exec(params);
            let target = if n < rows - row {
                row + n
            } else {
                rows - 1
            };
            self.buffer.move_cursor(target, col);
        } else if fin == 0x43 {
            let n = csi_amount_exec(params);
            let target = if n < cols - col {
                col + n
            } else {
                cols - 1
            };
            self.buffer.move_cursor(row, target);
        } else if fin == 0x44 {
            let n = csi_amount_exec(params);
            let target = if n <= col {
                col - n
            } else {
                0
            };
            self.buffer.move_cursor(row, target);
        } else if fin == 0x48 {
            let r1: u16 = if params.len() > 0 {
                params[0]
            } else {
                1
            };
            let c1: u16 = if params.len() > 1 {
                params[1]
            } else {
                1
            };
            let r0 = if r1 > 0 {
                (r1 - 1) as usize
            } else {
                0
            };
            let c0 = if c1 > 0 {
                (c1 - 1) as usize
            } else {
                0
            };
            self.buffer.move_cursor(r0, c0);
        } else if fin == 0x6d {
            let n = params.len();
            let mut i: usize = 0;
            while i < n
                invariant
                    i <= n,
                    n == params@.len(),
                    self@ == (TermView {
                        style: spec_apply_sgr_seq(old(self)@.style, params@.take(i as int)),
                        ..old(self)@
                    }),
                decreases n - i,
            {
                let v = params[i];
                self.apply_sgr(v);
                proof {
                    assert(params@.take(i + 1 as int).drop_last() =~= params@.take(i as int));
                    assert(params@.take(i + 1 as int).last() == params@[i as int]);
                    assert(self@ =~~= (TermView {
                        style: spec_apply_sgr_seq(old(self)@.style, params@.take(i + 1 as int)),
                        ..old(self)@
                    }));
                }
                i = i + 1;
            }
            proof {
                assert(params@.take(n as int) =~= params@);
            }
        }
        proof {
            assert(self@ =~~= csi_step(old(self)@, params@, fin));
        }
    }

    /// Applies one graphic-rendition code to the pending style; the screen
    /// is not touched.
    pub fn apply_sgr(&mut self, value: u16)
        ensures
            final(self)@ == (TermView {
                style: spec_apply_sgr(old(self)@.style, value),
                ..old(self)@
            }),
    {
        if value == 0 {
            self.current_style = TerminalCell::default();
        } else if value == 1 {
            self.current_style.bold = true;
        } else if value == 3 {
            self.current_style.italic = true;
        } else if value == 4 {
            self.current_style.underline = true;
        } else if 30 <= value && value <= 37 {
            self.current_style.foreground_color = palette_color(value - 30);
        } else if 40 <= value && value <= 47 {
            self.current_style.background_color = palette_color(value - 40);
        }
        proof {
            assert(self@ =~~= (TermView {
                style: spec_apply_sgr(old(self)@.style, value),
                ..old(self)@
            }));
        }
    }

    /// Feeds a byte stream to the interpreter, byte by byte.
    pub fn process_data(&mut self, data: &[u8])
        requires
            old(self).wf(),
        ensures
            final(self).wf(),
            final(self)@ == feed_bytes(old(self)@, data@),
    {
        let n = data.len();
        let mut i: usize = 0;
        while i < n
            invariant
                i <= n,
                n == data@.len(),
                self.wf(),
                self@ == feed_bytes(old(self)@, data@.take(i as int)),
            decreases n - i,
        {
            let b = data[i];
            let ghost before = self@;
            let action = self.parser.advance(b);
            proof {
                assert(self@ =~~= (TermView { parser: parser_step(before.parser, b), ..before }));
                lemma_step_byte_wf(before, b);
            }
            match action {
                Action::Print(c) => {
                    self.print(c);
                },
                Action::Execute(x) => {
                    self.execute(x);
                },
                Action::CsiDispatch(csi_params, csi_fin) => {
                    self.csi_dispatch(&csi_params, csi_fin);
                },
                Action::Ignore => {},
            }
            proof {
                assert(self@ =~~= step_byte(before, b));
                assert(data@.take(i + 1 as int).drop_last() =~= data@.take(i as int));
                assert(data@.take(i + 1 as int).last() == data@[i as int]);
            }
            i = i + 1;
        }
        proof {
            assert(data@.take(n as int) =~= data@);
        }
    }

    /// Resizes the visible grid; the scrollback, the pending style, and the
    /// parser position are not touched.
    pub fn resize(&mut self, rows: u32, cols: u32)
        requires
            old(self).wf(),
            1 <= rows,
            1 <= cols,
        ensures
            final(self).wf(),
            final(self)@.grid == resized_grid(old(self)@.grid, rows as nat, cols as nat),
            final(self)@.rows == rows,
            final(self)@.cols == cols,
            final(self)@.cur_row == if old(self)@.cur_row < rows {
                old(self)@.cur_row
            } else {
                rows - 1
            },
            final(self)@.cur_col == if old(self)@.cur_col < cols {
                old(self)@.cur_col
            } else {
                cols - 1
            },
            final(self)@.scrollback == old(self)@.scrollback,
            final(self)@.limit == old(self)@.limit,
            final(self)@.style == old(self)@.style,
            final(self)@.parser == old(self)@.parser,
    {
        self.buffer.resize(rows as usize, cols as usize);
    }

    /// The screen buffer, for a renderer to read.
    pub fn get_buffer(&self) -> (r: &TerminalBuffer)
        ensures
            r.grid() == self@.grid,
            r.num_rows() == self@.rows,
            r.num_cols() == self@.cols,
            r.cur_row() == self@.cur_row,
            r.cur_col() == self@.cur_col,
            r.scrollback_lines() == self@.scrollback,
            r.spec_scrollback_limit() == self@.limit,
    {
        &self.buffer
    }

    /// The cursor position as `(row, col)`.
    pub fn get_cursor_position(&self) -> (r: (usize, usize))
        ensures
            r.0 == self@.cur_row,
            r.1 == self@.cur_col,
    {
        self.buffer.cursor_position()
    }
}

/// The cursor-movement count carried by a CSI sequence, defaulting to one
/// when the first parameter is absent or zero.
fn csi_amount_exec(params: &Vec<u16>) -> (n: usize)
    ensures
        n == csi_amount(params@),
        1 <= n <= u16::MAX,
{
    if params.len() > 0 {
        let p = params[0];
        if p > 0 {
            p as usize
        } else {
            1
        }
    } else {
        1
    }
}

/// One byte keeps a well-formed terminal well formed: the grid dimensions
/// are untouched or rebuilt to the same shape, the cursor stays inside the
/// grid, and the scrollback stays within its limit.
pub proof fn lemma_step_byte_wf(t: TermView, b: u8)
    requires
        term_wf(t),
    ensures
        term_wf(step_byte(t, b)),
{
    let t1 = TermView { parser: parser_step(t.parser, b), ..t };
    lemma_step_action_wf(t1, parser_action(t.parser, b));
}

/// One decoded action keeps a well-formed terminal well formed.
pub proof fn lemma_step_action_wf(t: TermView, a: ActionView)
    requires
        term_wf(t),
    ensures
        term_wf(step_action(t, a)),
{
    match a {
        ActionView::Print(c) => {
            lemma_scroll1_wf(
                TermView {
                    grid: t.grid.update(
                        t.cur_row,
                        t.grid[t.cur_row].update(t.cur_col, TerminalCell { character: c, ..t.style }),
                    ),
                    ..t
                },
            );
        },
        ActionView::Execute(b) => {
            lemma_scroll1_wf(t);
        },
        ActionView::CsiDispatch(params, fin) => {},
        ActionView::Ignore => {},
    }
}

/// One scrolled line keeps a well-formed terminal well formed.
pub proof fn lemma_scroll1_wf(t: TermView)
    requires
        term_wf(t),
    ensures
        term_wf(scroll1(t)),
{
}

/// A whole byte sequence keeps a well-formed terminal well formed; in
/// particular the cursor always satisfies `0 <= row < rows` and
/// `0 <= col < cols`, whatever bytes arrive.
pub proof fn lemma_feed_bytes_wf(t: TermView, bytes: Seq<u8>)
    requires
        term_wf(t),
    ensures
        term_wf(feed_bytes(t, bytes)),
    decreases bytes.len(),
{
    if bytes.len() > 0 {
        lemma_feed_bytes_wf(t, bytes.drop_last());
        lemma_step_byte_wf(feed_bytes(t, bytes.drop_last()), bytes.last());
    }
}

/// Every byte of the sequence prints: it lies in the ordinary printable
/// range.
pub open spec fn all_printable(bytes: Seq<u8>) -> bool {
    forall|i: int| 0 <= i < bytes.len() ==> 0x20 <= #[trigger] bytes[i] <= 0x7e
}

/// Filling a fresh terminal with fewer ordinary characters than the grid
/// holds scrolls nothing: the cursor simply walks the grid in row-major
/// order, and the scrollback stays empty.
pub proof fn lemma_fill_prefix(t0: TermView, bytes: Seq<u8>)
    requires
        term_wf(t0),
        t0.parser == ground_view(),
        t0.cur_row == 0,
        t0.cur_col == 0,
        t0.scrollback == Seq::<Seq<TerminalCell>>::empty(),
        all_printable(bytes),
        bytes.len() + 1 <= t0.rows * t0.cols,
    ensures
        ({
            let t = feed_bytes(t0, bytes);
            &&& term_wf(t)
            &&& t.rows == t0.rows
            &&& t.cols == t0.cols
            &&& t.limit == t0.limit
            &&& t.parser == ground_view()
            &&& t.scrollback == Seq::<Seq<TerminalCell>>::empty()
            &&& t.cur_row == bytes.len() as int / t0.cols as int
            &&& t.cur_col == bytes.len() as int % t0.cols as int
        }),
    decreases bytes.len(),
{
    let cols = t0.cols as int;
    let rows = t0.rows as int;
    if bytes.len() == 0 {
        assert(0int / cols == 0 && 0int % cols == 0) by {
            vstd::arithmetic::div_mod::lemma_fundamental_div_mod_converse(0int, cols, 0int, 0int);
            assert(0int * cols == 0) by (nonlinear_arith);
        }
    } else {
        let k = bytes.len() - 1;
        lemma_fill_prefix(t0, bytes.drop_last());
        let tk = feed_bytes(t0, bytes.drop_last());
        let b = bytes.last();
        let q = k / cols;
        let r = k % cols;
        vstd::arithmetic::div_mod::lemma_fundamental_div_mod(k, cols);
        assert(cols * q == q * cols) by (nonlinear_arith);
        // The final grid cell is not reached: the print never wraps off the
        // last row.
        assert(!(q == rows - 1 && r == cols - 1)) by {
            if q == rows - 1 && r == cols - 1 {
                assert((rows - 1) * cols + (cols - 1) == rows * cols - 1) by (nonlinear_arith);
            }
        }
        if r + 1 < cols {
            vstd::arithmetic::div_mod::lemma_fundamental_div_mod_converse(k + 1, cols, q, r + 1);
        } else {
            assert((q + 1) * cols == q * cols + cols) by (nonlinear_arith);
            vstd::arithmetic::div_mod::lemma_fundamental_div_mod_converse(k + 1, cols, q + 1, 0int);
            // The cursor moves to the next row, which exists: were it the
            // last, the final cell would have been reached.
            assert(q + 1 < rows) by {
                if q + 1 >= rows {
                    assert(q < rows);
                    assert(q == rows - 1);
                }
            }
        }
        assert(feed_bytes(t0, bytes) == step_byte(tk, b));
    }
}

/// Printing exactly one more ordinary character than the grid holds causes
/// exactly one scroll and leaves the visible row count unchanged: on a fresh
/// terminal of at least two columns with room in the scrollback, the
/// scrollback afterwards holds exactly one line. (On a one-column grid every
/// print past the first column scrolls, so that grid is left out.)
pub proof fn lemma_fill_scrolls_once(t0: TermView, bytes: Seq<u8>)
    requires
        term_wf(t0),
        t0.parser == ground_view(),
        t0.cur_row == 0,
        t0.cur_col == 0,
        t0.scrollback == Seq::<Seq<TerminalCell>>::empty(),
        all_printable(bytes),
        bytes.len() == t0.rows * t0.cols + 1,
        2 <= t0.cols,
        1 <= t0.limit,
    ensures
        feed_bytes(t0, bytes).rows == t0.rows,
        feed_bytes(t0, bytes).grid.len() == t0.rows,
        feed_bytes(t0, bytes).scrollback.len() == 1,
{
    let cols = t0.cols as int;
    let rows = t0.rows as int;
    let n = rows * cols;
    assert(n >= 2) by (nonlinear_arith)
        requires
            rows >= 1,
            cols >= 2,
            n == rows * cols,
    ;
    let pre = bytes.take(n - 1);
    assert(all_printable(pre));
    lemma_fill_prefix(t0, pre);
    let ta = feed_bytes(t0, pre);
    // The cursor stands on the last cell of the grid.
    assert((rows - 1) * cols + (cols - 1) == rows * cols - 1) by (nonlinear_arith);
    vstd::arithmetic::div_mod::lemma_fundamental_div_mod_converse(
        n - 1,
        cols,
        rows - 1,
        cols - 1,
    );
    // The next character fills that cell and scrolls one line.
    let tb = feed_bytes(t0, bytes.take(n));
    assert(bytes.take(n).drop_last() =~= pre);
    assert(tb == step_byte(ta, bytes[n - 1]));
    assert(0x20 <= bytes[n - 1] <= 0x7e);
    assert(tb.scrollback.len() == 1);
    assert(tb.cur_row == rows - 1 && tb.cur_col == 0);
    assert(term_wf(tb)) by {
        lemma_feed_bytes_wf(t0, bytes.take(n));
    }
    // The final character prints at the start of the last row: no scroll.
    assert(bytes.take(bytes.len() as int) =~= bytes);
    assert(feed_bytes(t0, bytes) == step_byte(tb, bytes[bytes.len() - 1]));
    assert(feed_bytes(t0, bytes).scrollback.len() == 1);
}

} // verus!
