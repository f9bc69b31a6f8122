use vstd::prelude::*;
use crate::color::Rgba;
use crate::chars::push_char;
use crate::width::{char_cols, cols};

verus! {

/// What a grid cell shows: a character, or the right half of the
/// double-width character one column to its left.
#[derive(Clone, Copy, Debug, PartialEq, Eq, Structural)]
pub enum Glyph {
    Char(char),
    WideTail,
}

/// Attributes of one cell as the terminal draws it.
#[derive(Clone, Copy, Debug, PartialEq, Eq, Structural)]
pub struct CellStyle {
    pub bold: bool,
    pub italic: bool,
    pub underline: bool,
    pub strikethrough: bool,
    pub fg: Option<Rgba>,
    pub cursor_anchor: bool,
    pub cursor_after: bool,
    pub bg: Option<Rgba>,
}

#[derive(Clone, Copy, Debug, PartialEq, Eq, Structural)]
pub struct Cell {
    pub glyph: Glyph,
    pub style: CellStyle,
}

pub open spec fn plain_style() -> CellStyle {
    CellStyle {
        bold: false,
        italic: false,
        underline: false,
        strikethrough: false,
        fg: None,
        cursor_anchor: false,
        cursor_after: false,
        bg: None,
    }
}

pub open spec fn blank_cell() -> Cell {
    Cell { glyph: Glyph::Char(' '), style: plain_style() }
}

impl CellStyle {
    /// No attribute, no color, no cursor mark.
    pub fn plain() -> (s: CellStyle)
        ensures
            s == plain_style(),
    {
        CellStyle {
            bold: false,
            italic: false,
            underline: false,
            strikethrough: false,
            fg: None,
            cursor_anchor: false,
            cursor_after: false,
            bg: None,
        }
    }
}

impl Cell {
    /// A space in the plain style.
    pub fn blank() -> (c: Cell)
        ensures
            c == blank_cell(),
    {
        Cell { glyph: Glyph::Char(' '), style: CellStyle::plain() }
    }
}

/// The mathematical content of a grid: row-major cells and the cursor.
pub struct GridView {
    pub width: nat,
    pub height: nat,
    pub cells: Seq<Cell>,
    pub cursor: Option<(u16, u16)>,
}

pub open spec fn cell_index(width: nat, x: int, y: int) -> int {
    y * width + x
}

impl GridView {
    pub open spec fn in_bounds(self, x: int, y: int) -> bool {
        0 <= x < self.width && 0 <= y < self.height
    }

    pub open spec fn cell(self, x: int, y: int) -> Cell {
        self.cells[cell_index(self.width, x, y)]
    }

    pub open spec fn with_cell(self, x: int, y: int, c: Cell) -> GridView {
        GridView { cells: self.cells.update(cell_index(self.width, x, y), c), ..self }
    }

    pub open spec fn is_tail(self, x: int, y: int) -> bool {
        self.cell(x, y).glyph is WideTail
    }

    /// Every wide tail has a character head one column to its left.
    pub open spec fn tails_ok(self) -> bool {
        forall|x: int, y: int|
            #![trigger self.cell(x, y)]
            self.in_bounds(x, y) && self.is_tail(x, y) ==> x > 0 && !self.is_tail(x - 1, y)
    }

    pub open spec fn shaped(self) -> bool {
        &&& self.cells.len() == self.width * self.height
        &&& self.width <= u16::MAX
        &&& self.height <= u16::MAX
    }

    pub open spec fn wf(self) -> bool {
        self.shaped() && self.tails_ok()
    }

    pub open spec fn same_dims(self, o: GridView) -> bool {
        self.width == o.width && self.height == o.height
    }
}

/// The grid of `width` by `height` blank cells, without a cursor.
pub open spec fn blank_grid(width: nat, height: nat) -> GridView {
    GridView {
        width,
        height,
        cells: Seq::new(width * height, |i: int| blank_cell()),
        cursor: None,
    }
}

pub proof fn lemma_index(w: nat, h: nat, x: int, y: int)
    requires
        0 <= x < w,
        0 <= y < h,
    ensures
        0 <= cell_index(w, x, y) < w * h,
{
    assert(0 <= y * w + x < w * h) by (nonlinear_arith)
        requires
            0 <= x < w,
            0 <= y < h,
    ;
}

pub proof fn lemma_area(w: nat, h: nat)
    requires
        w <= u16::MAX,
        h <= u16::MAX,
    ensures
        w * h <= 0xfffe0001,
{
    assert(w * h <= 0xffff * 0xffff) by (nonlinear_arith)
        requires
            w <= 0xffff,
            h <= 0xffff,
    ;
}

pub proof fn lemma_index_distinct(w: nat, x1: int, y1: int, x2: int, y2: int)
    requires
        0 <= x1 < w,
        0 <= x2 < w,
        0 <= y1,
        0 <= y2,
        x1 != x2 || y1 != y2,
    ensures
        cell_index(w, x1, y1) != cell_index(w, x2, y2),
{
    if y1 == y2 {
    } else if y1 < y2 {
        assert(y1 * w + x1 < y2 * w + x2) by (nonlinear_arith)
            requires
                0 <= x1 < w,
                0 <= x2 < w,
                0 <= y1 < y2,
        ;
    } else {
        assert(y2 * w + x2 < y1 * w + x1) by (nonlinear_arith)
            requires
                0 <= x1 < w,
                0 <= x2 < w,
                0 <= y2 < y1,
        ;
    }
}

/// Writing one cell changes that cell alone.
pub proof fn lemma_with_cell(g: GridView, x: int, y: int, c: Cell)
    requires
        g.cells.len() == g.width * g.height,
        g.in_bounds(x, y),
    ensures
        g.with_cell(x, y, c).cells.len() == g.cells.len(),
        forall|x2: int, y2: int|
            #![trigger g.with_cell(x, y, c).cell(x2, y2)]
            g.in_bounds(x2, y2) ==> g.with_cell(x, y, c).cell(x2, y2) == if x2 == x && y2 == y {
                c
            } else {
                g.cell(x2, y2)
            },
{
    lemma_index(g.width, g.height, x, y);
    assert forall|x2: int, y2: int| #![trigger g.with_cell(x, y, c).cell(x2, y2)]
        g.in_bounds(x2, y2) implies g.with_cell(x, y, c).cell(x2, y2) == if x2 == x && y2 == y {
            c
        } else {
            g.cell(x2, y2)
        } by {
        lemma_index(g.width, g.height, x2, y2);
        lemma_index(g.width, g.height, x, y);
        if x2 != x || y2 != y {
            lemma_index_distinct(g.width, x, y, x2, y2);
        }
    }
}


/// A fixed-size grid of styled cells, addressed by (x, y) with x in
/// `[0, width)` and y in `[0, height)`.
#[derive(Clone, Debug)]
pub struct CellBuffer {
    width: u16,
    height: u16,
    cells: Vec<Cell>,
    cursor: Option<(u16, u16)>,
}

impl View for CellBuffer {
    type V = GridView;

    closed spec fn view(&self) -> GridView {
        GridView {
            width: self.width as nat,
            height: self.height as nat,
            cells: self.cells@,
            cursor: self.cursor,
        }
    }
}

/// A background color fills in where a style leaves it unset.
pub open spec fn fill_bg(s: CellStyle, bg: Option<Rgba>) -> CellStyle {
    if s.bg is None {
        CellStyle { bg, ..s }
    } else {
        s
    }
}

/// The cursor position that an anchored character at (x, y) designates.
pub open spec fn anchored_cursor(g: GridView, x: int, y: int, ch: char, s: CellStyle) -> (u16, u16) {
    let advance: int = if s.cursor_after { cols(ch) as int } else { 0 };
    let cx: int = if x + advance < g.width - 1 { x + advance } else { g.width - 1 };
    (cx as u16, y as u16)
}

/// The grid after placing `ch` with style `s` at (x, y): the head cell, a wide
/// tail for a double-width character where the row has room, and a space in
/// place of a tail that the write would leave without its head.
pub open spec fn placed(g: GridView, x: int, y: int, ch: char, s: CellStyle) -> GridView {
    if !g.in_bounds(x, y) || cols(ch) == 0 {
        g
    } else {
        let g1 = g.with_cell(x, y, Cell { glyph: Glyph::Char(ch), style: fill_bg(s, g.cell(x, y).style.bg) });
        let g2 = if s.cursor_anchor {
            GridView { cursor: Some(anchored_cursor(g, x, y, ch, s)), ..g1 }
        } else {
            g1
        };
        let wide = cols(ch) > 1 && x + 1 < g.width;
        let g3 = if wide {
            g2.with_cell(x + 1, y, Cell { glyph: Glyph::WideTail, style: fill_bg(s, g.cell(x + 1, y).style.bg) })
        } else {
            g2
        };
        let next = if wide { x + 2 } else { x + 1 };
        if next < g.width && g3.is_tail(next, y) {
            g3.with_cell(next, y, Cell { glyph: Glyph::Char(' '), style: g3.cell(next, y).style })
        } else {
            g3
        }
    }
}

/// Placing a character keeps every wide tail attached to its head.
#[verifier::rlimit(60)]
#[verifier::spinoff_prover]
pub proof fn lemma_placed_wf(g: GridView, x: int, y: int, ch: char, s: CellStyle)
    requires
        g.wf(),
    ensures
        placed(g, x, y, ch, s).wf(),
{
    if g.in_bounds(x, y) && cols(ch) != 0 {
        let g1 = g.with_cell(x, y, Cell { glyph: Glyph::Char(ch), style: fill_bg(s, g.cell(x, y).style.bg) });
        lemma_with_cell(g, x, y, Cell { glyph: Glyph::Char(ch), style: fill_bg(s, g.cell(x, y).style.bg) });
        let g2 = if s.cursor_anchor {
            GridView { cursor: Some(anchored_cursor(g, x, y, ch, s)), ..g1 }
        } else {
            g1
        };
        let wide = cols(ch) > 1 && x + 1 < g.width;
        let tail = Cell { glyph: Glyph::WideTail, style: fill_bg(s, g.cell(x + 1, y).style.bg) };
        let g3 = if wide { g2.with_cell(x + 1, y, tail) } else { g2 };
        if wide {
            lemma_with_cell(g2, x + 1, y, tail);
        }
        let next = if wide { x + 2 } else { x + 1 };
        let f = placed(g, x, y, ch, s);
        if next < g.width && g3.is_tail(next, y) {
            lemma_with_cell(g3, next, y, Cell { glyph: Glyph::Char(' '), style: g3.cell(next, y).style });
        }
        assert(g2.cells == g1.cells);
        assert forall|x2: int, y2: int| #![trigger f.cell(x2, y2)]
            f.in_bounds(x2, y2) && f.is_tail(x2, y2) implies x2 > 0 && !f.is_tail(x2 - 1, y2) by {
            assert(g.in_bounds(x2, y2));
            assert(g1.cell(x2, y2) == g2.cell(x2, y2));
            assert(g3.cell(x2, y2) == f.cell(x2, y2) || x2 == next);
            if x2 > 0 {
                assert(g.in_bounds(x2 - 1, y2));
                assert(g1.cell(x2 - 1, y2) == g2.cell(x2 - 1, y2));
                assert(g3.cell(x2 - 1, y2) == f.cell(x2 - 1, y2) || x2 - 1 == next);
                assert(g.cell(x2 - 1, y2) == g3.cell(x2 - 1, y2) || (y2 == y && (x2 - 1 == x || x2 - 1 == x + 1)));
            }
        }
    }
}

impl CellBuffer {
    pub open spec fn wf(&self) -> bool {
        self@.wf()
    }

    /// A grid of blank cells without a cursor.
    pub fn new(width: u16, height: u16) -> (b: CellBuffer)
        ensures
            b.wf(),
            b@ == blank_grid(width as nat, height as nat),
    {
        proof {
            lemma_area(width as nat, height as nat);
        }
        let len: usize = width as usize * height as usize;
        let mut cells: Vec<Cell> = Vec::new();
        let mut i: usize = 0;
        while i < len
            invariant
                i <= len,
                cells@ == Seq::new(i as nat, |k: int| blank_cell()),
            decreases len - i,
        {
            cells.push(Cell::blank());
            i = i + 1;
            assert(cells@ =~= Seq::new(i as nat, |k: int| blank_cell()));
        }
        let b = CellBuffer { width, height, cells, cursor: None };
        assert(b@.cells =~= blank_grid(width as nat, height as nat).cells);
        assert forall|x: int, y: int| #![trigger b@.cell(x, y)]
            b@.in_bounds(x, y) implies !b@.is_tail(x, y) by {
            lemma_index(width as nat, height as nat, x, y);
        }
        b
    }

    pub fn width(&self) -> (w: u16)
        ensures
            w as nat == self@.width,
    {
        self.width
    }

    pub fn height(&self) -> (h: u16)
        ensures
            h as nat == self@.height,
    {
        self.height
    }

    pub fn cursor(&self) -> (c: Option<(u16, u16)>)
        ensures
            c == self@.cursor,
    {
        self.cursor
    }

    fn idx(&self, x: u16, y: u16) -> (i: usize)
        requires
            self@.shaped(),
            self@.in_bounds(x as int, y as int),
        ensures
            i as int == cell_index(self@.width, x as int, y as int),
            i < self.cells@.len(),
    {
        proof {
            lemma_index(self@.width, self@.height, x as int, y as int);
            lemma_area(self@.width, self@.height);
        }
        y as usize * self.width as usize + x as usize
    }

    pub fn get(&self, x: u16, y: u16) -> (c: Cell)
        requires
            self@.shaped(),
            self@.in_bounds(x as int, y as int),
        ensures
            c == self@.cell(x as int, y as int),
    {
        self.cells[self.idx(x, y)]
    }

    /// Overwrites one cell; the caller keeps wide tails attached to heads.
    fn set(&mut self, x: u16, y: u16, cell: Cell)
        requires
            old(self)@.shaped(),
            old(self)@.in_bounds(x as int, y as int),
        ensures
            final(self)@ == old(self)@.with_cell(x as int, y as int, cell),
            final(self)@.shaped(),
    {
        let i = self.idx(x, y);
        self.cells.set(i, cell);
        proof {
            lemma_with_cell(old(self)@, x as int, y as int, cell);
        }
        assert(self@.cells =~= old(self)@.with_cell(x as int, y as int, cell).cells);
    }

    /// Sets the background of one cell and keeps the rest of it.
    pub fn set_bg(&mut self, x: u16, y: u16, bg: Rgba)
        requires
            old(self).wf(),
            old(self)@.in_bounds(x as int, y as int),
        ensures
            final(self).wf(),
            final(self)@ == old(self)@.with_cell(
                x as int,
                y as int,
                Cell { style: CellStyle { bg: Some(bg), ..old(self)@.cell(x as int, y as int).style }, ..old(self)@.cell(x as int, y as int) },
            ),
    {
        let mut cell = self.get(x, y);
        cell.style.bg = Some(bg);
        self.set(x, y, cell);
        proof {
            lemma_with_cell(old(self)@, x as int, y as int, cell);
            let f = self@;
            assert forall|x2: int, y2: int| #![trigger f.cell(x2, y2)]
                f.in_bounds(x2, y2) && f.is_tail(x2, y2) implies x2 > 0 && !f.is_tail(x2 - 1, y2) by {
                assert(old(self)@.is_tail(x2, y2));
                if x2 > 0 {
                    assert(old(self)@.cell(x2 - 1, y2).glyph == f.cell(x2 - 1, y2).glyph);
                }
            }
        }
    }

    /// Places `ch` at (x, y). Positions off the grid and zero-width characters
    /// leave the grid as it was; see `placed` for the rest.
    #[verifier::rlimit(60)]
    #[verifier::spinoff_prover]
    pub fn put_char(&mut self, x: i32, y: i32, ch: char, style: CellStyle)
        requires
            old(self).wf(),
        ensures
            final(self).wf(),
            final(self)@ == placed(old(self)@, x as int, y as int, ch, style),
    {
        if x < 0 || y < 0 || x >= self.width as i32 || y >= self.height as i32 {
            return;
        }
        let gw = char_cols(ch);
        if gw == 0 {
            return;
        }
        let ghost g = self@;
        let x = x as u16;
        let y = y as u16;
        let mut head_style = style;
        if head_style.bg.is_none() {
            head_style.bg = self.get(x, y).style.bg;
        }
        self.set(x, y, Cell { glyph: Glyph::Char(ch), style: head_style });
        proof {
            lemma_with_cell(g, x as int, y as int, Cell { glyph: Glyph::Char(ch), style: head_style });
        }
        if style.cursor_anchor {
            let cx: u16 = if !style.cursor_after {
                x
            } else if gw >= (self.width - x) as usize {
                self.width - 1
            } else {
                x + gw as u16
            };
            self.cursor = Some((cx, y));
        }
        let ghost g2 = self@;
        let mut next: u16 = x + 1;
        if gw > 1 && x + 1 < self.width {
            let mut tail_style = style;
            if tail_style.bg.is_none() {
                tail_style.bg = self.get(x + 1, y).style.bg;
            }
            self.set(x + 1, y, Cell { glyph: Glyph::WideTail, style: tail_style });
            proof {
                lemma_with_cell(g2, x as int + 1, y as int, Cell { glyph: Glyph::WideTail, style: tail_style });
            }
            next = x + 2;
        }
        let ghost g3 = self@;
        if next < self.width {
            let c = self.get(next, y);
            if matches!(c.glyph, Glyph::WideTail) {
                self.set(next, y, Cell { glyph: Glyph::Char(' '), style: c.style });
                proof {
                    lemma_with_cell(g3, next as int, y as int, Cell { glyph: Glyph::Char(' '), style: c.style });
                }
            }
        }
        proof {
            lemma_placed_wf(g, x as int, y as int, ch, style);
        }
    }
}


/// A changed horizontal span: its first column, its row, the characters of
/// its cells (wide tails contribute none) and the style they share.
#[derive(Clone, Debug)]
pub struct CellRun {
    pub x: u16,
    pub y: u16,
    pub text: String,
    pub style: CellStyle,
}

pub struct RunView {
    pub x: int,
    pub y: int,
    pub text: Seq<char>,
    pub style: CellStyle,
}

impl View for CellRun {
    type V = RunView;

    open spec fn view(&self) -> RunView {
        RunView { x: self.x as int, y: self.y as int, text: self.text@, style: self.style }
    }
}

pub open spec fn runs_view(v: Seq<CellRun>) -> Seq<RunView> {
    v.map_values(|r: CellRun| r@)
}

/// The column after the unit that starts at x: a head and its tail form one unit.
pub open spec fn unit_end(g: GridView, x: int, y: int) -> int {
    if x + 1 < g.width && g.is_tail(x + 1, y) {
        x + 2
    } else {
        x + 1
    }
}

/// A unit starts at (x, y) and one of its cells differs from `p`.
pub open spec fn emits(g: GridView, p: GridView, x: int, y: int) -> bool {
    &&& !g.is_tail(x, y)
    &&& (g.cell(x, y) != p.cell(x, y) || (x + 1 < g.width && g.is_tail(x + 1, y) && g.cell(x + 1, y) != p.cell(x + 1, y)))
}

pub open spec fn glyph_char(gl: Glyph) -> char {
    match gl {
        Glyph::Char(c) => c,
        Glyph::WideTail => ' ',
    }
}

/// The column where a run of style `s` that reaches x ends.
pub open spec fn run_end(g: GridView, p: GridView, y: int, x: int, s: CellStyle) -> int
    decreases g.width - x,
{
    if 0 <= x < g.width && emits(g, p, x, y) && g.cell(x, y).style == s {
        run_end(g, p, y, unit_end(g, x, y), s)
    } else {
        x
    }
}

/// The characters of the run of style `s` from x to `run_end`.
pub open spec fn run_text(g: GridView, p: GridView, y: int, x: int, s: CellStyle) -> Seq<char>
    decreases g.width - x,
{
    if 0 <= x < g.width && emits(g, p, x, y) && g.cell(x, y).style == s {
        seq![glyph_char(g.cell(x, y).glyph)] + run_text(g, p, y, unit_end(g, x, y), s)
    } else {
        Seq::empty()
    }
}

pub proof fn lemma_run_end_bounds(g: GridView, p: GridView, y: int, x: int, s: CellStyle)
    requires
        0 <= x,
    ensures
        x <= run_end(g, p, y, x, s),
        x <= g.width ==> run_end(g, p, y, x, s) <= g.width,
        0 <= x < g.width && emits(g, p, x, y) && g.cell(x, y).style == s ==> x < run_end(g, p, y, x, s),
    decreases g.width - x,
{
    if 0 <= x < g.width && emits(g, p, x, y) && g.cell(x, y).style == s {
        lemma_run_end_bounds(g, p, y, unit_end(g, x, y), s);
    }
}

#[via_fn]
proof fn row_runs_decreases(g: GridView, p: GridView, y: int, x: int) {
    if 0 <= x < g.width && emits(g, p, x, y) {
        lemma_run_end_bounds(g, p, y, x, g.cell(x, y).style);
    }
}

/// The runs of row y from column x on, left to right.
pub open spec fn row_runs(g: GridView, p: GridView, y: int, x: int) -> Seq<RunView>
    decreases g.width - x,
    via row_runs_decreases
{
    if x < 0 || x >= g.width {
        Seq::empty()
    } else if !emits(g, p, x, y) {
        row_runs(g, p, y, x + 1)
    } else {
        let s = g.cell(x, y).style;
        seq![RunView { x, y, text: run_text(g, p, y, x, s), style: s }] + row_runs(g, p, y, run_end(g, p, y, x, s))
    }
}

/// The runs of rows y and below, top to bottom.
pub open spec fn rows_runs(g: GridView, p: GridView, y: int) -> Seq<RunView>
    decreases g.height - y,
{
    if y < 0 || y >= g.height {
        Seq::empty()
    } else {
        row_runs(g, p, y, 0) + rows_runs(g, p, y + 1)
    }
}

/// What must be written to turn `p` into `g` on screen; a grid of other
/// dimensions is redrawn whole, as against a blank grid.
pub open spec fn frame_runs(g: GridView, p: GridView) -> Seq<RunView> {
    if g.same_dims(p) {
        rows_runs(g, p, 0)
    } else {
        rows_runs(g, blank_grid(g.width, g.height), 0)
    }
}

fn same_style(a: CellStyle, b: CellStyle) -> (r: bool)
    ensures
        r == (a == b),
{
    a == b
}

/// A row without changed units from column x on yields no run.
pub proof fn lemma_row_quiet(g: GridView, p: GridView, y: int, x: int)
    requires
        forall|x2: int| #![trigger emits(g, p, x2, y)] x <= x2 < g.width ==> !emits(g, p, x2, y),
    ensures
        row_runs(g, p, y, x) == Seq::<RunView>::empty(),
    decreases g.width - x,
{
    if 0 <= x < g.width {
        assert(!emits(g, p, x, y));
        lemma_row_quiet(g, p, y, x + 1);
    }
}

/// Columns without changed units are passed over.
pub proof fn lemma_row_skip(g: GridView, p: GridView, y: int, x: int, h: int)
    requires
        0 <= x <= h <= g.width,
        forall|x2: int| #![trigger emits(g, p, x2, y)] x <= x2 < h ==> !emits(g, p, x2, y),
    ensures
        row_runs(g, p, y, x) == row_runs(g, p, y, h),
    decreases h - x,
{
    if x < h {
        assert(!emits(g, p, x, y));
        lemma_row_skip(g, p, y, x + 1, h);
    }
}

proof fn lemma_rows_quiet(g: GridView, p: GridView, y: int)
    requires
        0 <= y,
        forall|x2: int, y2: int| #![trigger emits(g, p, x2, y2)] g.in_bounds(x2, y2) ==> !emits(g, p, x2, y2),
    ensures
        rows_runs(g, p, y) == Seq::<RunView>::empty(),
    decreases g.height - y,
{
    if y < g.height {
        lemma_row_quiet(g, p, y, 0);
        lemma_rows_quiet(g, p, y + 1);
        assert(rows_runs(g, p, y) =~= Seq::<RunView>::empty());
    }
}

/// Diffing a grid against itself yields no run.
pub proof fn lemma_diff_self(g: GridView)
    requires
        g.wf(),
    ensures
        frame_runs(g, g) == Seq::<RunView>::empty(),
{
    lemma_rows_quiet(g, g, 0);
}

/// The two grids have the same dimensions and differ in the cell (x0, y0) alone.
pub open spec fn differ_only_at(g: GridView, p: GridView, x0: int, y0: int) -> bool {
    &&& g.same_dims(p)
    &&& g.in_bounds(x0, y0)
    &&& g.cell(x0, y0) != p.cell(x0, y0)
    &&& forall|x: int, y: int| #![trigger g.cell(x, y), p.cell(x, y)]
        g.in_bounds(x, y) && (x != x0 || y != y0) ==> g.cell(x, y) == p.cell(x, y)
}

/// The column of the character that the cell at (x, y) belongs to.
pub open spec fn unit_head(g: GridView, x: int, y: int) -> int {
    if g.is_tail(x, y) {
        x - 1
    } else {
        x
    }
}

/// The one run that a single changed cell yields.
pub open spec fn single_run(g: GridView, x0: int, y0: int) -> RunView {
    let h = unit_head(g, x0, y0);
    RunView { x: h, y: y0, text: seq![glyph_char(g.cell(h, y0).glyph)], style: g.cell(h, y0).style }
}

proof fn lemma_emits_one(g: GridView, p: GridView, x0: int, y0: int, x: int, y: int)
    requires
        g.wf(),
        p.wf(),
        differ_only_at(g, p, x0, y0),
        g.in_bounds(x, y),
    ensures
        emits(g, p, x, y) <==> (y == y0 && x == unit_head(g, x0, y0)),
{
    assert(g.cell(x, y) == p.cell(x, y) || (x == x0 && y == y0));
    if x + 1 < g.width {
        assert(g.cell(x + 1, y) == p.cell(x + 1, y) || (x + 1 == x0 && y == y0));
    }
    assert(g.in_bounds(x0, y0));
    assert(g.cell(x0, y0) == g.cell(x0, y0));
    if x0 > 0 {
        assert(g.in_bounds(x0 - 1, y0));
    }
}

/// Diffing against a grid that differs in exactly one cell yields exactly
/// one run: the character that the changed cell belongs to.
pub proof fn lemma_diff_one_cell(g: GridView, p: GridView, x0: int, y0: int)
    requires
        g.wf(),
        p.wf(),
        differ_only_at(g, p, x0, y0),
    ensures
        frame_runs(g, p) == seq![single_run(g, x0, y0)],
{
    assert forall|x2: int, y2: int| #![trigger emits(g, p, x2, y2)]
        g.in_bounds(x2, y2) implies (emits(g, p, x2, y2) <==> (y2 == y0 && x2 == unit_head(g, x0, y0))) by {
        lemma_emits_one(g, p, x0, y0, x2, y2);
    }
    let h = unit_head(g, x0, y0);
    assert(g.cell(x0, y0) == g.cell(x0, y0));
    assert(0 <= h < g.width);
    let s = g.cell(h, y0).style;
    let u = unit_end(g, h, y0);
    lemma_row_skip(g, p, y0, 0, h);
    assert(emits(g, p, h, y0));
    if u < g.width {
        assert(!emits(g, p, u, y0));
    }
    assert(run_end(g, p, y0, u, s) == u);
    assert(run_text(g, p, y0, u, s) == Seq::<char>::empty());
    assert(run_text(g, p, y0, h, s) =~= seq![glyph_char(g.cell(h, y0).glyph)]);
    lemma_row_quiet(g, p, y0, u);
    assert(row_runs(g, p, y0, 0) =~= seq![single_run(g, x0, y0)]);
    lemma_rows_one(g, p, x0, y0, 0);
}

proof fn lemma_rows_one(g: GridView, p: GridView, x0: int, y0: int, y: int)
    requires
        0 <= y,
        0 <= y0 < g.height,
        row_runs(g, p, y0, 0) == seq![single_run(g, x0, y0)],
        forall|x2: int, y2: int| #![trigger emits(g, p, x2, y2)] g.in_bounds(x2, y2) && y2 != y0 ==> !emits(g, p, x2, y2),
    ensures
        rows_runs(g, p, y) == if y <= y0 { seq![single_run(g, x0, y0)] } else { Seq::<RunView>::empty() },
    decreases g.height - y,
{
    if y < g.height {
        lemma_rows_one(g, p, x0, y0, y + 1);
        if y != y0 {
            lemma_row_quiet(g, p, y, 0);
        }
        assert(rows_runs(g, p, y) =~= if y <= y0 { seq![single_run(g, x0, y0)] } else { Seq::<RunView>::empty() });
    }
}

/// A run starts on a character and, where it stops inside the row, stops
/// before a character: never between a head and its tail.
pub proof fn lemma_run_bounds_whole(g: GridView, p: GridView, y: int, x: int, s: CellStyle)
    requires
        g.wf(),
        0 <= y < g.height,
        0 <= x <= g.width,
        x < g.width ==> !g.is_tail(x, y),
    ensures
        run_end(g, p, y, x, s) < g.width ==> !g.is_tail(run_end(g, p, y, x, s), y),
    decreases g.width - x,
{
    if 0 <= x < g.width && emits(g, p, x, y) && g.cell(x, y).style == s {
        let u = unit_end(g, x, y);
        if u < g.width {
            assert(g.in_bounds(u, y));
            if g.is_tail(x + 1, y) {
                assert(g.in_bounds(x + 1, y));
            }
        }
        lemma_run_end_bounds(g, p, y, u, s);
        lemma_run_bounds_whole(g, p, y, u, s);
    }
}

impl CellBuffer {
    fn emits_at(&self, prev: &CellBuffer, x: u16, y: u16) -> (r: bool)
        requires
            self.wf(),
            prev.wf(),
            self@.same_dims(prev@),
            self@.in_bounds(x as int, y as int),
        ensures
            r == emits(self@, prev@, x as int, y as int),
    {
        let c = self.get(x, y);
        if matches!(c.glyph, Glyph::WideTail) {
            return false;
        }
        if c != prev.get(x, y) {
            return true;
        }
        if x + 1 < self.width {
            let t = self.get(x + 1, y);
            matches!(t.glyph, Glyph::WideTail) && t != prev.get(x + 1, y)
        } else {
            false
        }
    }

    fn unit_end_at(&self, x: u16, y: u16) -> (r: u16)
        requires
            self.wf(),
            self@.in_bounds(x as int, y as int),
        ensures
            r as int == unit_end(self@, x as int, y as int),
    {
        if x + 1 < self.width && matches!(self.get(x + 1, y).glyph, Glyph::WideTail) {
            x + 2
        } else {
            x + 1
        }
    }

    fn runs_against(&self, prev: &CellBuffer) -> (runs: Vec<CellRun>)
        requires
            self.wf(),
            prev.wf(),
            self@.same_dims(prev@),
        ensures
            runs_view(runs@) == rows_runs(self@, prev@, 0),
    {
        let ghost g = self@;
        let ghost p = prev@;
        let mut runs: Vec<CellRun> = Vec::new();
        let mut y: u16 = 0;
        while y < self.height
            invariant
                self.wf(),
                prev.wf(),
                g == self@,
                p == prev@,
                g.same_dims(p),
                y <= g.height,
                runs_view(runs@) + rows_runs(g, p, y as int) == rows_runs(g, p, 0),
            decreases g.height - y,
        {
            let mut x: u16 = 0;
            assert(rows_runs(g, p, y as int) == row_runs(g, p, y as int, 0) + rows_runs(g, p, y + 1));
            while x < self.width
                invariant
                    self.wf(),
                    prev.wf(),
                    g == self@,
                    p == prev@,
                    g.same_dims(p),
                    y < g.height,
                    x <= g.width,
                    runs_view(runs@) + row_runs(g, p, y as int, x as int) + rows_runs(g, p, y + 1) == rows_runs(g, p, 0),
                decreases g.width - x,
            {
                if !self.emits_at(prev, x, y) {
                    x = x + 1;
                    continue;
                }
                let run_x = x;
                let run_style = self.get(x, y).style;
                let ghost rs = run_style;
                let mut text = String::new();
                proof {
                    lemma_run_end_bounds(g, p, y as int, x as int, rs);
                }
                let mut more = true;
                while more
                    invariant
                        self.wf(),
                        prev.wf(),
                        g == self@,
                        p == prev@,
                        g.same_dims(p),
                        y < g.height,
                        run_x <= x <= g.width,
                        rs == run_style,
                        run_end(g, p, y as int, run_x as int, rs) == run_end(g, p, y as int, x as int, rs),
                        run_text(g, p, y as int, run_x as int, rs) == text@ + run_text(g, p, y as int, x as int, rs),
                        more <==> (x < g.width && emits(g, p, x as int, y as int) && g.cell(x as int, y as int).style == rs),
                    decreases g.width - x,
                {
                    let c = self.get(x, y);
                    let ch = match c.glyph {
                        Glyph::Char(ch) => ch,
                        Glyph::WideTail => ' ',
                    };
                    assert(emits(g, p, x as int, y as int));
                    assert(g.cell(x as int, y as int).style == rs);
                    assert(glyph_char(g.cell(x as int, y as int).glyph) == ch);
                    let ghost before = text@;
                    push_char(&mut text, ch);
                    let nx = self.unit_end_at(x, y);
                    proof {
                        lemma_run_end_bounds(g, p, y as int, x as int, rs);
                    }
                    assert(run_text(g, p, y as int, x as int, rs) == seq![ch] + run_text(g, p, y as int, nx as int, rs));
                    assert(text@ + run_text(g, p, y as int, nx as int, rs) =~= before + (seq![ch] + run_text(g, p, y as int, nx as int, rs)));
                    x = nx;
                    if x < self.width && self.emits_at(prev, x, y) {
                        let nc = self.get(x, y);
                        more = same_style(nc.style, run_style);

                    } else {
                        more = false;
                    }

                }
                assert(run_text(g, p, y as int, x as int, rs) =~= Seq::<char>::empty());
                assert(text@ =~= run_text(g, p, y as int, run_x as int, rs));
                let run = CellRun { x: run_x, y, text, style: run_style };
                let ghost old_runs = runs@;
                runs.push(run);
                assert(runs_view(runs@) =~= runs_view(old_runs).push(run@));
                assert(run_end(g, p, y as int, x as int, rs) == x as int);
                assert(runs_view(runs@) + row_runs(g, p, y as int, x as int) + rows_runs(g, p, y + 1) =~=
                    runs_view(old_runs) + row_runs(g, p, y as int, run_x as int) + rows_runs(g, p, y + 1));
            }
            assert(runs_view(runs@) + rows_runs(g, p, y + 1) =~= runs_view(runs@) + row_runs(g, p, y as int, x as int) + rows_runs(g, p, y + 1));
            y = y + 1;
        }
        assert(runs_view(runs@) =~= runs_view(runs@) + rows_runs(g, p, y as int));
        runs
    }

    /// The changed runs that turn `prev` into this grid on screen.
    pub fn diff_runs(&self, prev: &CellBuffer) -> (runs: Vec<CellRun>)
        requires
            self.wf(),
            prev.wf(),
        ensures
            runs_view(runs@) == frame_runs(self@, prev@),
    {
        if self.width != prev.width || self.height != prev.height {
            let empty = CellBuffer::new(self.width, self.height);
            return self.runs_against(&empty);
        }
        self.runs_against(prev)
    }
}

} // verus!
