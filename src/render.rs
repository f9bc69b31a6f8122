use vstd::prelude::*;
use crate::color::Rgba;
use crate::frame::{blank_grid, placed, CellBuffer, CellStyle, GridView};
use crate::layout::{build_spec, BoxKind, LayoutPlan, PlanView, RunV, run_views};
use crate::node::Node;
use crate::text::{StyledText, TextRun, TextStyle};
use crate::width::{char_cols, cols};

verus! {

/// A half-open rectangle of cells: `left <= x < right`, `top <= y < bottom`.
#[derive(Clone, Copy, Debug, PartialEq, Eq, Structural)]
pub struct Rect {
    pub left: i32,
    pub top: i32,
    pub right: i32,
    pub bottom: i32,
}

/// Where the constraint solver put a box: relative to its parent, in cells.
#[derive(Clone, Copy, Debug, PartialEq, Eq, Structural)]
pub struct Placement {
    pub x: i32,
    pub y: i32,
    pub width: i32,
    pub height: i32,
}

/// The layout could not be completed for this frame.
#[derive(Clone, Copy, Debug, PartialEq, Eq, Structural)]
pub struct LayoutError;

pub open spec fn sat32(v: int) -> int {
    if v > i32::MAX {
        i32::MAX as int
    } else if v < i32::MIN {
        i32::MIN as int
    } else {
        v
    }
}

pub open spec fn max_int(a: int, b: int) -> int {
    if a >= b {
        a
    } else {
        b
    }
}

pub open spec fn min_int(a: int, b: int) -> int {
    if a <= b {
        a
    } else {
        b
    }
}

/// The common part of two rectangles, `None` where it is empty.
pub open spec fn intersect(a: Rect, b: Rect) -> Option<Rect> {
    let l = max_int(a.left as int, b.left as int);
    let t = max_int(a.top as int, b.top as int);
    let r = min_int(a.right as int, b.right as int);
    let bt = min_int(a.bottom as int, b.bottom as int);
    if l >= r || t >= bt {
        None
    } else {
        Some(Rect { left: l as i32, top: t as i32, right: r as i32, bottom: bt as i32 })
    }
}

pub open spec fn clip_with(c: Option<Rect>, b: Rect) -> Option<Rect> {
    match c {
        Some(r) => intersect(r, b),
        None => None,
    }
}

pub open spec fn area(c: Option<Rect>) -> int {
    match c {
        Some(r) => if r.right > r.left && r.bottom > r.top {
            (r.right - r.left) * (r.bottom - r.top)
        } else {
            0
        },
        None => 0,
    }
}

/// `a` lies within `b`.
pub open spec fn within(a: Option<Rect>, b: Option<Rect>) -> bool {
    match a {
        None => true,
        Some(x) => match b {
            None => false,
            Some(y) => y.left <= x.left && x.right <= y.right && y.top <= x.top && x.bottom <= y.bottom,
        },
    }
}

impl Rect {
    pub fn intersect(self, other: Rect) -> (r: Option<Rect>)
        ensures
            r == intersect(self, other),
    {
        let left = if self.left >= other.left { self.left } else { other.left };
        let top = if self.top >= other.top { self.top } else { other.top };
        let right = if self.right <= other.right { self.right } else { other.right };
        let bottom = if self.bottom <= other.bottom { self.bottom } else { other.bottom };
        if left >= right || top >= bottom {
            None
        } else {
            Some(Rect { left, top, right, bottom })
        }
    }
}

/// Clipping by one more rectangle keeps the clip within what it was, so
/// its area never grows.
pub proof fn lemma_clip_shrinks(c: Option<Rect>, b: Rect)
    ensures
        within(clip_with(c, b), c),
        area(clip_with(c, b)) <= area(c),
{
    if let (Some(r), Some(x)) = (c, clip_with(c, b)) {
        let w1 = x.right - x.left;
        let h1 = x.bottom - x.top;
        let w0 = r.right - r.left;
        let h0 = r.bottom - r.top;
        assert(w1 * h1 <= w0 * h0) by (nonlinear_arith)
            requires
                0 < w1 <= w0,
                0 < h1 <= h0,
        ;
    }
}

/// The position of box i on the screen: its offset added to its parent's.
pub open spec fn abs_pos(pv: PlanView, geo: Seq<Placement>, i: int) -> (int, int)
    decreases i,
{
    if i < 0 || i >= geo.len() || i >= pv.boxes.len() {
        (0, 0)
    } else {
        match pv.boxes[i].parent {
            Some(p) if 0 <= p < i => {
                let (px, py) = abs_pos(pv, geo, p);
                (sat32(px + geo[i].x), sat32(py + geo[i].y))
            },
            _ => (geo[i].x as int, geo[i].y as int),
        }
    }
}

/// The screen rectangle of box i, before any scrolling.
pub open spec fn box_rect(pv: PlanView, geo: Seq<Placement>, i: int) -> Rect {
    let (x, y) = abs_pos(pv, geo, i);
    Rect { left: x as i32, top: y as i32, right: sat32(x + geo[i].width) as i32, bottom: sat32(y + geo[i].height) as i32 }
}

/// Walking up from box i: each scroll region above it moves `y` up by its
/// offset and clips by its own rectangle.
pub open spec fn scroll_chain(pv: PlanView, geo: Seq<Placement>, i: int, y: int, clip: Option<Rect>) -> (int, Option<Rect>)
    decreases i,
{
    if i < 0 || i >= pv.boxes.len() {
        (y, clip)
    } else {
        match pv.boxes[i].parent {
            Some(p) if 0 <= p < i => match pv.boxes[p].kind {
                BoxKind::Scroll { offset_lines, .. } => scroll_chain(pv, geo, p, sat32(y - offset_lines), clip_with(clip, box_rect(pv, geo, p))),
                _ => scroll_chain(pv, geo, p, y, clip),
            },
            _ => (y, clip),
        }
    }
}

/// Scroll regions above a box can only shrink its clip.
pub proof fn lemma_chain_within(pv: PlanView, geo: Seq<Placement>, i: int, y: int, clip: Option<Rect>)
    ensures
        within(scroll_chain(pv, geo, i, y, clip).1, clip),
        area(scroll_chain(pv, geo, i, y, clip).1) <= area(clip),
    decreases i,
{
    if 0 <= i < pv.boxes.len() {
        match pv.boxes[i].parent {
            Some(p) => if 0 <= p < i {
                match pv.boxes[p].kind {
                    BoxKind::Scroll { offset_lines, .. } => {
                        let c2 = clip_with(clip, box_rect(pv, geo, p));
                        lemma_clip_shrinks(clip, box_rect(pv, geo, p));
                        lemma_chain_within(pv, geo, p, sat32(y - offset_lines), c2);
                        lemma_within_trans(scroll_chain(pv, geo, p, sat32(y - offset_lines), c2).1, c2, clip);
                    },
                    _ => {
                        lemma_chain_within(pv, geo, p, y, clip);
                    },
                }
            },
            None => {},
        }
    }
}

proof fn lemma_within_trans(a: Option<Rect>, b: Option<Rect>, c: Option<Rect>)
    requires
        within(a, b),
        within(b, c),
    ensures
        within(a, c),
{
}

pub open spec fn screen_rect(w: nat, h: nat) -> Rect {
    Rect { left: 0, top: 0, right: w as i32, bottom: h as i32 }
}

pub open spec fn with_bg(g: GridView, x: int, y: int, bg: Rgba) -> GridView {
    g.with_cell(x, y, crate::frame::Cell { style: CellStyle { bg: Some(bg), ..g.cell(x, y).style }, ..g.cell(x, y) })
}

/// Row y of `r` from column x on takes background `bg`, where on the grid.
pub open spec fn fill_row(g: GridView, r: Rect, y: int, x: int, bg: Rgba) -> GridView
    decreases r.right - x,
{
    if x >= r.right {
        g
    } else {
        let g1 = if g.in_bounds(x, y) { with_bg(g, x, y, bg) } else { g };
        fill_row(g1, r, y, x + 1, bg)
    }
}

/// Rows y and below of `r` take background `bg`.
pub open spec fn fill_rows(g: GridView, r: Rect, y: int, bg: Rgba) -> GridView
    decreases r.bottom - y,
{
    if y >= r.bottom {
        g
    } else {
        fill_rows(fill_row(g, r, y, r.left as int, bg), r, y + 1, bg)
    }
}


/// Fills the part of `r` on the grid with background `bg`.
pub open spec fn fill_rect(g: GridView, r: Rect, bg: Rgba) -> GridView {
    fill_rows(g, r, r.top as int, bg)
}

/// The fills of the first k backgrounds, each clipped by the scroll
/// regions above it and moved up by their offsets.
pub open spec fn fill_bgs(pv: PlanView, geo: Seq<Placement>, screen: Rect, g: GridView, k: int) -> GridView
    decreases k,
{
    if k <= 0 || k > pv.bgs.len() {
        g
    } else {
        let g1 = fill_bgs(pv, geo, screen, g, k - 1);
        let (node, bg) = pv.bgs[k - 1];
        let (ax, ay) = abs_pos(pv, geo, node);
        let (y, clip) = scroll_chain(pv, geo, node, ay, Some(screen));
        match clip {
            None => g1,
            Some(c) => {
                let b = Rect { left: ax as i32, top: y as i32, right: sat32(ax + geo[node].width) as i32, bottom: sat32(y + geo[node].height) as i32 };
                match intersect(b, c) {
                    Some(r) => fill_rect(g1, r, bg),
                    None => g1,
                }
            },
        }
    }
}

/// The cell style of a text run's characters; the run's own color wins
/// over the inherited one.
pub open spec fn cell_style_of(s: TextStyle, inherited: Option<Rgba>) -> CellStyle {
    CellStyle {
        bold: s.bold,
        italic: s.italic,
        underline: s.underline,
        strikethrough: s.strikethrough,
        fg: match s.color {
            Some(c) => Some(c),
            None => inherited,
        },
        cursor_anchor: s.cursor_anchor,
        cursor_after: s.cursor_after,
        bg: s.bg,
    }
}

pub open spec fn styled_chars(runs: Seq<RunV>, inherited: Option<Rgba>) -> Seq<(char, CellStyle)>
    decreases runs.len(),
{
    if runs.len() == 0 {
        Seq::empty()
    } else {
        styled_chars(runs.drop_last(), inherited) + runs.last().0.map_values(|c: char| (c, cell_style_of(runs.last().1, inherited)))
    }
}

pub open spec fn glyph_cols(c: char) -> int {
    if cols(c) > i32::MAX {
        i32::MAX as int
    } else {
        cols(c) as int
    }
}

/// Drawing characters from (x, y): a line break or a character that would
/// pass the wrap column on a non-empty line starts the next line; only
/// characters whose cell lies in `clip` are placed. The state is the grid
/// and the pen position relative to (x, y).
pub open spec fn draw_scan(g: GridView, cs: Seq<(char, CellStyle)>, x: int, y: int, wrap: int, clip: Rect) -> (GridView, int, int)
    decreases cs.len(),
{
    if cs.len() == 0 {
        (g, 0, 0)
    } else {
        let (g1, cx, cy) = draw_scan(g, cs.drop_last(), x, y, wrap, clip);
        let (ch, st) = cs.last();
        if ch == '\n' {
            (g1, 0, sat32(cy + 1))
        } else {
            let w = glyph_cols(ch);
            let brk = wrap > 0 && cx > 0 && sat32(cx + w) > wrap;
            let cx2 = if brk { 0 } else { cx };
            let cy2 = if brk { sat32(cy + 1) } else { cy };
            let dx = sat32(x + cx2);
            let dy = sat32(y + cy2);
            let g2 = if clip.left <= dx < clip.right && clip.top <= dy < clip.bottom {
                placed(g1, dx, dy, ch, st)
            } else {
                g1
            };
            (g2, sat32(cx2 + w), cy2)
        }
    }
}

/// A leaf's text drawn at (x, y), wrapped at the clip's right edge.
pub open spec fn draw_leaf(g: GridView, runs: Seq<RunV>, x: int, y: int, inherited: Option<Rgba>, clip: Rect) -> GridView {
    draw_scan(g, styled_chars(runs, inherited), x, y, max_int(sat32(clip.right - x), 0), clip).0
}

/// The first k leaves drawn, each at its scrolled position and clip; a leaf
/// whose clip is empty is not drawn.
pub open spec fn draw_leaves(pv: PlanView, geo: Seq<Placement>, screen: Rect, g: GridView, k: int) -> GridView
    decreases k,
{
    if k <= 0 || k > pv.leaves.len() {
        g
    } else {
        let g1 = draw_leaves(pv, geo, screen, g, k - 1);
        let leaf = pv.leaves[k - 1];
        let (ax, ay) = abs_pos(pv, geo, leaf.node);
        let (y, clip) = scroll_chain(pv, geo, leaf.node, ay, Some(screen));
        match clip {
            None => g1,
            Some(c) => draw_leaf(g1, leaf.runs, ax, y, leaf.color, c),
        }
    }
}

/// The frame: backgrounds first, then text.
pub open spec fn rendered(pv: PlanView, geo: Seq<Placement>, w: nat, h: nat) -> GridView {
    let screen = screen_rect(w, h);
    let g = fill_bgs(pv, geo, screen, blank_grid(w, h), pv.bgs.len() as int);
    draw_leaves(pv, geo, screen, g, pv.leaves.len() as int)
}

pub open spec fn plan_fits(pv: PlanView, geo: Seq<Placement>) -> bool {
    pv.wf() && geo.len() == pv.boxes.len()
}

fn sat_add32(a: i32, b: i32) -> (r: i32)
    ensures
        r == sat32(a + b),
{
    let v: i64 = a as i64 + b as i64;
    if v > i32::MAX as i64 {
        i32::MAX
    } else if v < i32::MIN as i64 {
        i32::MIN
    } else {
        v as i32
    }
}

fn sat_sub32(a: i32, b: i32) -> (r: i32)
    ensures
        r == sat32(a - b),
{
    let v: i64 = a as i64 - b as i64;
    if v > i32::MAX as i64 {
        i32::MAX
    } else if v < i32::MIN as i64 {
        i32::MIN
    } else {
        v as i32
    }
}

fn check_plan(plan: &LayoutPlan, geo: &Vec<Placement>) -> (ok: bool)
    ensures
        ok == plan_fits(plan@, geo@),
{
    if geo.len() != plan.boxes.len() {
        return false;
    }
    let mut i: usize = 0;
    while i < plan.boxes.len()
        invariant
            i <= plan@.boxes.len(),
            forall|j: int| #![trigger plan@.boxes[j]] 0 <= j < i ==> match plan@.boxes[j].parent {
                Some(p) => 0 <= p < j,
                None => true,
            },
        decreases plan@.boxes.len() - i,
    {
        assert(plan@.boxes[i as int] == plan.boxes@[i as int]@);
        if let Some(p) = plan.boxes[i].parent {
            if p >= i {
                return false;
            }
        }
        i = i + 1;
    }
    let mut k: usize = 0;
    while k < plan.leaves.len()
        invariant
            k <= plan@.leaves.len(),
            forall|j: int| #![trigger plan@.leaves[j]] 0 <= j < k ==> 0 <= plan@.leaves[j].node < plan@.boxes.len(),
        decreases plan@.leaves.len() - k,
    {
        assert(plan@.leaves[k as int] == plan.leaves@[k as int]@);
        if plan.leaves[k].node >= plan.boxes.len() {
            return false;
        }
        k = k + 1;
    }
    let mut b: usize = 0;
    while b < plan.backgrounds.len()
        invariant
            b <= plan@.bgs.len(),
            forall|j: int| #![trigger plan@.bgs[j]] 0 <= j < b ==> 0 <= plan@.bgs[j].0 < plan@.boxes.len(),
        decreases plan@.bgs.len() - b,
    {
        assert(plan@.bgs[b as int] == (plan.backgrounds@[b as int].node as int, plan.backgrounds@[b as int].bg));
        if plan.backgrounds[b].node >= plan.boxes.len() {
            return false;
        }
        b = b + 1;
    }
    true
}

fn abs_positions(plan: &LayoutPlan, geo: &Vec<Placement>) -> (r: Vec<(i32, i32)>)
    requires
        plan_fits(plan@, geo@),
    ensures
        r@.len() == geo@.len(),
        forall|i: int| 0 <= i < r@.len() ==> #[trigger] r@[i] == ((abs_pos(plan@, geo@, i).0 as i32, abs_pos(plan@, geo@, i).1 as i32)),
        forall|i: int| 0 <= i < r@.len() ==> i32::MIN <= #[trigger] abs_pos(plan@, geo@, i).0 <= i32::MAX && i32::MIN <= abs_pos(plan@, geo@, i).1 <= i32::MAX,
{
    let mut r: Vec<(i32, i32)> = Vec::new();
    let mut i: usize = 0;
    while i < geo.len()
        invariant
            plan_fits(plan@, geo@),
            i <= geo@.len(),
            r@.len() == i,
            forall|j: int| 0 <= j < i ==> #[trigger] r@[j] == ((abs_pos(plan@, geo@, j).0 as i32, abs_pos(plan@, geo@, j).1 as i32)),
            forall|j: int| 0 <= j < i ==> i32::MIN <= #[trigger] abs_pos(plan@, geo@, j).0 <= i32::MAX && i32::MIN <= abs_pos(plan@, geo@, j).1 <= i32::MAX,
        decreases geo@.len() - i,
    {
        assert(plan@.boxes[i as int] == plan.boxes@[i as int]@);
        let g = geo[i];
        let v = match plan.boxes[i].parent {
            Some(p) => {
                let (px, py) = r[p];
                (sat_add32(px, g.x), sat_add32(py, g.y))
            },
            None => (g.x, g.y),
        };
        r.push(v);
        i = i + 1;
    }
    r
}


fn box_rect_exec(plan: &LayoutPlan, geo: &Vec<Placement>, absv: &Vec<(i32, i32)>, i: usize) -> (r: Rect)
    requires
        plan_fits(plan@, geo@),
        absv@.len() == geo@.len(),
        forall|j: int| 0 <= j < absv@.len() ==> #[trigger] absv@[j] == ((abs_pos(plan@, geo@, j).0 as i32, abs_pos(plan@, geo@, j).1 as i32)),
        forall|j: int| 0 <= j < absv@.len() ==> i32::MIN <= #[trigger] abs_pos(plan@, geo@, j).0 <= i32::MAX && i32::MIN <= abs_pos(plan@, geo@, j).1 <= i32::MAX,
        i < geo@.len(),
    ensures
        r == box_rect(plan@, geo@, i as int),
{
    let (ax, ay) = absv[i];
    assert(absv@[i as int] == ((abs_pos(plan@, geo@, i as int).0 as i32, abs_pos(plan@, geo@, i as int).1 as i32)));
    assert(i32::MIN <= abs_pos(plan@, geo@, i as int).0 <= i32::MAX);
    Rect { left: ax, top: ay, right: sat_add32(ax, geo[i].width), bottom: sat_add32(ay, geo[i].height) }
}

fn chain_exec(plan: &LayoutPlan, geo: &Vec<Placement>, absv: &Vec<(i32, i32)>, i: usize, y: i32, clip: Option<Rect>) -> (r: (i32, Option<Rect>))
    requires
        plan_fits(plan@, geo@),
        absv@.len() == geo@.len(),
        forall|j: int| 0 <= j < absv@.len() ==> #[trigger] absv@[j] == ((abs_pos(plan@, geo@, j).0 as i32, abs_pos(plan@, geo@, j).1 as i32)),
        forall|j: int| 0 <= j < absv@.len() ==> i32::MIN <= #[trigger] abs_pos(plan@, geo@, j).0 <= i32::MAX && i32::MIN <= abs_pos(plan@, geo@, j).1 <= i32::MAX,
        i < geo@.len(),
    ensures
        (r.0 as int, r.1) == scroll_chain(plan@, geo@, i as int, y as int, clip),
{
    let mut cur = i;
    let mut yy = y;
    let mut cc = clip;
    let mut more = true;
    while more
        invariant
            plan_fits(plan@, geo@),
            absv@.len() == geo@.len(),
            forall|j: int| 0 <= j < absv@.len() ==> #[trigger] absv@[j] == ((abs_pos(plan@, geo@, j).0 as i32, abs_pos(plan@, geo@, j).1 as i32)),
            forall|j: int| 0 <= j < absv@.len() ==> i32::MIN <= #[trigger] abs_pos(plan@, geo@, j).0 <= i32::MAX && i32::MIN <= abs_pos(plan@, geo@, j).1 <= i32::MAX,
            cur < geo@.len(),
            scroll_chain(plan@, geo@, i as int, y as int, clip) == if more {
                scroll_chain(plan@, geo@, cur as int, yy as int, cc)
            } else {
                (yy as int, cc)
            },
        decreases cur, if more { 1int } else { 0int },
    {
        assert(plan@.boxes[cur as int] == plan.boxes@[cur as int]@);
        match plan.boxes[cur].parent {
            None => {
                more = false;
            },
            Some(p) => {
                assert(plan@.boxes[p as int] == plan.boxes@[p as int]@);
                match plan.boxes[p].kind {
                    BoxKind::Scroll { offset_lines, .. } => {
                        yy = sat_sub32(yy, offset_lines as i32);
                        let b = box_rect_exec(plan, geo, absv, p);
                        cc = match cc {
                            Some(c) => c.intersect(b),
                            None => None,
                        };
                    },
                    _ => {},
                }
                cur = p;
            },
        }
    }
    (yy, cc)
}

fn fill_rect_bg(buffer: &mut CellBuffer, r: Rect, bg: Rgba)
    requires
        old(buffer).wf(),
    ensures
        final(buffer).wf(),
        final(buffer)@ == fill_rect(old(buffer)@, r, bg),
{
    let ghost g0 = buffer@;
    let mut y = r.top;
    while y < r.bottom
        invariant
            buffer.wf(),
            fill_rect(g0, r, bg) == fill_rows(buffer@, r, y as int, bg),
        decreases r.bottom - y,
    {
        let mut x = r.left;
        while x < r.right
            invariant
                buffer.wf(),
                y < r.bottom,
                fill_rect(g0, r, bg) == fill_rows(fill_row(buffer@, r, y as int, x as int, bg), r, y + 1, bg),
            decreases r.right - x,
        {
            if x >= 0 && y >= 0 && x < buffer.width() as i32 && y < buffer.height() as i32 {
                buffer.set_bg(x as u16, y as u16, bg);
            }
            x = x + 1;
        }
        y = y + 1;
    }
}

fn cell_style_exec(s: TextStyle, inherited: Option<Rgba>) -> (c: CellStyle)
    ensures
        c == cell_style_of(s, inherited),
{
    CellStyle {
        bold: s.bold,
        italic: s.italic,
        underline: s.underline,
        strikethrough: s.strikethrough,
        fg: match s.color {
            Some(c) => Some(c),
            None => inherited,
        },
        cursor_anchor: s.cursor_anchor,
        cursor_after: s.cursor_after,
        bg: s.bg,
    }
}

proof fn lemma_styled_chars_step(runs: Seq<TextRun>, r: int, inherited: Option<Rgba>)
    requires
        0 <= r < runs.len(),
    ensures
        styled_chars(run_views(runs.take(r + 1)), inherited) == styled_chars(run_views(runs.take(r)), inherited)
            + runs[r].text@.map_values(|c: char| (c, cell_style_of(runs[r].style, inherited))),
{
    assert(run_views(runs.take(r + 1)).drop_last() =~= run_views(runs.take(r)));
}

/// Draws a leaf's text into the grid at (x, y), wrapped at the clip's right
/// edge; cells outside `clip` are left alone.
pub fn render_text_clipped(buffer: &mut CellBuffer, text: &StyledText, x: i32, y: i32, inherited: Option<Rgba>, clip: Rect)
    requires
        old(buffer).wf(),
    ensures
        final(buffer).wf(),
        final(buffer)@ == draw_leaf(old(buffer)@, run_views(text.runs@), x as int, y as int, inherited, clip),
{
    let ghost g0 = buffer@;
    let d = sat_sub32(clip.right, x);
    let wrap: i32 = if d > 0 { d } else { 0 };
    let ghost runs = text.runs@;
    let mut cx: i32 = 0;
    let mut cy: i32 = 0;
    let mut r: usize = 0;
    assert(run_views(runs.take(0)) =~= Seq::<RunV>::empty());
    while r < text.runs.len()
        invariant
            buffer.wf(),
            runs == text.runs@,
            r <= runs.len(),
            wrap as int == max_int(sat32(clip.right - x), 0),
            (buffer@, cx as int, cy as int) == draw_scan(g0, styled_chars(run_views(runs.take(r as int)), inherited), x as int, y as int, wrap as int, clip),
        decreases runs.len() - r,
    {
        let run = &text.runs[r];
        let st = cell_style_exec(run.style, inherited);
        let t = run.text.as_str();
        let n = t.unicode_len();
        let ghost before = styled_chars(run_views(runs.take(r as int)), inherited);
        let mut i: usize = 0;
        while i < n
            invariant
                buffer.wf(),
                runs == text.runs@,
                r < runs.len(),
                t@ == runs[r as int].text@,
                st == cell_style_of(runs[r as int].style, inherited),
                n == t@.len(),
                i <= n,
                wrap as int == max_int(sat32(clip.right - x), 0),
                (buffer@, cx as int, cy as int) == draw_scan(g0, before + t@.take(i as int).map_values(|c: char| (c, st)), x as int, y as int, wrap as int, clip),
            decreases n - i,
        {
            let ch = t.get_char(i);
            let ghost cs = before + t@.take(i as int).map_values(|c: char| (c, st));
            assert(before + t@.take(i as int + 1).map_values(|c: char| (c, st)) =~= cs.push((ch, st)));
            assert(cs.push((ch, st)).drop_last() =~= cs);
            if ch == '\n' {
                cy = sat_add32(cy, 1);
                cx = 0;
            } else {
                let w = char_cols(ch);
                let wi: i32 = if w > i32::MAX as usize { i32::MAX } else { w as i32 };
                if wrap > 0 && cx > 0 && sat_add32(cx, wi) > wrap {
                    cy = sat_add32(cy, 1);
                    cx = 0;
                }
                let dx = sat_add32(x, cx);
                let dy = sat_add32(y, cy);
                if clip.left <= dx && dx < clip.right && clip.top <= dy && dy < clip.bottom {
                    buffer.put_char(dx, dy, ch, st);
                }
                cx = sat_add32(cx, wi);
            }
            i = i + 1;
        }
        proof {
            lemma_styled_chars_step(runs, r as int, inherited);
            assert(t@.take(n as int) =~= t@);
        }
        r = r + 1;
    }
    assert(runs.take(r as int) =~= runs);
}

/// Layout is deterministic: two plans built from the same tree at the same
/// width are equal, and with the same placements they put every box at the
/// same position and render the same grid.
pub proof fn lemma_layout_deterministic(n: Node, wrap: usize, stage1: PlanView, stage2: PlanView, geo: Seq<Placement>, w: nat, h: nat)
    requires
        stage1 == build_spec(n, wrap, None, None, PlanView { boxes: Seq::empty(), leaves: Seq::empty(), bgs: Seq::empty() }),
        stage2 == build_spec(n, wrap, None, None, PlanView { boxes: Seq::empty(), leaves: Seq::empty(), bgs: Seq::empty() }),
    ensures
        stage1 == stage2,
        forall|i: int| abs_pos(stage1, geo, i) == abs_pos(stage2, geo, i) && box_rect(stage1, geo, i) == box_rect(stage2, geo, i),
        rendered(stage1, geo, w, h) == rendered(stage2, geo, w, h),
{
}

/// The screen position of every box of a laid-out plan.
pub fn absolute_positions(plan: &LayoutPlan, geo: &Vec<Placement>) -> (r: Result<Vec<(i32, i32)>, LayoutError>)
    ensures
        match r {
            Ok(v) => plan_fits(plan@, geo@) && v@.len() == geo@.len() && forall|i: int| 0 <= i < v@.len() ==> #[trigger] v@[i] == ((abs_pos(plan@, geo@, i).0 as i32, abs_pos(plan@, geo@, i).1 as i32)),
            Err(_) => !plan_fits(plan@, geo@),
        },
{
    if !check_plan(plan, geo) {
        return Err(LayoutError);
    }
    Ok(abs_positions(plan, geo))
}

/// Rasterizes a laid-out frame: the plan and, for each of its boxes, where
/// the solver placed it. Backgrounds are filled first, then text is drawn;
/// each is moved up by the offsets of the scroll regions above it and
/// clipped to them. A plan whose parents do not precede their children, or
/// placements that do not match its boxes, fail the frame.
pub fn render_plan(plan: &LayoutPlan, geo: &Vec<Placement>, width: u16, height: u16) -> (r: Result<CellBuffer, LayoutError>)
    ensures
        match r {
            Ok(b) => plan_fits(plan@, geo@) && b.wf() && b@ == rendered(plan@, geo@, width as nat, height as nat),
            Err(_) => !plan_fits(plan@, geo@),
        },
{
    if !check_plan(plan, geo) {
        return Err(LayoutError);
    }
    let absv = abs_positions(plan, geo);
    let screen = Rect { left: 0, top: 0, right: width as i32, bottom: height as i32 };
    let mut buffer = CellBuffer::new(width, height);
    let ghost pv = plan@;
    let ghost g0 = buffer@;
    let mut k: usize = 0;
    while k < plan.backgrounds.len()
        invariant
            plan_fits(plan@, geo@),
            pv == plan@,
            absv@.len() == geo@.len(),
            forall|j: int| 0 <= j < absv@.len() ==> #[trigger] absv@[j] == ((abs_pos(plan@, geo@, j).0 as i32, abs_pos(plan@, geo@, j).1 as i32)),
            forall|j: int| 0 <= j < absv@.len() ==> i32::MIN <= #[trigger] abs_pos(plan@, geo@, j).0 <= i32::MAX && i32::MIN <= abs_pos(plan@, geo@, j).1 <= i32::MAX,
            screen == screen_rect(width as nat, height as nat),
            k <= pv.bgs.len(),
            buffer.wf(),
            buffer@ == fill_bgs(pv, geo@, screen, g0, k as int),
        decreases pv.bgs.len() - k,
    {
        let bgl = plan.backgrounds[k];
        assert(pv.bgs[k as int] == (bgl.node as int, bgl.bg));
        assert(pv.bgs[k as int].0 < pv.boxes.len());
        let node = bgl.node;
        let (ax, ay) = absv[node];
        let (y, clip) = chain_exec(plan, geo, &absv, node, ay, Some(screen));
        if let Some(c) = clip {
            let b = Rect { left: ax, top: y, right: sat_add32(ax, geo[node].width), bottom: sat_add32(y, geo[node].height) };
            if let Some(rr) = b.intersect(c) {
                fill_rect_bg(&mut buffer, rr, bgl.bg);
            }
        }
        k = k + 1;
    }
    let ghost g1 = buffer@;
    let mut l: usize = 0;
    while l < plan.leaves.len()
        invariant
            plan_fits(plan@, geo@),
            pv == plan@,
            absv@.len() == geo@.len(),
            forall|j: int| 0 <= j < absv@.len() ==> #[trigger] absv@[j] == ((abs_pos(plan@, geo@, j).0 as i32, abs_pos(plan@, geo@, j).1 as i32)),
            forall|j: int| 0 <= j < absv@.len() ==> i32::MIN <= #[trigger] abs_pos(plan@, geo@, j).0 <= i32::MAX && i32::MIN <= abs_pos(plan@, geo@, j).1 <= i32::MAX,
            screen == screen_rect(width as nat, height as nat),
            l <= pv.leaves.len(),
            buffer.wf(),
            buffer@ == draw_leaves(pv, geo@, screen, g1, l as int),
        decreases pv.leaves.len() - l,
    {
        let leaf = &plan.leaves[l];
        assert(pv.leaves[l as int] == leaf@);
        assert(pv.leaves[l as int].node < pv.boxes.len());
        let node = leaf.node;
        let (ax, ay) = absv[node];
        let (y, clip) = chain_exec(plan, geo, &absv, node, ay, Some(screen));
        if let Some(c) = clip {
            render_text_clipped(&mut buffer, &leaf.text, ax, y, leaf.color, c);
        }
        l = l + 1;
    }
    Ok(buffer)
}

} // verus!
