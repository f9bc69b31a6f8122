use vstd::prelude::*;
use crate::chars::{chars_of, push_char};
use crate::layout::node_run_views;
use crate::node::{RichText, TextInput, TextRun};
use crate::style::{plain_style, Rgb, TextStyle};
use crate::text::sat_add;
use crate::text_input::{line_col, line_col_for_cursor};
use crate::width::{char_cols, cols};

verus! {

pub type CellV = (char, TextStyle);

/// Gray of line numbers, placeholders and an idle gutter.
pub const MUTED: u32 = 0x6e7681;

/// Blue of a highlighted gutter.
pub const ACCENT: u32 = 0x2f81f7;

/// The lines of a value, split at each `'\n'`; an empty value has one.
pub open spec fn split_lines(v: Seq<char>) -> Seq<Seq<char>>
    decreases v.len(),
{
    if v.len() == 0 {
        seq![Seq::empty()]
    } else {
        let ls = split_lines(v.drop_last());
        if v.last() == '\n' {
            ls.push(Seq::empty())
        } else {
            ls.update(ls.len() - 1, ls.last().push(v.last()))
        }
    }
}

pub proof fn lemma_split_nonempty(v: Seq<char>)
    ensures
        split_lines(v).len() >= 1,
        split_lines(v).len() <= v.len() + 1,
    decreases v.len(),
{
    if v.len() > 0 {
        lemma_split_nonempty(v.drop_last());
    }
}

pub open spec fn digit(d: nat) -> char {
    if d == 0 { '0' } else if d == 1 { '1' } else if d == 2 { '2' } else if d == 3 { '3' } else if d == 4 { '4' }
    else if d == 5 { '5' } else if d == 6 { '6' } else if d == 7 { '7' } else if d == 8 { '8' } else { '9' }
}

/// Decimal digits of n.
pub open spec fn digits(n: nat) -> Seq<char>
    decreases n,
{
    if n < 10 {
        seq![digit(n)]
    } else {
        digits(n / 10).push(digit(n % 10))
    }
}

pub open spec fn spaces(n: nat) -> Seq<char> {
    Seq::new(n, |i: int| ' ')
}

/// `s` right-aligned in `w` columns.
pub open spec fn pad_left(s: Seq<char>, w: nat) -> Seq<char> {
    if s.len() >= w { s } else { spaces((w - s.len()) as nat) + s }
}

pub open spec fn anchor_style(after: bool) -> TextStyle {
    TextStyle { cursor_anchor: true, cursor_after: after, ..plain_style() }
}

pub open spec fn placeholder_style() -> TextStyle {
    TextStyle { italic: true, color: Some(Rgb(MUTED)), ..plain_style() }
}

/// The styled characters of line `idx`: the cursor line of a focused field
/// marks the cursor (after the last character at the end of the line); the
/// only line of an empty unfocused field shows the placeholder.
pub open spec fn line_cells(t: TextInput, idx: nat, line: Seq<char>, cl: nat, cc: nat) -> Seq<CellV> {
    if t.focused && cl == idx {
        let col = if cc <= line.len() { cc } else { line.len() };
        if line.len() == 0 {
            seq![(' ', anchor_style(false))]
        } else if col >= line.len() {
            Seq::new(line.len(), |i: int| (line[i], if i + 1 == line.len() { anchor_style(true) } else { plain_style() }))
        } else {
            Seq::new(line.len(), |i: int| (line[i], if i == col { anchor_style(false) } else { plain_style() }))
        }
    } else if line.len() == 0 && !t.focused && t.value@.len() == 0 {
        match t.placeholder {
            Some(p) => p@.map_values(|c: char| (c, placeholder_style())),
            None => Seq::empty(),
        }
    } else {
        line.map_values(|c: char| (c, plain_style()))
    }
}

/// Greedy wrapping of cells at `width` columns: (finished rows, current row, its width).
pub open spec fn wrap_scan_cells(cs: Seq<CellV>, width: nat) -> (Seq<Seq<CellV>>, Seq<CellV>, nat)
    decreases cs.len(),
{
    if cs.len() == 0 {
        (Seq::empty(), Seq::empty(), 0)
    } else {
        let (rows, row, rw) = wrap_scan_cells(cs.drop_last(), width);
        let w = cols(cs.last().0);
        if rw > 0 && sat_add(rw, w) > width {
            (rows.push(row), seq![cs.last()], sat_add(0, w))
        } else {
            (rows, row.push(cs.last()), sat_add(rw, w))
        }
    }
}

pub open spec fn wrap_cells(cs: Seq<CellV>, width: nat) -> Seq<Seq<CellV>> {
    if width == 0 {
        seq![cs]
    } else {
        let (rows, row, _) = wrap_scan_cells(cs, width);
        rows.push(row)
    }
}

pub struct RowV {
    pub line_number: nat,
    pub is_cursor_line: bool,
    pub row_in_line: nat,
    pub line_rows: nat,
    pub global_row: nat,
    pub content: Seq<CellV>,
}

/// The rows of the first k lines.
pub open spec fn rows_upto(t: TextInput, lines: Seq<Seq<char>>, cw: nat, cl: nat, cc: nat, k: int) -> Seq<RowV>
    decreases k,
{
    if k <= 0 || k > lines.len() {
        Seq::empty()
    } else {
        let before = rows_upto(t, lines, cw, cl, cc, k - 1);
        let idx = (k - 1) as nat;
        let wrapped = wrap_cells(line_cells(t, idx, lines[k - 1], cl, cc), cw);
        before + Seq::new(wrapped.len(), |r: int| RowV {
            line_number: idx + 1,
            is_cursor_line: t.gutter_highlighted && cl == idx,
            row_in_line: r as nat,
            line_rows: wrapped.len(),
            global_row: (before.len() + r) as nat,
            content: wrapped[r],
        })
    }
}

pub open spec fn gutter_digits(t: TextInput) -> nat {
    digits(split_lines(t.value@).len()).len()
}

/// The gutter width and rows of the field at `total_width` columns.
pub open spec fn input_rows(t: TextInput, total_width: nat) -> Seq<RowV> {
    let lines = split_lines(t.value@);
    let gd = gutter_digits(t);
    let cw: nat = if total_width > gd { (total_width - gd) as nat } else { 1 };
    let (cl, cc) = if t.gutter_highlighted { line_col(t.value@, t.cursor as nat) } else { (0nat, 0nat) };
    rows_upto(t, lines, cw, cl, cc, lines.len() as int)
}

/// The row of a line that shows its number: the one at `offset` where the
/// scroll offset falls inside the line, else its first row.
pub open spec fn label_row(r: RowV, offset: nat) -> nat {
    let start: nat = if r.global_row >= r.row_in_line { (r.global_row - r.row_in_line) as nat } else { 0 };
    if start <= offset < sat_add(start, r.line_rows) { (offset - start) as nat } else { 0 }
}

pub open spec fn shows_label(t: TextInput, r: RowV) -> bool {
    r.row_in_line == label_row(r, t.visible_offset_lines as nat)
}

pub open spec fn label_part(t: TextInput, r: RowV, gd: nat) -> Seq<(Seq<char>, TextStyle)> {
    seq![(if shows_label(t, r) { pad_left(digits(r.line_number), gd) } else { spaces(gd) }, TextStyle { color: Some(Rgb(MUTED)), ..plain_style() })]
}

pub open spec fn pipe_part(t: TextInput, r: RowV) -> Seq<(Seq<char>, TextStyle)> {
    let pipe_style = TextStyle { color: Some(Rgb(if t.gutter_highlighted { ACCENT } else { MUTED })), ..plain_style() };
    seq![(if t.gutter_highlighted && r.is_cursor_line && shows_label(t, r) { seq![' ', '>', ' '] } else { seq![' ', '|', ' '] }, pipe_style)]
}

pub open spec fn content_part(r: RowV) -> Seq<(Seq<char>, TextStyle)> {
    r.content.map_values(|x: CellV| (seq![x.0], x.1))
}

/// The runs of one row: its label, its gutter and its characters, as asked.
pub open spec fn row_runs(t: TextInput, r: RowV, gd: nat, label: bool, pipe: bool, content: bool) -> Seq<(Seq<char>, TextStyle)> {
    (if label { label_part(t, r, gd) } else { Seq::empty() }) + (if pipe { pipe_part(t, r) } else { Seq::empty() }) + (if content {
        content_part(r)
    } else {
        Seq::empty()
    })
}

/// The runs of the first k rows, a line break run between rows.
pub open spec fn rows_runs(t: TextInput, rows: Seq<RowV>, gd: nat, label: bool, pipe: bool, content: bool, k: int) -> Seq<(Seq<char>, TextStyle)>
    decreases k,
{
    if k <= 0 || k > rows.len() {
        Seq::empty()
    } else {
        let before = rows_runs(t, rows, gd, label, pipe, content, k - 1);
        let sep = if before.len() > 0 { seq![(seq!['\n'], plain_style())] } else { Seq::empty() };
        before + sep + row_runs(t, rows[k - 1], gd, label, pipe, content)
    }
}

pub open spec fn rendered_runs(t: TextInput, width: nat, label: bool, pipe: bool, content: bool) -> Seq<(Seq<char>, TextStyle)> {
    let rows = input_rows(t, width);
    rows_runs(t, rows, gutter_digits(t), label, pipe, content, rows.len() as int)
}

/// The runs of a text input's wrapped rendering: line numbers, a pipe
/// gutter, and the wrapped content, three columns kept for the gutter.
pub open spec fn input_runs(t: TextInput, total_width: nat) -> Seq<(Seq<char>, TextStyle)> {
    rendered_runs(t, if total_width >= 3 { (total_width - 3) as nat } else { 0 }, true, true, true)
}


pub open spec fn lines_view(v: Seq<Vec<char>>) -> Seq<Seq<char>> {
    v.map_values(|x: Vec<char>| x@)
}

fn split_value(v: &Vec<char>) -> (r: Vec<Vec<char>>)
    ensures
        lines_view(r@) == split_lines(v@),
        r@.len() >= 1,
        r@.len() <= v@.len() + 1,
{
    let mut lines: Vec<Vec<char>> = Vec::new();
    lines.push(Vec::new());
    let mut i: usize = 0;
    assert(lines_view(lines@) =~= split_lines(v@.take(0)));
    while i < v.len()
        invariant
            i <= v@.len(),
            lines@.len() >= 1,
            lines@.len() <= i + 1,
            lines_view(lines@) == split_lines(v@.take(i as int)),
        decreases v@.len() - i,
    {
        let ch = v[i];
        let ghost before = lines_view(lines@);
        assert(v@.take(i as int + 1).drop_last() =~= v@.take(i as int));
        if ch == '\n' {
            lines.push(Vec::new());
            assert(lines_view(lines@) =~= before.push(Seq::empty()));
        } else {
            let mut last = lines.pop().unwrap();
            last.push(ch);
            lines.push(last);
            assert(lines_view(lines@) =~= before.update(before.len() - 1, before.last().push(ch)));
        }
        i = i + 1;
    }
    assert(v@.take(i as int) =~= v@);
    lines
}

fn decimal(n: usize) -> (r: Vec<char>)
    ensures
        r@ == digits(n as nat),
    decreases n,
{
    let d = n % 10;
    let c = if d == 0 { '0' } else if d == 1 { '1' } else if d == 2 { '2' } else if d == 3 { '3' } else if d == 4 { '4' }
        else if d == 5 { '5' } else if d == 6 { '6' } else if d == 7 { '7' } else if d == 8 { '8' } else { '9' };
    if n < 10 {
        let mut r: Vec<char> = Vec::new();
        r.push(c);
        assert(r@ =~= seq![digit(n as nat)]);
        r
    } else {
        let mut r = decimal(n / 10);
        r.push(c);
        r
    }
}


fn anchor(after: bool) -> (s: TextStyle)
    ensures
        s == anchor_style(after),
{
    TextStyle::new().cursor_anchor(after)
}

fn line_cells_exec(t: &TextInput, idx: usize, line: &Vec<char>, cl: usize, cc: usize) -> (r: Vec<(char, TextStyle)>)
    ensures
        r@ == line_cells(*t, idx as nat, line@, cl as nat, cc as nat),
{
    let n = line.len();
    let mut out: Vec<(char, TextStyle)> = Vec::new();
    if t.focused && cl == idx {
        let col = if cc <= n { cc } else { n };
        if n == 0 {
            out.push((' ', anchor(false)));
            assert(out@ =~= line_cells(*t, idx as nat, line@, cl as nat, cc as nat));
            return out;
        }
        let mut i: usize = 0;
        while i < n
            invariant
                n == line@.len(),
                0 < n,
                col <= n,
                i <= n,
                out@ == Seq::new(i as nat, |k: int| (line@[k], if col >= n {
                    if k + 1 == n { anchor_style(true) } else { plain_style() }
                } else {
                    if k == col { anchor_style(false) } else { plain_style() }
                })),
            decreases n - i,
        {
            let st = if col >= n {
                if i + 1 == n { anchor(true) } else { TextStyle::new() }
            } else {
                if i == col { anchor(false) } else { TextStyle::new() }
            };
            out.push((line[i], st));
            i = i + 1;
            assert(out@ =~= Seq::new(i as nat, |k: int| (line@[k], if col >= n {
                if k + 1 == n { anchor_style(true) } else { plain_style() }
            } else {
                if k == col { anchor_style(false) } else { plain_style() }
            })));
        }
        assert(out@ =~= line_cells(*t, idx as nat, line@, cl as nat, cc as nat));
        return out;
    }
    let value_empty = t.value.as_str().unicode_len() == 0;
    if n == 0 && !t.focused && value_empty {
        match &t.placeholder {
            Some(p) => {
                let pcs = chars_of(p.as_str());
                let st = TextStyle::new().italic().color(Rgb(MUTED));
                let mut i: usize = 0;
                while i < pcs.len()
                    invariant
                        i <= pcs@.len(),
                        st == placeholder_style(),
                        out@ == pcs@.take(i as int).map_values(|c: char| (c, placeholder_style())),
                    decreases pcs@.len() - i,
                {
                    out.push((pcs[i], st));
                    i = i + 1;
                    assert(out@ =~= pcs@.take(i as int).map_values(|c: char| (c, placeholder_style())));
                }
                assert(pcs@.take(i as int) =~= pcs@);
            },
            None => {},
        }
        assert(out@ =~= line_cells(*t, idx as nat, line@, cl as nat, cc as nat));
        return out;
    }
    let mut i: usize = 0;
    while i < n
        invariant
            n == line@.len(),
            i <= n,
            out@ == line@.take(i as int).map_values(|c: char| (c, plain_style())),
        decreases n - i,
    {
        out.push((line[i], TextStyle::new()));
        i = i + 1;
        assert(out@ =~= line@.take(i as int).map_values(|c: char| (c, plain_style())));
    }
    assert(line@.take(i as int) =~= line@);
    out
}

pub open spec fn rows_view(v: Seq<Vec<(char, TextStyle)>>) -> Seq<Seq<CellV>> {
    v.map_values(|x: Vec<(char, TextStyle)>| x@)
}

fn wrap_cells_exec(cs: Vec<(char, TextStyle)>, width: usize) -> (r: Vec<Vec<(char, TextStyle)>>)
    requires
        width >= 1,
    ensures
        rows_view(r@) == wrap_cells(cs@, width as nat),
        r@.len() >= 1,
{
    let mut rows: Vec<Vec<(char, TextStyle)>> = Vec::new();
    let mut row: Vec<(char, TextStyle)> = Vec::new();
    let mut rw: usize = 0;
    let mut i: usize = 0;
    while i < cs.len()
        invariant
            i <= cs@.len(),
            (rows_view(rows@), row@, rw as nat) == wrap_scan_cells(cs@.take(i as int), width as nat),
        decreases cs@.len() - i,
    {
        let cell = cs[i];
        let w = char_cols(cell.0);
        assert(cs@.take(i as int + 1).drop_last() =~= cs@.take(i as int));
        if rw > 0 && rw.saturating_add(w) > width {
            let ghost rb = rows_view(rows@);
            let done_row = row;
            rows.push(done_row);
            assert(rows_view(rows@) =~= rb.push(done_row@));
            row = Vec::new();
            row.push(cell);
            assert(row@ =~= seq![cell]);
            rw = 0usize.saturating_add(w);
        } else {
            row.push(cell);
            rw = rw.saturating_add(w);
        }
        i = i + 1;
    }
    assert(cs@.take(i as int) =~= cs@);
    let ghost rb = rows_view(rows@);
    let last = row;
    rows.push(last);
    assert(rows_view(rows@) =~= rb.push(last@));
    rows
}


/// One visual row of a text input.
pub struct WrappedRow {
    pub line_number: usize,
    pub is_cursor_line: bool,
    pub row_in_line: usize,
    pub line_rows: usize,
    pub global_row: usize,
    pub content: Vec<(char, TextStyle)>,
}

impl View for WrappedRow {
    type V = RowV;

    open spec fn view(&self) -> RowV {
        RowV {
            line_number: self.line_number as nat,
            is_cursor_line: self.is_cursor_line,
            row_in_line: self.row_in_line as nat,
            line_rows: self.line_rows as nat,
            global_row: self.global_row as nat,
            content: self.content@,
        }
    }
}

pub open spec fn wrapped_view(v: Seq<WrappedRow>) -> Seq<RowV> {
    v.map_values(|r: WrappedRow| r@)
}

fn label_text(n: usize, gd: usize, show: bool) -> (s: String)
    ensures
        s@ == if show { pad_left(digits(n as nat), gd as nat) } else { spaces(gd as nat) },
{
    let mut s = String::new();
    let ds = decimal(n);
    let pad: usize = if !show { gd } else if ds.len() >= gd { 0 } else { gd - ds.len() };
    let mut i: usize = 0;
    while i < pad
        invariant
            i <= pad,
            s@ == spaces(i as nat),
        decreases pad - i,
    {
        push_char(&mut s, ' ');
        i = i + 1;
        assert(s@ =~= spaces(i as nat));
    }
    if show {
        crate::chars::push_chars(&mut s, &ds, 0, ds.len());
        assert(ds@.subrange(0, ds@.len() as int) =~= ds@);
        assert(s@ =~= pad_left(digits(n as nat), gd as nat));
    }
    s
}

impl TextInput {
    /// The field's visual rows at `total_width` columns, and the width of its
    /// line numbers.
    pub fn wrapped_rows(&self, total_width: usize) -> (r: (usize, Vec<WrappedRow>))
        ensures
            r.0 as nat == gutter_digits(*self),
            wrapped_view(r.1@) == input_rows(*self, total_width as nat),
    {
        let cs = chars_of(self.value.as_str());
        let lines = split_value(&cs);
        let dg = decimal(lines.len());
        let gd = dg.len();
        let cw: usize = if total_width > gd { total_width - gd } else { 1 };
        let (cl, cc) = if self.gutter_highlighted { line_col_for_cursor(&cs, self.cursor) } else { (0, 0) };
        let ghost lv = lines_view(lines@);
        let mut out: Vec<WrappedRow> = Vec::new();
        let mut li: usize = 0;
        let nl = lines.len();
        while li < nl
            invariant
                nl == lines@.len(),
                lv == lines_view(lines@),
                lv == split_lines(self.value@),
                cw >= 1,
                li <= lines@.len(),
                cw as nat == (if total_width > gutter_digits(*self) { (total_width - gutter_digits(*self)) as nat } else { 1nat }),
                (cl as nat, cc as nat) == (if self.gutter_highlighted { line_col(self.value@, self.cursor as nat) } else { (0nat, 0nat) }),
                wrapped_view(out@) == rows_upto(*self, lv, cw as nat, cl as nat, cc as nat, li as int),
            decreases lines@.len() - li,
        {
            assert(lv[li as int] == lines@[li as int]@);
            let cells = line_cells_exec(self, li, &lines[li], cl, cc);
            let mut wrapped = wrap_cells_exec(cells, cw);
            let ghost wv = rows_view(wrapped@);
            let ghost before = wrapped_view(out@);
            let nrows = wrapped.len();
            let mut r: usize = 0;
            while r < nrows
                invariant
                    nrows == wv.len(),
                    li < nl,
                    r <= nrows,
                    rows_view(wrapped@) == wv.skip(r as int),
                    out@.len() == before.len() + r,
                    wrapped_view(out@) == before + Seq::new(r as nat, |k: int| RowV {
                        line_number: li as nat + 1,
                        is_cursor_line: self.gutter_highlighted && cl == li,
                        row_in_line: k as nat,
                        line_rows: wv.len(),
                        global_row: (before.len() + k) as nat,
                        content: wv[k],
                    }),
                decreases nrows - r,
            {
                let ghost wb = wrapped@;
                assert(rows_view(wb).len() == wb.len());
                assert(wb.len() > 0);
                let content = wrapped.remove(0);
                assert(rows_view(wb)[0] == wb[0]@);
                assert(content@ == wv[r as int]);
                assert(wrapped@ =~= wb.skip(1));
                assert(rows_view(wrapped@) =~= rows_view(wb).skip(1));
                assert(rows_view(wrapped@) =~= wv.skip(r as int + 1));
                let row = WrappedRow {
                    line_number: li + 1,
                    is_cursor_line: self.gutter_highlighted && cl == li,
                    row_in_line: r,
                    line_rows: nrows,
                    global_row: out.len(),
                    content,
                };
                let ghost ob = wrapped_view(out@);
                out.push(row);
                assert(wrapped_view(out@) =~= ob.push(row@));
                r = r + 1;
                assert(wrapped_view(out@) =~= before + Seq::new(r as nat, |k: int| RowV {
                    line_number: li as nat + 1,
                    is_cursor_line: self.gutter_highlighted && cl == li,
                    row_in_line: k as nat,
                    line_rows: wv.len(),
                    global_row: (before.len() + k) as nat,
                    content: wv[k],
                }));
            }
            li = li + 1;
        }
        (gd, out)
    }
}



fn shows_label_exec(t: &TextInput, row: &WrappedRow) -> (b: bool)
    ensures
        b == shows_label(*t, row@),
{
    let start = row.global_row.saturating_sub(row.row_in_line);
    let offset = t.visible_offset_lines as usize;
    let show_idx = if start <= offset && offset < start.saturating_add(row.line_rows) { offset - start } else { 0 };
    row.row_in_line == show_idx
}

fn push_label(t: &TextInput, row: &WrappedRow, gd: usize, out: &mut Vec<TextRun>)
    ensures
        node_run_views(final(out)@) == node_run_views(old(out)@) + label_part(*t, row@, gd as nat),
{
    let show = shows_label_exec(t, row);
    let text = label_text(row.line_number, gd, show);
    let tr = TextRun { text, style: TextStyle::new().color(Rgb(MUTED)) };
    let ghost o0 = node_run_views(out@);
    out.push(tr);
    assert(node_run_views(out@) =~= o0 + label_part(*t, row@, gd as nat));
}

fn push_pipe(t: &TextInput, row: &WrappedRow, out: &mut Vec<TextRun>)
    ensures
        node_run_views(final(out)@) == node_run_views(old(out)@) + pipe_part(*t, row@),
{
    let show = shows_label_exec(t, row);
    let pipe_color = if t.gutter_highlighted { ACCENT } else { MUTED };
    let mut text = String::new();
    let mid = if t.gutter_highlighted && row.is_cursor_line && show { '>' } else { '|' };
    push_char(&mut text, ' ');
    push_char(&mut text, mid);
    push_char(&mut text, ' ');
    let tr = TextRun { text, style: TextStyle::new().color(Rgb(pipe_color)) };
    let ghost o0 = node_run_views(out@);
    out.push(tr);
    assert(text@ =~= (if t.gutter_highlighted && row.is_cursor_line && show { seq![' ', '>', ' '] } else { seq![' ', '|', ' '] }));
    assert(node_run_views(out@) =~= o0 + pipe_part(*t, row@));
}

fn push_content(row: &WrappedRow, out: &mut Vec<TextRun>)
    ensures
        node_run_views(final(out)@) == node_run_views(old(out)@) + content_part(row@),
{
    let ghost o2 = node_run_views(out@);
    let mut i: usize = 0;
    while i < row.content.len()
        invariant
            i <= row.content@.len(),
            node_run_views(out@) == o2 + row.content@.take(i as int).map_values(|x: CellV| (seq![x.0], x.1)),
        decreases row.content@.len() - i,
    {
        let (c, st) = row.content[i];
        let mut text = String::new();
        push_char(&mut text, c);
        let ghost ob = node_run_views(out@);
        out.push(TextRun { text, style: st });
        assert(node_run_views(out@) =~= ob.push((seq![c], st)));
        i = i + 1;
        assert(row.content@.take(i as int).map_values(|x: CellV| (seq![x.0], x.1)) =~= row.content@.take(i as int - 1).map_values(|x: CellV| (seq![x.0], x.1)).push((seq![c], st)));
    }
    assert(row.content@.take(i as int) =~= row.content@);
}

fn row_runs_exec(t: &TextInput, row: &WrappedRow, gd: usize, label: bool, pipe: bool, content: bool, out: &mut Vec<TextRun>)
    ensures
        node_run_views(final(out)@) == node_run_views(old(out)@) + row_runs(*t, row@, gd as nat, label, pipe, content),
{
    let ghost o0 = node_run_views(out@);
    if label {
        push_label(t, row, gd, out);
    }
    let ghost o1 = node_run_views(out@);
    if pipe {
        push_pipe(t, row, out);
    }
    let ghost o2 = node_run_views(out@);
    if content {
        push_content(row, out);
    }
    assert(node_run_views(out@) =~= o0 + row_runs(*t, row@, gd as nat, label, pipe, content));
}

fn rows_to_rich(t: &TextInput, rows: &Vec<WrappedRow>, gd: usize, label: bool, pipe: bool, content: bool) -> (r: RichText)
    ensures
        node_run_views(r.runs@) == rows_runs(*t, wrapped_view(rows@), gd as nat, label, pipe, content, rows@.len() as int),
{
    let ghost rv = wrapped_view(rows@);
    let mut out: Vec<TextRun> = Vec::new();
    let mut k: usize = 0;
    assert(node_run_views(out@) =~= Seq::<(Seq<char>, TextStyle)>::empty());
    while k < rows.len()
        invariant
            rv == wrapped_view(rows@),
            k <= rows@.len(),
            node_run_views(out@) == rows_runs(*t, rv, gd as nat, label, pipe, content, k as int),
        decreases rows@.len() - k,
    {
        let ghost before = node_run_views(out@);
        if out.len() > 0 {
            let mut nl = String::new();
            push_char(&mut nl, '\n');
            out.push(TextRun { text: nl, style: TextStyle::new() });
            assert(node_run_views(out@) =~= before + seq![(seq!['\n'], plain_style())]);
        } else {
            assert(node_run_views(out@) =~= before + Seq::<(Seq<char>, TextStyle)>::empty());
        }
        assert(rv[k as int] == rows@[k as int]@);
        row_runs_exec(t, &rows[k], gd, label, pipe, content, &mut out);
        k = k + 1;
    }
    RichText { runs: out }
}

impl TextInput {
    /// Line numbers, a pipe gutter (`>` on a highlighted cursor line) and the
    /// wrapped content; three columns are kept for the gutter.
    pub fn to_wrapped_rich_text(&self, total_width: usize) -> (r: RichText)
        ensures
            node_run_views(r.runs@) == input_runs(*self, total_width as nat),
    {
        let w = if total_width >= 3 { total_width - 3 } else { 0 };
        let (gd, rows) = self.wrapped_rows(w);
        rows_to_rich(self, &rows, gd, true, true, true)
    }

    /// The line numbers alone, one column kept for the gutter.
    pub fn to_wrapped_gutter_rich_text(&self, total_width: usize) -> (r: RichText)
        ensures
            node_run_views(r.runs@) == rendered_runs(*self, if total_width >= 1 { (total_width - 1) as nat } else { 0 }, true, false, false),
    {
        let w = if total_width >= 1 { total_width - 1 } else { 0 };
        let (gd, rows) = self.wrapped_rows(w);
        rows_to_rich(self, &rows, gd, true, false, false)
    }

    /// The line numbers and the pipe gutter, three columns kept for the gutter.
    pub fn to_wrapped_gutter_with_pipe_rich_text(&self, total_width: usize) -> (r: RichText)
        ensures
            node_run_views(r.runs@) == rendered_runs(*self, if total_width >= 3 { (total_width - 3) as nat } else { 0 }, true, true, false),
    {
        let w = if total_width >= 3 { total_width - 3 } else { 0 };
        let (gd, rows) = self.wrapped_rows(w);
        rows_to_rich(self, &rows, gd, true, true, false)
    }

    /// The wrapped content alone, one column kept for the gutter.
    pub fn to_wrapped_content_rich_text(&self, total_width: usize) -> (r: RichText)
        ensures
            node_run_views(r.runs@) == rendered_runs(*self, if total_width >= 1 { (total_width - 1) as nat } else { 0 }, false, false, true),
    {
        let w = if total_width >= 1 { total_width - 1 } else { 0 };
        let (gd, rows) = self.wrapped_rows(w);
        rows_to_rich(self, &rows, gd, false, false, true)
    }
}

} // verus!
