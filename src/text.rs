use vstd::prelude::*;
use crate::color::Rgba;
use crate::width::{char_cols, cols};

verus! {

/// Attributes of a run of text. A cursor anchor marks the run's characters as
/// the place of the visual cursor, before them or, with `cursor_after`, after.
#[derive(Clone, Copy, Debug, PartialEq, Eq, Structural)]
pub struct TextStyle {
    pub bold: bool,
    pub italic: bool,
    pub underline: bool,
    pub strikethrough: bool,
    pub color: Option<Rgba>,
    pub bg: Option<Rgba>,
    pub cursor_anchor: bool,
    pub cursor_after: bool,
}

pub open spec fn plain_text_style() -> TextStyle {
    TextStyle {
        bold: false,
        italic: false,
        underline: false,
        strikethrough: false,
        color: None,
        bg: None,
        cursor_anchor: false,
        cursor_after: false,
    }
}

impl TextStyle {
    pub fn new() -> (s: TextStyle)
        ensures
            s == plain_text_style(),
    {
        TextStyle {
            bold: false,
            italic: false,
            underline: false,
            strikethrough: false,
            color: None,
            bg: None,
            cursor_anchor: false,
            cursor_after: false,
        }
    }

    pub fn bold(self) -> (s: TextStyle)
        ensures
            s == (TextStyle { bold: true, ..self }),
    {
        TextStyle { bold: true, ..self }
    }

    pub fn italic(self) -> (s: TextStyle)
        ensures
            s == (TextStyle { italic: true, ..self }),
    {
        TextStyle { italic: true, ..self }
    }

    pub fn underline(self) -> (s: TextStyle)
        ensures
            s == (TextStyle { underline: true, ..self }),
    {
        TextStyle { underline: true, ..self }
    }

    pub fn strikethrough(self) -> (s: TextStyle)
        ensures
            s == (TextStyle { strikethrough: true, ..self }),
    {
        TextStyle { strikethrough: true, ..self }
    }

    pub fn color(self, color: Rgba) -> (s: TextStyle)
        ensures
            s == (TextStyle { color: Some(color), ..self }),
    {
        TextStyle { color: Some(color), ..self }
    }

    pub fn bg(self, color: Rgba) -> (s: TextStyle)
        ensures
            s == (TextStyle { bg: Some(color), ..self }),
    {
        TextStyle { bg: Some(color), ..self }
    }

    pub fn cursor_anchor(self, after: bool) -> (s: TextStyle)
        ensures
            s == (TextStyle { cursor_anchor: true, cursor_after: after, ..self }),
    {
        TextStyle { cursor_anchor: true, cursor_after: after, ..self }
    }
}

#[derive(Clone, Debug)]
pub struct TextRun {
    pub text: String,
    pub style: TextStyle,
}

impl TextRun {
    pub fn plain(text: &str) -> (r: TextRun)
        ensures
            r.text@ == text@,
            r.style == plain_text_style(),
    {
        TextRun { text: text.to_owned(), style: TextStyle::new() }
    }

    pub fn styled(text: &str, style: TextStyle) -> (r: TextRun)
        ensures
            r.text@ == text@,
            r.style == style,
    {
        TextRun { text: text.to_owned(), style }
    }
}

/// A sequence of styled runs; a `'\n'` inside a run starts a new line.
#[derive(Clone, Debug)]
pub struct StyledText {
    pub runs: Vec<TextRun>,
}

/// The characters of all runs, in order.
pub open spec fn runs_chars(runs: Seq<TextRun>) -> Seq<char>
    decreases runs.len(),
{
    if runs.len() == 0 {
        Seq::empty()
    } else {
        runs_chars(runs.drop_last()) + runs.last().text@
    }
}

/// `a + b`, held at `usize::MAX` as a saturating addition holds it.
pub open spec fn sat_add(a: nat, b: nat) -> nat {
    if a + b > usize::MAX {
        usize::MAX as nat
    } else {
        a + b
    }
}

pub open spec fn max_nat(a: nat, b: nat) -> nat {
    if a >= b {
        a
    } else {
        b
    }
}

/// After the characters `cs`: the widest finished line, and the width of the
/// line in progress.
pub open spec fn width_scan(cs: Seq<char>) -> (nat, nat)
    decreases cs.len(),
{
    if cs.len() == 0 {
        (0, 0)
    } else {
        let (m, l) = width_scan(cs.drop_last());
        if cs.last() == '\n' {
            (max_nat(m, l), 0)
        } else {
            (m, sat_add(l, cols(cs.last())))
        }
    }
}

/// Display width of the widest line.
pub open spec fn text_width(cs: Seq<char>) -> nat {
    max_nat(width_scan(cs).0, width_scan(cs).1)
}

/// Lines without wrapping: one more than the line breaks.
pub open spec fn text_height(cs: Seq<char>) -> nat
    decreases cs.len(),
{
    if cs.len() == 0 {
        1
    } else if cs.last() == '\n' {
        sat_add(text_height(cs.drop_last()), 1)
    } else {
        text_height(cs.drop_last())
    }
}

/// Greedy wrapping at `limit` columns: (rows so far, width of the current row).
/// A character that would overflow a non-empty row starts the next row.
pub open spec fn wrap_scan(cs: Seq<char>, limit: nat) -> (nat, nat)
    decreases cs.len(),
{
    if cs.len() == 0 {
        (1, 0)
    } else {
        let (n, l) = wrap_scan(cs.drop_last(), limit);
        let c = cs.last();
        if c == '\n' {
            (sat_add(n, 1), 0)
        } else if l > 0 && sat_add(l, cols(c)) > limit {
            (sat_add(n, 1), cols(c))
        } else {
            (n, sat_add(l, cols(c)))
        }
    }
}

/// Rows that the text takes when wrapped at `limit` columns (0: no wrapping).
pub open spec fn wrapped_height(cs: Seq<char>, limit: nat) -> nat {
    if limit == 0 {
        text_height(cs)
    } else {
        wrap_scan(cs, limit).0
    }
}

/// Columns that the text takes when wrapped at `limit` columns (0: no wrapping).
pub open spec fn wrapped_width(cs: Seq<char>, limit: nat) -> nat {
    if limit == 0 || text_width(cs) <= limit {
        text_width(cs)
    } else {
        limit
    }
}

proof fn lemma_runs_chars_push(runs: Seq<TextRun>, r: TextRun)
    ensures
        runs_chars(runs.push(r)) == runs_chars(runs) + r.text@,
{
    assert(runs.push(r).drop_last() =~= runs);
}

proof fn lemma_chars_push(cs: Seq<char>, c: char)
    ensures
        cs.push(c).drop_last() == cs,
        cs.push(c).last() == c,
{
    assert(cs.push(c).drop_last() =~= cs);
}

/// Every character is a single column wide and none is a line break.
pub open spec fn single_cols(cs: Seq<char>) -> bool {
    forall|k: int| #![trigger cs[k]] 0 <= k < cs.len() ==> cs[k] != '\n' && cols(cs[k]) == 1
}

proof fn lemma_div_step(i: int, c: int)
    requires
        i >= 0,
        c > 0,
    ensures
        i % c + 1 < c ==> (i + 1) / c == i / c && (i + 1) % c == i % c + 1,
        i % c + 1 >= c ==> (i + 1) / c == i / c + 1 && (i + 1) % c == 0,
{
    vstd::arithmetic::div_mod::lemma_fundamental_div_mod(i, c);
    vstd::arithmetic::div_mod::lemma_mod_bound(i, c);
    assert(c * (i / c) == (i / c) * c) by (nonlinear_arith);
    if i % c + 1 < c {
        vstd::arithmetic::div_mod::lemma_fundamental_div_mod_converse(i + 1, c, i / c, i % c + 1);
    } else {
        assert((i / c + 1) * c == i / c * c + c) by (nonlinear_arith);
        vstd::arithmetic::div_mod::lemma_fundamental_div_mod_converse(i + 1, c, i / c + 1, 0);
    }
}

proof fn lemma_wrap_prefix(cs: Seq<char>, limit: nat, i: int)
    requires
        limit > 0,
        1 <= i <= cs.len(),
        cs.len() < usize::MAX,
        single_cols(cs),
    ensures
        wrap_scan(cs.take(i), limit) == (((i - 1) / (limit as int) + 1) as nat, ((i - 1) % (limit as int) + 1) as nat),
    decreases i,
{
    let c = limit as int;
    let t = cs.take(i);
    assert(t.drop_last() =~= cs.take(i - 1));
    assert(t.last() == cs[i - 1]);
    assert(cols(cs[i - 1]) == 1);
    if i == 1 {
        assert(cs.take(0) =~= Seq::<char>::empty());
        assert(0int / c == 0) by (nonlinear_arith) requires c > 0;
        assert(0int % c == 0) by (nonlinear_arith) requires c > 0;
        assert(wrap_scan(t.drop_last(), limit) == (1nat, 0nat));
        assert(wrap_scan(t, limit) == (1nat, 1nat));
    } else {
        lemma_wrap_prefix(cs, limit, i - 1);
        lemma_div_step(i - 2, c);
        vstd::arithmetic::div_mod::lemma_mod_bound(i - 2, c);
        vstd::arithmetic::div_mod::lemma_div_is_ordered_by_denominator(i - 2, 1, c);
        assert((i - 2) / 1 == i - 2);
        vstd::arithmetic::div_mod::lemma_mod_is_mod_recursive(i - 2, c);
        let (n, l) = wrap_scan(cs.take(i - 1), limit);
        assert(n == (i - 2) / c + 1);
        assert(l == (i - 2) % c + 1);
        assert(l <= i - 1) by {
            vstd::arithmetic::div_mod::lemma_mod_is_mod_recursive(i - 2, c);
            vstd::arithmetic::div_mod::lemma_mod_decreases((i - 2) as nat, c as nat);
        }
        assert(sat_add(l, 1) == l + 1);
        assert(sat_add(n, 1) == n + 1);
        if l + 1 > limit {
            assert(wrap_scan(t, limit) == ((n + 1) as nat, 1nat));
        } else {
            assert(wrap_scan(t, limit) == (n, (l + 1) as nat));
        }
    }
}

/// Text of single-column characters without line breaks, of total width
/// W > 0, wrapped at C > 0 columns takes ceil(W / C) rows.
pub proof fn lemma_wrap_rows(cs: Seq<char>, limit: nat)
    requires
        limit > 0,
        0 < cs.len() < usize::MAX,
        single_cols(cs),
    ensures
        wrapped_height(cs, limit) == (cs.len() + limit - 1) / (limit as int),
{
    lemma_wrap_prefix(cs, limit, cs.len() as int);
    assert(cs.take(cs.len() as int) =~= cs);
    let c = limit as int;
    let n = cs.len() as int;
    vstd::arithmetic::div_mod::lemma_fundamental_div_mod(n - 1, c);
    vstd::arithmetic::div_mod::lemma_mod_bound(n - 1, c);
    assert(c * ((n - 1) / c) == ((n - 1) / c) * c) by (nonlinear_arith);
    assert((n - 1) / c * c + c == ((n - 1) / c + 1) * c) by (nonlinear_arith);
    vstd::arithmetic::div_mod::lemma_fundamental_div_mod_converse(n + c - 1, c, (n - 1) / c + 1, (n - 1) % c);
}

impl StyledText {
    pub open spec fn chars(&self) -> Seq<char> {
        runs_chars(self.runs@)
    }

    /// One plain run.
    pub fn new(text: &str) -> (t: StyledText)
        ensures
            t.runs@.len() == 1,
            t.runs@[0].text@ == text@,
            t.runs@[0].style == plain_text_style(),
    {
        let mut runs: Vec<TextRun> = Vec::new();
        runs.push(TextRun::plain(text));
        StyledText { runs }
    }

    pub fn empty() -> (t: StyledText)
        ensures
            t.runs@.len() == 0,
    {
        StyledText { runs: Vec::new() }
    }

    pub fn push_run(self, text: &str, style: TextStyle) -> (t: StyledText)
        ensures
            t.runs@.len() == self.runs@.len() + 1,
            t.runs@.drop_last() == self.runs@,
            t.runs@.last().text@ == text@,
            t.runs@.last().style == style,
    {
        let mut runs = self.runs;
        runs.push(TextRun::styled(text, style));
        assert(runs@.drop_last() =~= self.runs@);
        StyledText { runs }
    }

    pub fn push_plain(self, text: &str) -> (t: StyledText)
        ensures
            t.runs@.len() == self.runs@.len() + 1,
            t.runs@.drop_last() == self.runs@,
            t.runs@.last().text@ == text@,
            t.runs@.last().style == plain_text_style(),
    {
        self.push_run(text, TextStyle::new())
    }

    /// Display width of the widest line.
    pub fn width_chars(&self) -> (w: usize)
        ensures
            w as nat == text_width(self.chars()),
    {
        let mut max_width: usize = 0;
        let mut line_width: usize = 0;
        let mut r: usize = 0;
        while r < self.runs.len()
            invariant
                0 <= r <= self.runs@.len(),
                (max_width as nat, line_width as nat) == width_scan(runs_chars(self.runs@.take(r as int))),
            decreases self.runs@.len() - r,
        {
            let text = self.runs[r].text.as_str();
            let n = text.unicode_len();
            let ghost before = runs_chars(self.runs@.take(r as int));
            let mut i: usize = 0;
            while i < n
                invariant
                    0 <= r < self.runs@.len(),
                    text@ == self.runs@[r as int].text@,
                    n == text@.len(),
                    0 <= i <= n,
                    (max_width as nat, line_width as nat) == width_scan(before + text@.take(i as int)),
                decreases n - i,
            {
                let ch = text.get_char(i);
                proof {
                    lemma_chars_push(before + text@.take(i as int), ch);
                    assert(before + text@.take(i as int + 1) =~= (before + text@.take(i as int)).push(ch));
                }
                if ch == '\n' {
                    if line_width > max_width {
                        max_width = line_width;
                    }
                    line_width = 0;
                } else {
                    line_width = line_width.saturating_add(char_cols(ch));
                }
                i = i + 1;
            }
            proof {
                assert(self.runs@.take(r as int + 1) =~= self.runs@.take(r as int).push(self.runs@[r as int]));
                lemma_runs_chars_push(self.runs@.take(r as int), self.runs@[r as int]);
                assert(text@.take(n as int) =~= text@);
            }
            r = r + 1;
        }
        assert(self.runs@.take(r as int) =~= self.runs@);
        if line_width > max_width {
            line_width
        } else {
            max_width
        }
    }

    /// Lines without wrapping.
    pub fn height_lines(&self) -> (h: usize)
        ensures
            h as nat == text_height(self.chars()),
    {
        let mut lines: usize = 1;
        let mut r: usize = 0;
        while r < self.runs.len()
            invariant
                0 <= r <= self.runs@.len(),
                lines as nat == text_height(runs_chars(self.runs@.take(r as int))),
            decreases self.runs@.len() - r,
        {
            let text = self.runs[r].text.as_str();
            let n = text.unicode_len();
            let ghost before = runs_chars(self.runs@.take(r as int));
            let mut i: usize = 0;
            while i < n
                invariant
                    0 <= r < self.runs@.len(),
                    text@ == self.runs@[r as int].text@,
                    n == text@.len(),
                    0 <= i <= n,
                    lines as nat == text_height(before + text@.take(i as int)),
                decreases n - i,
            {
                let ch = text.get_char(i);
                proof {
                    lemma_chars_push(before + text@.take(i as int), ch);
                    assert(before + text@.take(i as int + 1) =~= (before + text@.take(i as int)).push(ch));
                }
                if ch == '\n' {
                    lines = lines.saturating_add(1);
                }
                i = i + 1;
            }
            proof {
                assert(self.runs@.take(r as int + 1) =~= self.runs@.take(r as int).push(self.runs@[r as int]));
                lemma_runs_chars_push(self.runs@.take(r as int), self.runs@[r as int]);
                assert(text@.take(n as int) =~= text@);
            }
            r = r + 1;
        }
        assert(self.runs@.take(r as int) =~= self.runs@);
        lines
    }

    /// Columns taken when wrapped at `max_width` (0: no wrapping).
    pub fn wrapped_width_chars(&self, max_width: usize) -> (w: usize)
        ensures
            w as nat == wrapped_width(self.chars(), max_width as nat),
    {
        let w = self.width_chars();
        if max_width == 0 || w <= max_width {
            w
        } else {
            max_width
        }
    }

    /// Rows taken when wrapped greedily at `max_width` (0: no wrapping).
    pub fn wrapped_height_lines(&self, max_width: usize) -> (h: usize)
        ensures
            h as nat == wrapped_height(self.chars(), max_width as nat),
    {
        if max_width == 0 {
            return self.height_lines();
        }
        let mut lines: usize = 1;
        let mut line_width: usize = 0;
        let mut r: usize = 0;
        while r < self.runs.len()
            invariant
                0 <= r <= self.runs@.len(),
                max_width > 0,
                (lines as nat, line_width as nat) == wrap_scan(runs_chars(self.runs@.take(r as int)), max_width as nat),
            decreases self.runs@.len() - r,
        {
            let text = self.runs[r].text.as_str();
            let n = text.unicode_len();
            let ghost before = runs_chars(self.runs@.take(r as int));
            let mut i: usize = 0;
            while i < n
                invariant
                    0 <= r < self.runs@.len(),
                    max_width > 0,
                    text@ == self.runs@[r as int].text@,
                    n == text@.len(),
                    0 <= i <= n,
                    (lines as nat, line_width as nat) == wrap_scan(before + text@.take(i as int), max_width as nat),
                decreases n - i,
            {
                let ch = text.get_char(i);
                proof {
                    lemma_chars_push(before + text@.take(i as int), ch);
                    assert(before + text@.take(i as int + 1) =~= (before + text@.take(i as int)).push(ch));
                }
                if ch == '\n' {
                    lines = lines.saturating_add(1);
                    line_width = 0;
                } else {
                    let cw = char_cols(ch);
                    if line_width > 0 && line_width.saturating_add(cw) > max_width {
                        lines = lines.saturating_add(1);
                        line_width = 0;
                    }
                    line_width = line_width.saturating_add(cw);
                }
                i = i + 1;
            }
            proof {
                assert(self.runs@.take(r as int + 1) =~= self.runs@.take(r as int).push(self.runs@[r as int]));
                lemma_runs_chars_push(self.runs@.take(r as int), self.runs@[r as int]);
                assert(text@.take(n as int) =~= text@);
            }
            r = r + 1;
        }
        assert(self.runs@.take(r as int) =~= self.runs@);
        lines
    }
}

pub fn styled_text(text: &str) -> (t: StyledText)
    ensures
        t.runs@.len() == 1,
        t.runs@[0].text@ == text@,
        t.runs@[0].style == plain_text_style(),
{
    StyledText::new(text)
}

} // verus!
