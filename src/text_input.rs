use vstd::prelude::*;
use crate::chars::{chars_of, push_chars, push_char};
use crate::focus::{UiInputEvent, UiKeyInput};
use crate::text::sat_add;
use crate::width::{char_cols, cols};

verus! {

/// The name of `char::is_whitespace`'s answer: the Unicode White_Space property.
pub uninterp spec fn white_space(c: char) -> bool;

/// Relies on `char::is_whitespace`: whether `c` has the White_Space
/// property, which a space, a tab and a line break have.
#[verifier::external_body]
fn is_space(c: char) -> (r: bool)
    ensures
        r == white_space(c),
        c == ' ' || c == '\t' || c == '\n' ==> r,
{
    c.is_whitespace()
}

/// (line, column) of the cursor, counting the characters before it.
pub open spec fn lc_scan(v: Seq<char>, cursor: nat, k: int) -> (nat, nat)
    decreases k,
{
    if k <= 0 || k > v.len() {
        (0, 0)
    } else {
        let (l, c) = lc_scan(v, cursor, k - 1);
        if k - 1 >= cursor {
            (l, c)
        } else if v[k - 1] == '\n' {
            (l + 1, 0)
        } else {
            (l, c + 1)
        }
    }
}

pub open spec fn line_col(v: Seq<char>, cursor: nat) -> (nat, nat) {
    lc_scan(v, cursor, v.len() as int)
}

pub open spec fn breaks(v: Seq<char>, k: int) -> nat
    decreases k,
{
    if k <= 0 || k > v.len() {
        0
    } else {
        breaks(v, k - 1) + if v[k - 1] == '\n' { 1nat } else { 0nat }
    }
}

pub open spec fn line_count(v: Seq<char>) -> nat {
    breaks(v, v.len() as int) + 1
}

/// Scanning for the index at line `tl`, column `tc` (or the end of that line):
/// (line, column, index, stopped).
pub open spec fn clc_scan(v: Seq<char>, tl: nat, tc: nat, k: int) -> (nat, nat, nat, bool)
    decreases k,
{
    if k <= 0 || k > v.len() {
        (0, 0, 0, false)
    } else {
        let (l, c, idx, stop) = clc_scan(v, tl, tc, k - 1);
        if stop {
            (l, c, idx, stop)
        } else if l == tl && c >= tc {
            (l, c, idx, true)
        } else if v[k - 1] == '\n' {
            if l == tl { (l, c, idx, true) } else { (l + 1, 0, idx + 1, false) }
        } else {
            (l, if l == tl { c + 1 } else { c }, idx + 1, false)
        }
    }
}

pub open spec fn cursor_at_line_col(v: Seq<char>, tl: nat, tc: nat) -> nat {
    clc_scan(v, tl, tc, v.len() as int).2
}

/// Visual rows at `width` columns: (rows, column of the pen).
pub open spec fn tvr_scan(v: Seq<char>, width: nat, k: int) -> (nat, nat)
    decreases k,
{
    if k <= 0 || k > v.len() {
        (1, 0)
    } else {
        let (r, c) = tvr_scan(v, width, k - 1);
        let ch = v[k - 1];
        if ch == '\n' {
            (r + 1, 0)
        } else if c > 0 && sat_add(c, cols(ch)) > width {
            (r + 1, sat_add(0, cols(ch)))
        } else {
            (r, sat_add(c, cols(ch)))
        }
    }
}

pub open spec fn visual_rows(v: Seq<char>, width: nat) -> nat {
    tvr_scan(v, if width >= 1 { width } else { 1 }, v.len() as int).0
}

/// The visual (row, column) of the cursor: (row, col, found, found row, found col).
pub open spec fn vrc_scan(v: Seq<char>, cursor: nat, width: nat, k: int) -> (nat, nat, bool, nat, nat)
    decreases k,
{
    if k <= 0 || k > v.len() {
        (0, 0, false, 0, 0)
    } else {
        let (r, c, found, fr, fc) = vrc_scan(v, cursor, width, k - 1);
        let ch = v[k - 1];
        if found {
            (r, c, found, fr, fc)
        } else {
            let wrapped = ch != '\n' && c > 0 && sat_add(c, cols(ch)) > width;
            let r1 = if wrapped { r + 1 } else { r };
            let c1 = if wrapped { 0 } else { c };
            if k - 1 == cursor {
                (r1, c1, true, r1, c1)
            } else if ch == '\n' {
                (r1 + 1, 0, false, 0, 0)
            } else {
                (r1, sat_add(c1, cols(ch)), false, 0, 0)
            }
        }
    }
}

pub open spec fn visual_row_col(v: Seq<char>, cursor: nat, width: nat) -> (nat, nat) {
    let w = if width >= 1 { width } else { 1 };
    let (r, c, found, fr, fc) = vrc_scan(v, cursor, w, v.len() as int);
    if found { (fr, fc) } else { (r, c) }
}

/// Scanning for the index at visual row `tr` nearest column `tc`:
/// (row, col, best, first, last, stopped).
pub open spec fn cvr_scan(v: Seq<char>, width: nat, tr: nat, tc: nat, k: int) -> (nat, nat, Option<nat>, Option<nat>, Option<nat>, bool)
    decreases k,
{
    if k <= 0 || k > v.len() {
        (0, 0, None, None, None, false)
    } else {
        let (r, c, best, first, last, stop) = cvr_scan(v, width, tr, tc, k - 1);
        let ch = v[k - 1];
        let i = (k - 1) as nat;
        if stop {
            (r, c, best, first, last, stop)
        } else {
            let wrapped = ch != '\n' && c > 0 && sat_add(c, cols(ch)) > width;
            let r1 = if wrapped { r + 1 } else { r };
            let c1 = if wrapped { 0 } else { c };
            if r1 > tr {
                (r1, c1, best, first, last, true)
            } else {
                let (best2, first2, last2) = if r1 == tr {
                    (if c1 <= tc { Some(i) } else { best }, if first is Some { first } else { Some(i) }, Some(i))
                } else {
                    (best, first, last)
                };
                if ch == '\n' {
                    (r1 + 1, 0, best2, first2, last2, false)
                } else {
                    (r1, sat_add(c1, cols(ch)), best2, first2, last2, false)
                }
            }
        }
    }
}

pub open spec fn cursor_at_visual(v: Seq<char>, width: nat, tr: nat, tc: nat) -> nat {
    let w = if width >= 1 { width } else { 1 };
    let (r, c, best, first, last, stop) = cvr_scan(v, w, tr, tc, v.len() as int);
    let end = v.len();
    let (best2, first2, last2) = if r == tr {
        (if c <= tc { Some(end) } else { best }, if first is Some { first } else { Some(end) }, Some(end))
    } else {
        (best, first, last)
    };
    match best2 {
        Some(b) => b,
        None => match last2 {
            Some(l) => l,
            None => match first2 {
                Some(f) => f,
                None => end,
            },
        },
    }
}

/// From i, step left over characters whose whiteness is `ws`.
pub open spec fn skip_back(v: Seq<char>, i: int, ws: bool) -> int
    decreases i,
{
    if i > 0 && i <= v.len() && white_space(v[i - 1]) == ws {
        skip_back(v, i - 1, ws)
    } else {
        i
    }
}

/// From i, step right over characters whose whiteness is `ws`.
pub open spec fn skip_fwd(v: Seq<char>, i: int, ws: bool) -> int
    decreases v.len() - i,
{
    if 0 <= i < v.len() && white_space(v[i]) == ws {
        skip_fwd(v, i + 1, ws)
    } else {
        i
    }
}

pub open spec fn min_nat(a: nat, b: nat) -> nat {
    if a <= b { a } else { b }
}

/// The start of the word before the cursor (spaces before it skipped).
pub open spec fn prev_word(v: Seq<char>, cursor: nat) -> nat {
    skip_back(v, skip_back(v, min_nat(cursor, v.len()) as int, true), false) as nat
}

/// The end of the word after the cursor (spaces before it skipped).
pub open spec fn next_word(v: Seq<char>, cursor: nat) -> nat {
    skip_fwd(v, skip_fwd(v, min_nat(cursor, v.len()) as int, true), false) as nat
}


pub(crate) fn line_col_for_cursor(v: &Vec<char>, cursor: usize) -> (r: (usize, usize))
    ensures
        (r.0 as nat, r.1 as nat) == line_col(v@, cursor as nat),
        r.0 <= v@.len(),
{
    let mut line: usize = 0;
    let mut col: usize = 0;
    let mut i: usize = 0;
    while i < v.len()
        invariant
            i <= v@.len(),
            line <= i,
            col <= i,
            (line as nat, col as nat) == lc_scan(v@, cursor as nat, i as int),
        decreases v@.len() - i,
    {
        if i < cursor {
            if v[i] == '\n' {
                line = line + 1;
                col = 0;
            } else {
                col = col + 1;
            }
        }
        i = i + 1;
    }
    (line, col)
}

fn count_lines(v: &Vec<char>) -> (r: usize)
    requires
        v@.len() < usize::MAX,
    ensures
        r as nat == line_count(v@),
{
    let mut n: usize = 0;
    let mut i: usize = 0;
    while i < v.len()
        invariant
            i <= v@.len(),
            n <= i,
            n as nat == breaks(v@, i as int),
        decreases v@.len() - i,
    {
        if v[i] == '\n' {
            n = n + 1;
        }
        i = i + 1;
    }
    n + 1
}

fn cursor_for_line_col(v: &Vec<char>, tl: usize, tc: usize) -> (r: usize)
    ensures
        r as nat == cursor_at_line_col(v@, tl as nat, tc as nat),
        r <= v@.len(),
{
    let mut line: usize = 0;
    let mut col: usize = 0;
    let mut idx: usize = 0;
    let mut stop = false;
    let mut i: usize = 0;
    while i < v.len()
        invariant
            i <= v@.len(),
            line <= i,
            col <= i,
            idx <= i,
            (line as nat, col as nat, idx as nat, stop) == clc_scan(v@, tl as nat, tc as nat, i as int),
        decreases v@.len() - i,
    {
        if !stop {
            if line == tl && col >= tc {
                stop = true;
            } else if v[i] == '\n' {
                if line == tl {
                    stop = true;
                } else {
                    line = line + 1;
                    col = 0;
                    idx = idx + 1;
                }
            } else {
                if line == tl {
                    col = col + 1;
                }
                idx = idx + 1;
            }
        }
        i = i + 1;
    }
    idx
}

fn total_visual_rows(v: &Vec<char>, wrap_width: usize) -> (r: usize)
    requires
        v@.len() < usize::MAX,
    ensures
        r as nat == visual_rows(v@, wrap_width as nat),
        r >= 1,
{
    let width: usize = if wrap_width >= 1 { wrap_width } else { 1 };
    let mut rows: usize = 1;
    let mut col: usize = 0;
    let mut i: usize = 0;
    while i < v.len()
        invariant
            i <= v@.len() < usize::MAX,
            1 <= rows <= i + 1,
            (rows as nat, col as nat) == tvr_scan(v@, width as nat, i as int),
        decreases v@.len() - i,
    {
        let ch = v[i];
        if ch == '\n' {
            rows = rows + 1;
            col = 0;
        } else {
            let w = char_cols(ch);
            if col > 0 && col.saturating_add(w) > width {
                rows = rows + 1;
                col = 0;
            }
            col = col.saturating_add(w);
        }
        i = i + 1;
    }
    rows
}

fn visual_row_col_for_cursor(v: &Vec<char>, cursor: usize, wrap_width: usize) -> (r: (usize, usize))
    requires
        v@.len() < usize::MAX,
    ensures
        (r.0 as nat, r.1 as nat) == visual_row_col(v@, cursor as nat, wrap_width as nat),
{
    let width: usize = if wrap_width >= 1 { wrap_width } else { 1 };
    let mut row: usize = 0;
    let mut col: usize = 0;
    let mut found = false;
    let mut fr: usize = 0;
    let mut fc: usize = 0;
    let mut i: usize = 0;
    while i < v.len()
        invariant
            i <= v@.len() < usize::MAX,
            row <= i,
            (row as nat, col as nat, found, fr as nat, fc as nat) == vrc_scan(v@, cursor as nat, width as nat, i as int),
        decreases v@.len() - i,
    {
        if !found {
            let ch = v[i];
            let w = char_cols(ch);
            if ch != '\n' && col > 0 && col.saturating_add(w) > width {
                row = row + 1;
                col = 0;
            }
            if i == cursor {
                found = true;
                fr = row;
                fc = col;
            } else if ch == '\n' {
                row = row + 1;
                col = 0;
            } else {
                col = col.saturating_add(w);
            }
        }
        i = i + 1;
    }
    if found {
        (fr, fc)
    } else {
        (row, col)
    }
}

fn cursor_for_visual_row_col(v: &Vec<char>, wrap_width: usize, tr: usize, tc: usize) -> (r: usize)
    requires
        v@.len() < usize::MAX,
    ensures
        r as nat == cursor_at_visual(v@, wrap_width as nat, tr as nat, tc as nat),
        r <= v@.len(),
{
    let width: usize = if wrap_width >= 1 { wrap_width } else { 1 };
    let mut row: usize = 0;
    let mut col: usize = 0;
    let mut best: Option<usize> = None;
    let mut first: Option<usize> = None;
    let mut last: Option<usize> = None;
    let mut stop = false;
    let mut i: usize = 0;
    while i < v.len()
        invariant
            i <= v@.len() < usize::MAX,
            row <= i,
            best matches Some(b) ==> b < i,
            first matches Some(b) ==> b < i,
            last matches Some(b) ==> b < i,
            (row as nat, col as nat, match best { Some(b) => Some(b as nat), None => None },
                match first { Some(b) => Some(b as nat), None => None },
                match last { Some(b) => Some(b as nat), None => None }, stop)
                == cvr_scan(v@, width as nat, tr as nat, tc as nat, i as int),
        decreases v@.len() - i,
    {
        if !stop {
            let ch = v[i];
            let w = char_cols(ch);
            if ch != '\n' && col > 0 && col.saturating_add(w) > width {
                row = row + 1;
                col = 0;
            }
            if row > tr {
                stop = true;
            } else {
                if row == tr {
                    if col <= tc {
                        best = Some(i);
                    }
                    if first.is_none() {
                        first = Some(i);
                    }
                    last = Some(i);
                }
                if ch == '\n' {
                    row = row + 1;
                    col = 0;
                } else {
                    col = col.saturating_add(w);
                }
            }
        }
        i = i + 1;
    }
    let end = v.len();
    if row == tr {
        if col <= tc {
            best = Some(end);
        }
        if first.is_none() {
            first = Some(end);
        }
        last = Some(end);
    }
    match best {
        Some(b) => b,
        None => match last {
            Some(l) => l,
            None => match first {
                Some(f) => f,
                None => end,
            },
        },
    }
}

fn prev_word_boundary(v: &Vec<char>, cursor: usize) -> (r: usize)
    ensures
        r as nat == prev_word(v@, cursor as nat),
        r <= cursor,
        r <= v@.len(),
{
    let mut i: usize = if cursor <= v.len() { cursor } else { v.len() };
    let ghost start = i as int;
    while i > 0 && is_space(v[i - 1])
        invariant
            i <= v@.len(),
            i <= cursor,
            skip_back(v@, start, true) == skip_back(v@, i as int, true),
        decreases i,
    {
        i = i - 1;
    }
    let ghost mid = i as int;
    while i > 0 && !is_space(v[i - 1])
        invariant
            i <= v@.len(),
            i <= cursor,
            skip_back(v@, mid, false) == skip_back(v@, i as int, false),
        decreases i,
    {
        i = i - 1;
    }
    i
}

fn next_word_boundary(v: &Vec<char>, cursor: usize) -> (r: usize)
    ensures
        r as nat == next_word(v@, cursor as nat),
        r <= v@.len(),
{
    let mut i: usize = if cursor <= v.len() { cursor } else { v.len() };
    let ghost start = i as int;
    while i < v.len() && is_space(v[i])
        invariant
            i <= v@.len(),
            skip_fwd(v@, start, true) == skip_fwd(v@, i as int, true),
        decreases v@.len() - i,
    {
        i = i + 1;
    }
    let ghost mid = i as int;
    while i < v.len() && !is_space(v[i])
        invariant
            i <= v@.len(),
            skip_fwd(v@, mid, false) == skip_fwd(v@, i as int, false),
        decreases v@.len() - i,
    {
        i = i + 1;
    }
    i
}


/// The editing state of a text field: its value and a cursor counted in
/// characters, the column kept through vertical moves, and the soft-wrap
/// width that vertical moves follow.
#[derive(Clone, Debug)]
pub struct TextInputState {
    value: String,
    cursor: usize,
    preferred_column: Option<usize>,
    soft_wrap_width: Option<usize>,
}

pub struct InputView {
    pub value: Seq<char>,
    pub cursor: nat,
    pub preferred: Option<usize>,
    pub wrap: Option<usize>,
}

impl View for TextInputState {
    type V = InputView;

    closed spec fn view(&self) -> InputView {
        InputView {
            value: self.value@,
            cursor: self.cursor as nat,
            preferred: self.preferred_column,
            wrap: self.soft_wrap_width,
        }
    }
}

/// The largest value, in characters, that an edit may grow.
pub const MAX_INPUT_CHARS: usize = 0x7fff_fff0;

impl InputView {
    pub open spec fn wf(self) -> bool {
        self.cursor <= self.value.len() && self.value.len() <= MAX_INPUT_CHARS
    }

    pub open spec fn at(self, cursor: nat, preferred: Option<usize>) -> InputView {
        InputView { cursor, preferred, ..self }
    }

    pub open spec fn edited(self, value: Seq<char>, cursor: nat) -> InputView {
        InputView { value, cursor, preferred: None, ..self }
    }
}

/// One line up or down, keeping the preferred column.
pub open spec fn logical_vertical(s: InputView, down: bool) -> InputView {
    let v = s.value;
    let (line, col) = line_col(v, s.cursor);
    if !down && line == 0 {
        s.at(0, None)
    } else if down && line + 1 >= line_count(v) {
        s.at(v.len(), None)
    } else {
        let target = if down { line + 1 } else { (line - 1) as nat };
        let p = match s.preferred {
            Some(p) => p,
            None => col as usize,
        };
        s.at(cursor_at_line_col(v, target, p as nat), Some(p))
    }
}

/// One visual row up or down at wrap width `w`, keeping the preferred column.
pub open spec fn visual_vertical(s: InputView, down: bool, w: usize) -> InputView {
    let v = s.value;
    let (row, col) = visual_row_col(v, s.cursor, w as nat);
    if !down && row == 0 {
        s.at(0, None)
    } else if down && row + 1 >= visual_rows(v, w as nat) {
        s.at(v.len(), None)
    } else {
        let target = if down { row + 1 } else { (row - 1) as nat };
        let p = match s.preferred {
            Some(p) => p,
            None => col as usize,
        };
        s.at(cursor_at_visual(v, w as nat, target, p as nat), Some(p))
    }
}

pub open spec fn inserted(s: InputView, c: char) -> (InputView, bool) {
    if s.value.len() >= MAX_INPUT_CHARS {
        (s, false)
    } else {
        (s.edited(s.value.take(s.cursor as int).push(c) + s.value.skip(s.cursor as int), s.cursor + 1), true)
    }
}

/// The state after one event, and whether the field consumed it.
pub open spec fn input_step(s: InputView, ev: UiInputEvent) -> (InputView, bool) {
    let v = s.value;
    let c = s.cursor;
    match ev {
        UiInputEvent::ScrollLines(_) => (s, false),
        UiInputEvent::Key(k) => match k {
            UiKeyInput::Left => (s.at(if c > 0 { (c - 1) as nat } else { 0 }, None), true),
            UiKeyInput::Right => (s.at(min_nat(c + 1, v.len()), None), true),
            UiKeyInput::WordLeft => (s.at(prev_word(v, c), s.preferred), true),
            UiKeyInput::WordRight => (s.at(next_word(v, c), s.preferred), true),
            UiKeyInput::Home => (s.at(0, None), true),
            UiKeyInput::End => (s.at(v.len(), None), true),
            UiKeyInput::Up => (match s.wrap {
                Some(w) => visual_vertical(s, false, w),
                None => logical_vertical(s, false),
            }, true),
            UiKeyInput::Down => (match s.wrap {
                Some(w) => visual_vertical(s, true, w),
                None => logical_vertical(s, true),
            }, true),
            UiKeyInput::BackspaceWord => if c == 0 {
                (s, false)
            } else {
                let st = prev_word(v, c);
                (s.edited(v.take(st as int) + v.skip(c as int), st), true)
            },
            UiKeyInput::Backspace => if c == 0 {
                (s, false)
            } else {
                (s.edited(v.take(c as int - 1) + v.skip(c as int), (c - 1) as nat), true)
            },
            UiKeyInput::Delete => if c >= v.len() {
                (s, false)
            } else {
                (s.edited(v.take(c as int) + v.skip(c as int + 1), c), true)
            },
            UiKeyInput::Char(ch) => inserted(s, ch),
            UiKeyInput::Enter => inserted(s, '\n'),
            _ => (s, false),
        },
    }
}

fn str_len(s: &String) -> (n: usize)
    ensures
        n as nat == s@.len(),
{
    s.as_str().unicode_len()
}

impl TextInputState {
    pub open spec fn wf(&self) -> bool {
        self@.wf()
    }

    /// A field holding `value`, the cursor at its end.
    pub fn new(value: &str) -> (s: TextInputState)
        requires
            value@.len() <= MAX_INPUT_CHARS,
        ensures
            s.wf(),
            s@ == (InputView { value: value@, cursor: value@.len(), preferred: None, wrap: None }),
    {
        let value = value.to_owned();
        let cursor = str_len(&value);
        TextInputState { value, cursor, preferred_column: None, soft_wrap_width: None }
    }

    pub fn value(&self) -> (r: &str)
        ensures
            r@ == self@.value,
    {
        self.value.as_str()
    }

    pub fn cursor(&self) -> (r: usize)
        ensures
            r as nat == self@.cursor,
    {
        self.cursor
    }

    /// Replaces the value; the cursor is held within it.
    pub fn set_value(&mut self, value: &str)
        requires
            value@.len() <= MAX_INPUT_CHARS,
        ensures
            final(self).wf(),
            final(self)@ == (InputView { value: value@, cursor: min_nat(old(self)@.cursor, value@.len()), preferred: None, wrap: old(self)@.wrap }),
    {
        self.value = value.to_owned();
        let n = str_len(&self.value);
        if self.cursor > n {
            self.cursor = n;
        }
        self.preferred_column = None;
    }

    pub fn set_cursor(&mut self, cursor: usize)
        requires
            old(self).wf(),
        ensures
            final(self).wf(),
            final(self)@ == old(self)@.at(min_nat(cursor as nat, old(self)@.value.len()), None),
    {
        let n = str_len(&self.value);
        self.cursor = if cursor <= n { cursor } else { n };
        self.preferred_column = None;
    }

    /// The width vertical moves wrap at, at least 1; `None` moves by lines.
    pub fn set_soft_wrap_width(&mut self, width: Option<usize>)
        requires
            old(self).wf(),
        ensures
            final(self).wf(),
            final(self)@ == (InputView {
                wrap: match width {
                    Some(w) => Some(if w >= 1 { w } else { 1 }),
                    None => None,
                },
                ..old(self)@
            }),
    {
        self.soft_wrap_width = match width {
            Some(w) => Some(if w >= 1 { w } else { 1 }),
            None => None,
        };
    }

    fn replace_value(&mut self, cs: &Vec<char>, a: usize, b: usize, ins: Option<char>)
        requires
            a <= b <= cs@.len(),
        ensures
            final(self)@.value == match ins {
                Some(c) => cs@.take(a as int).push(c) + cs@.skip(b as int),
                None => cs@.take(a as int) + cs@.skip(b as int),
            },
            final(self)@.cursor == old(self)@.cursor,
            final(self)@.preferred == old(self)@.preferred,
            final(self)@.wrap == old(self)@.wrap,
    {
        let mut out = String::new();
        push_chars(&mut out, cs, 0, a);
        if let Some(c) = ins {
            push_char(&mut out, c);
        }
        push_chars(&mut out, cs, b, cs.len());
        assert(cs@.subrange(0, a as int) =~= cs@.take(a as int));
        assert(cs@.subrange(b as int, cs@.len() as int) =~= cs@.skip(b as int));
        assert(Seq::<char>::empty() + cs@.take(a as int) =~= cs@.take(a as int));
        self.value = out;
    }

    fn move_vertical(&mut self, cs: &Vec<char>, down: bool)
        requires
            old(self).wf(),
            cs@ == old(self)@.value,
        ensures
            final(self).wf(),
            final(self)@ == logical_vertical(old(self)@, down),
    {
        let (line, col) = line_col_for_cursor(cs, self.cursor);
        let total = count_lines(cs);
        if !down && line == 0 {
            self.cursor = 0;
            self.preferred_column = None;
            return;
        }
        if down && line + 1 >= total {
            self.cursor = cs.len();
            self.preferred_column = None;
            return;
        }
        let target = if down { line + 1 } else { line - 1 };
        let preferred = match self.preferred_column {
            Some(p) => p,
            None => col,
        };
        self.cursor = cursor_for_line_col(cs, target, preferred);
        self.preferred_column = Some(preferred);
    }

    fn move_visual_vertical(&mut self, cs: &Vec<char>, down: bool, wrap_width: usize)
        requires
            old(self).wf(),
            cs@ == old(self)@.value,
        ensures
            final(self).wf(),
            final(self)@ == visual_vertical(old(self)@, down, wrap_width),
    {
        let (row, col) = visual_row_col_for_cursor(cs, self.cursor, wrap_width);
        let total = total_visual_rows(cs, wrap_width);
        if !down && row == 0 {
            self.cursor = 0;
            self.preferred_column = None;
            return;
        }
        if down && row >= total - 1 {
            self.cursor = cs.len();
            self.preferred_column = None;
            return;
        }
        let target = if down { row + 1 } else { row - 1 };
        let preferred = match self.preferred_column {
            Some(p) => p,
            None => col,
        };
        self.cursor = cursor_for_visual_row_col(cs, wrap_width, target, preferred);
        self.preferred_column = Some(preferred);
    }

    /// Applies one editing event; returns whether the field consumed it.
    pub fn handle_input(&mut self, event: UiInputEvent) -> (consumed: bool)
        requires
            old(self).wf(),
        ensures
            final(self).wf(),
            (final(self)@, consumed) == input_step(old(self)@, event),
    {
        let key = match event {
            UiInputEvent::Key(k) => k,
            UiInputEvent::ScrollLines(_) => return false,
        };
        let cs = chars_of(self.value.as_str());
        let n = cs.len();
        match key {
            UiKeyInput::Left => {
                self.cursor = if self.cursor > 0 { self.cursor - 1 } else { 0 };
                self.preferred_column = None;
                true
            },
            UiKeyInput::Right => {
                self.cursor = if self.cursor + 1 <= n { self.cursor + 1 } else { n };
                self.preferred_column = None;
                true
            },
            UiKeyInput::WordLeft => {
                self.cursor = prev_word_boundary(&cs, self.cursor);
                true
            },
            UiKeyInput::WordRight => {
                self.cursor = next_word_boundary(&cs, self.cursor);
                true
            },
            UiKeyInput::Home => {
                self.cursor = 0;
                self.preferred_column = None;
                true
            },
            UiKeyInput::End => {
                self.cursor = n;
                self.preferred_column = None;
                true
            },
            UiKeyInput::Up => {
                match self.soft_wrap_width {
                    Some(w) => self.move_visual_vertical(&cs, false, w),
                    None => self.move_vertical(&cs, false),
                }
                true
            },
            UiKeyInput::Down => {
                match self.soft_wrap_width {
                    Some(w) => self.move_visual_vertical(&cs, true, w),
                    None => self.move_vertical(&cs, true),
                }
                true
            },
            UiKeyInput::BackspaceWord => {
                if self.cursor == 0 {
                    return false;
                }
                let start = prev_word_boundary(&cs, self.cursor);
                self.replace_value(&cs, start, self.cursor, None);
                self.cursor = start;
                self.preferred_column = None;
                true
            },
            UiKeyInput::Backspace => {
                if self.cursor == 0 {
                    return false;
                }
                self.replace_value(&cs, self.cursor - 1, self.cursor, None);
                self.cursor = self.cursor - 1;
                self.preferred_column = None;
                true
            },
            UiKeyInput::Delete => {
                if self.cursor >= n {
                    return false;
                }
                self.replace_value(&cs, self.cursor, self.cursor + 1, None);
                self.preferred_column = None;
                true
            },
            UiKeyInput::Char(ch) => self.insert(&cs, ch),
            UiKeyInput::Enter => self.insert(&cs, '\n'),
            _ => false,
        }
    }

    fn insert(&mut self, cs: &Vec<char>, ch: char) -> (consumed: bool)
        requires
            old(self).wf(),
            cs@ == old(self)@.value,
        ensures
            final(self).wf(),
            (final(self)@, consumed) == inserted(old(self)@, ch),
    {
        if cs.len() >= MAX_INPUT_CHARS {
            return false;
        }
        self.replace_value(cs, self.cursor, self.cursor, Some(ch));
        self.cursor = self.cursor + 1;
        self.preferred_column = None;
        true
    }
}

} // verus!
