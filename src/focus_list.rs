use vstd::prelude::*;
use crate::focus::{FocusId, UiInputEvent, UiKeyInput};
use crate::focus_state::{FocusState, FocusView};

verus! {

/// A vertical list of items of given heights shown through a viewport, with
/// one focused item kept in view.
#[derive(Clone, Debug)]
pub struct FocusListState {
    item_heights: Vec<u16>,
    viewport_lines: u16,
    gap_lines: u16,
    focused_index: u16,
    scroll_offset: u16,
}

pub struct ListView {
    pub heights: Seq<u16>,
    pub viewport: u16,
    pub gap: u16,
    pub focused: u16,
    pub scroll: u16,
}

impl View for FocusListState {
    type V = ListView;

    closed spec fn view(&self) -> ListView {
        ListView {
            heights: self.item_heights@,
            viewport: self.viewport_lines,
            gap: self.gap_lines,
            focused: self.focused_index,
            scroll: self.scroll_offset,
        }
    }
}

pub open spec fn sat16(v: int) -> u16 {
    if v > u16::MAX {
        u16::MAX
    } else if v < 0 {
        0
    } else {
        v as u16
    }
}

impl ListView {
    pub open spec fn wf(self) -> bool {
        self.heights.len() <= u16::MAX && self.viewport >= 1
    }

    pub open spec fn count(self) -> u16 {
        self.heights.len() as u16
    }

    /// Lines of the first n items with the gaps between items.
    pub open spec fn content_upto(self, n: int) -> u16
        decreases n,
    {
        if n <= 0 || n > self.heights.len() {
            0
        } else {
            let l = sat16(self.content_upto(n - 1) + self.heights[n - 1]);
            if n < self.heights.len() { sat16(l + self.gap) } else { l }
        }
    }

    pub open spec fn content(self) -> u16 {
        self.content_upto(self.heights.len() as int)
    }

    pub open spec fn max_scroll(self) -> u16 {
        sat16(self.content() - self.viewport)
    }

    /// An item's height, at least 1; 1 for an index past the end.
    pub open spec fn height_of(self, i: int) -> u16 {
        if 0 <= i < self.heights.len() && self.heights[i] >= 1 {
            self.heights[i]
        } else {
            1
        }
    }

    /// The first line of item i: the heights and gaps of the items above.
    pub open spec fn top_of(self, i: int) -> u16
        decreases i,
    {
        if i <= 0 {
            0
        } else {
            sat16(sat16(self.top_of(i - 1) + self.height_of(i - 1)) + self.gap)
        }
    }

    pub open spec fn top_line(self, i: u16) -> u16 {
        self.top_of(if i <= self.count() { i as int } else { self.count() as int })
    }

    /// The scroll offset that brings the focused item into view, moving as
    /// little as possible, within the scrollable range.
    pub open spec fn visible_scroll(self) -> u16 {
        let top = self.top_line(self.focused);
        let h = self.height_of(self.focused as int);
        let bottom = sat16(top + h);
        let s = if top < self.scroll {
            top
        } else if bottom > sat16(self.scroll + self.viewport) {
            if h >= self.viewport { top } else { sat16(bottom - self.viewport) }
        } else {
            self.scroll
        };
        if s <= self.max_scroll() { s } else { self.max_scroll() }
    }

    pub open spec fn made_visible(self) -> ListView {
        ListView { scroll: self.visible_scroll(), ..self }
    }

    pub open spec fn last_index(self) -> u16 {
        sat16(self.count() - 1)
    }

    pub open spec fn focus_at(self, i: u16) -> ListView {
        ListView { focused: if i <= self.last_index() { i } else { self.last_index() }, ..self }.made_visible()
    }
}

impl FocusListState {
    pub open spec fn wf(&self) -> bool {
        self@.wf()
    }

    pub fn new(item_heights: Vec<u16>, viewport_lines: u16, gap_lines: u16) -> (s: FocusListState)
        requires
            item_heights@.len() <= u16::MAX,
        ensures
            s.wf(),
            s@ == (ListView {
                heights: item_heights@,
                viewport: if viewport_lines >= 1 { viewport_lines } else { 1 },
                gap: gap_lines,
                focused: 0,
                scroll: 0,
            }),
    {
        FocusListState {
            item_heights,
            viewport_lines: if viewport_lines >= 1 { viewport_lines } else { 1 },
            gap_lines,
            focused_index: 0,
            scroll_offset: 0,
        }
    }

    pub fn focused_index(&self) -> (r: u16)
        ensures
            r == self@.focused,
    {
        self.focused_index
    }

    pub fn scroll_offset(&self) -> (r: u16)
        ensures
            r == self@.scroll,
    {
        self.scroll_offset
    }

    pub fn viewport_lines(&self) -> (r: u16)
        ensures
            r == self@.viewport,
    {
        self.viewport_lines
    }

    pub fn item_count(&self) -> (r: u16)
        requires
            self.wf(),
        ensures
            r == self@.count(),
            r as nat == self@.heights.len(),
    {
        self.item_heights.len() as u16
    }

    pub fn set_viewport_lines(&mut self, viewport_lines: u16)
        requires
            old(self).wf(),
        ensures
            final(self).wf(),
            final(self)@ == (ListView { viewport: if viewport_lines >= 1 { viewport_lines } else { 1 }, ..old(self)@ }).made_visible(),
    {
        self.viewport_lines = if viewport_lines >= 1 { viewport_lines } else { 1 };
        self.ensure_focused_visible();
    }

    /// Replaces the items; focus stays where it can, and is kept in view.
    pub fn set_item_heights(&mut self, item_heights: Vec<u16>)
        requires
            old(self).wf(),
            item_heights@.len() <= u16::MAX,
        ensures
            final(self).wf(),
            final(self)@ == if item_heights@.len() == 0 {
                ListView { heights: item_heights@, focused: 0, scroll: 0, ..old(self)@ }
            } else {
                let v = ListView { heights: item_heights@, ..old(self)@ };
                ListView { focused: if v.focused <= v.last_index() { v.focused } else { v.last_index() }, ..v }.made_visible()
            },
    {
        self.item_heights = item_heights;
        if self.item_heights.len() == 0 {
            self.focused_index = 0;
            self.scroll_offset = 0;
            return;
        }
        let last = self.item_count() - 1;
        if self.focused_index > last {
            self.focused_index = last;
        }
        self.ensure_focused_visible();
    }

    /// Lines of all items with the gaps between them.
    pub fn content_lines(&self) -> (r: u16)
        requires
            self.wf(),
        ensures
            r == self@.content(),
    {
        let mut lines: u16 = 0;
        let mut i: usize = 0;
        while i < self.item_heights.len()
            invariant
                i <= self@.heights.len(),
                self@.heights == self.item_heights@,
                lines == self@.content_upto(i as int),
            decreases self@.heights.len() - i,
        {
            lines = lines.saturating_add(self.item_heights[i]);
            if i + 1 < self.item_heights.len() {
                lines = lines.saturating_add(self.gap_lines);
            }
            i = i + 1;
        }
        lines
    }

    pub fn max_scroll_offset(&self) -> (r: u16)
        requires
            self.wf(),
        ensures
            r == self@.max_scroll(),
    {
        self.content_lines().saturating_sub(self.viewport_lines)
    }

    pub fn item_height(&self, index: u16) -> (r: u16)
        ensures
            r == self@.height_of(index as int),
    {
        if (index as usize) < self.item_heights.len() && self.item_heights[index as usize] >= 1 {
            self.item_heights[index as usize]
        } else {
            1
        }
    }

    pub fn item_top_line(&self, index: u16) -> (r: u16)
        requires
            self.wf(),
        ensures
            r == self@.top_line(index),
    {
        let count = self.item_count();
        let end = if index <= count { index } else { count };
        let mut top: u16 = 0;
        let mut i: u16 = 0;
        while i < end
            invariant
                i <= end,
                top == self@.top_of(i as int),
            decreases end - i,
        {
            top = top.saturating_add(self.item_height(i)).saturating_add(self.gap_lines);
            i = i + 1;
        }
        top
    }

    pub fn set_focused_index(&mut self, index: u16)
        requires
            old(self).wf(),
        ensures
            final(self).wf(),
            final(self)@ == old(self)@.focus_at(index),
    {
        let last = self.item_count().saturating_sub(1);
        self.focused_index = if index <= last { index } else { last };
        self.ensure_focused_visible();
    }

    /// Moves focus by `delta` items, held within the list.
    pub fn move_focus_by(&mut self, delta: i16)
        requires
            old(self).wf(),
        ensures
            final(self).wf(),
            final(self)@ == old(self)@.focus_at(sat16(old(self)@.focused + delta)),
    {
        let next: i32 = self.focused_index as i32 + delta as i32;
        let clamped: u16 = if next < 0 { 0 } else if next > u16::MAX as i32 { u16::MAX } else { next as u16 };
        self.set_focused_index(clamped);
    }

    /// Scrolls as little as needed to show the focused item.
    pub fn ensure_focused_visible(&mut self)
        requires
            old(self).wf(),
        ensures
            final(self).wf(),
            final(self)@ == old(self)@.made_visible(),
    {
        let max = self.max_scroll_offset();
        let top = self.item_top_line(self.focused_index);
        let height = self.item_height(self.focused_index);
        let bottom = top.saturating_add(height);
        if top < self.scroll_offset {
            self.scroll_offset = top;
        } else {
            let viewport_end = self.scroll_offset.saturating_add(self.viewport_lines);
            if bottom > viewport_end {
                if height >= self.viewport_lines {
                    self.scroll_offset = top;
                } else {
                    self.scroll_offset = bottom.saturating_sub(self.viewport_lines);
                }
            }
        }
        if self.scroll_offset > max {
            self.scroll_offset = max;
        }
    }
}

/// Ties a list's items to a run of focus ids starting at `first_focus_id`.
#[derive(Clone, Copy, Debug)]
pub struct FocusListBinding {
    first_focus_id: u64,
}

impl FocusListBinding {
    pub closed spec fn first(&self) -> u64 {
        self.first_focus_id
    }

    pub open spec fn wf(&self) -> bool {
        self.first() <= u64::MAX - u16::MAX
    }

    pub fn new(first_focus_id: u64) -> (b: FocusListBinding)
        requires
            first_focus_id <= u64::MAX - u16::MAX,
        ensures
            b.wf(),
            b.first() == first_focus_id,
    {
        FocusListBinding { first_focus_id }
    }

    pub fn focus_id(&self, index: u16) -> (id: FocusId)
        requires
            self.wf(),
        ensures
            id == FocusId((self.first() + index) as u64),
    {
        FocusId(self.first_focus_id + index as u64)
    }

    /// The item whose id is focused, if any.
    pub fn focused_index(&self, focus: &FocusState, item_count: u16) -> (r: Option<u16>)
        requires
            self.wf(),
        ensures
            r == match focus@.focused {
                Some(id) => if self.first() <= id.0 < self.first() + item_count {
                    Some((id.0 - self.first()) as u16)
                } else {
                    None
                },
                None => None,
            },
    {
        let id = match focus.focused() {
            Some(f) => f.0,
            None => return None,
        };
        let end = self.first_focus_id + item_count as u64;
        if self.first_focus_id <= id && id < end {
            Some((id - self.first_focus_id) as u16)
        } else {
            None
        }
    }

    pub fn sync_list_from_focus(&self, focus: &FocusState, list: &mut FocusListState)
        requires
            self.wf(),
            old(list).wf(),
        ensures
            final(list).wf(),
            final(list)@ == match focus@.focused {
                Some(id) => if self.first() <= id.0 < self.first() + old(list)@.count() {
                    old(list)@.focus_at((id.0 - self.first()) as u16)
                } else {
                    old(list)@
                },
                None => old(list)@,
            },
    {
        let count = list.item_count();
        if let Some(index) = self.focused_index(focus, count) {
            list.set_focused_index(index);
        }
    }

    /// Arrow, paging, home/end and scroll events move the focused item while
    /// one of the list's ids is focused; focus follows the item.
    pub fn handle_input(&self, focus: &mut FocusState, list: &mut FocusListState, event: UiInputEvent) -> (handled: bool)
        requires
            self.wf(),
            old(list).wf(),
        ensures
            final(list).wf(),
            !handled ==> final(focus)@ == old(focus)@,
            handled ==> final(focus)@ == (FocusView {
                focused: Some(FocusId((self.first() + final(list)@.focused) as u64)),
                path: None,
                ..old(focus)@
            }),
            handled == (list_item(*self, old(focus)@, old(list)@) is Some && list_moves(event)),
            handled ==> final(list)@ == list_after(old(list)@.focus_at(list_item(*self, old(focus)@, old(list)@).unwrap()), event),
    {
        let index = match self.focused_index(focus, list.item_count()) {
            Some(i) => i,
            None => return false,
        };
        list.set_focused_index(index);
        let handled = match event {
            UiInputEvent::Key(UiKeyInput::Up) => {
                list.move_focus_by(-1);
                true
            },
            UiInputEvent::Key(UiKeyInput::Down) => {
                list.move_focus_by(1);
                true
            },
            UiInputEvent::Key(UiKeyInput::PageUp) => {
                let v = list.viewport_lines();
                let d: i16 = if v > i16::MAX as u16 { -i16::MAX } else { -(v as i16) };
                list.move_focus_by(d);
                true
            },
            UiInputEvent::Key(UiKeyInput::PageDown) => {
                let v = list.viewport_lines();
                let d: i16 = if v > i16::MAX as u16 { i16::MAX } else { v as i16 };
                list.move_focus_by(d);
                true
            },
            UiInputEvent::Key(UiKeyInput::Home) => {
                list.set_focused_index(0);
                true
            },
            UiInputEvent::Key(UiKeyInput::End) => {
                let last = list.item_count().saturating_sub(1);
                list.set_focused_index(last);
                true
            },
            UiInputEvent::Key(UiKeyInput::Tab) | UiInputEvent::Key(UiKeyInput::BackTab) => {
                list.ensure_focused_visible();
                true
            },
            UiInputEvent::ScrollLines(lines) => {
                if lines < 0 {
                    let d: i16 = if lines == i16::MIN { -i16::MAX } else { lines };
                    list.move_focus_by(d);
                    true
                } else if lines > 0 {
                    list.move_focus_by(lines);
                    true
                } else {
                    false
                }
            },
            _ => false,
        };
        if handled {
            let id = self.focus_id(list.focused_index());
            focus.set_focused(id);
        }
        handled
    }
}

/// The list item whose id is focused.
pub open spec fn list_item(b: FocusListBinding, f: FocusView, l: ListView) -> Option<u16> {
    match f.focused {
        Some(id) => if b.first() <= id.0 < b.first() + l.count() {
            Some((id.0 - b.first()) as u16)
        } else {
            None
        },
        None => None,
    }
}

/// The events that a focused list consumes.
pub open spec fn list_moves(e: UiInputEvent) -> bool {
    match e {
        UiInputEvent::Key(k) => k == UiKeyInput::Up || k == UiKeyInput::Down || k == UiKeyInput::PageUp
            || k == UiKeyInput::PageDown || k == UiKeyInput::Home || k == UiKeyInput::End || k == UiKeyInput::Tab
            || k == UiKeyInput::BackTab,
        UiInputEvent::ScrollLines(n) => n != 0,
    }
}

/// The list after a consumed event; a page moves by the viewport height.
pub open spec fn list_after(l: ListView, e: UiInputEvent) -> ListView {
    let page: int = if l.viewport > i16::MAX { i16::MAX as int } else { l.viewport as int };
    match e {
        UiInputEvent::Key(UiKeyInput::Up) => l.focus_at(sat16(l.focused - 1)),
        UiInputEvent::Key(UiKeyInput::Down) => l.focus_at(sat16(l.focused + 1)),
        UiInputEvent::Key(UiKeyInput::PageUp) => l.focus_at(sat16(l.focused - page)),
        UiInputEvent::Key(UiKeyInput::PageDown) => l.focus_at(sat16(l.focused + page)),
        UiInputEvent::Key(UiKeyInput::Home) => l.focus_at(0),
        UiInputEvent::Key(UiKeyInput::End) => l.focus_at(l.last_index()),
        UiInputEvent::ScrollLines(n) => l.focus_at(sat16(l.focused + (if n == i16::MIN { -(i16::MAX as int) } else { n as int }))),
        _ => l.made_visible(),
    }
}

} // verus!
