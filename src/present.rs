use vstd::prelude::*;
use crate::color::Rgba;
use crate::frame::{plain_style, CellStyle};

verus! {

/// One terminal style change.
#[derive(Clone, Copy, Debug, PartialEq, Eq, Structural)]
pub enum StyleCommand {
    /// Set the foreground color, or restore the terminal's own.
    Foreground(Option<Rgba>),
    /// Set the background color, or restore the terminal's own.
    Background(Option<Rgba>),
    /// Clear bold, italic, underline and strikethrough.
    ResetAttributes,
    Bold,
    Italic,
    Underline,
    CrossedOut,
    /// Clear every attribute and color.
    ResetAll,
}

/// Tracks the style the terminal has, so that only changes are sent.
pub struct StyleEmitter {
    current: CellStyle,
}

pub open spec fn attrs_differ(a: CellStyle, b: CellStyle) -> bool {
    a.bold != b.bold || a.italic != b.italic || a.underline != b.underline || a.strikethrough != b.strikethrough
}

/// The commands that take the terminal from style `cur` to `target`: each
/// color that differs, and where an attribute differs, a reset followed by
/// the target's attributes.
pub open spec fn style_commands(cur: CellStyle, target: CellStyle) -> Seq<StyleCommand> {
    if cur == target {
        Seq::empty()
    } else {
        let fg = if cur.fg != target.fg { seq![StyleCommand::Foreground(target.fg)] } else { Seq::empty() };
        let bg = if cur.bg != target.bg { seq![StyleCommand::Background(target.bg)] } else { Seq::empty() };
        let attrs = if attrs_differ(cur, target) { attr_seq(target) } else { Seq::empty() };
        fg + bg + attrs
    }
}

/// A reset followed by the attributes that `target` sets.
pub open spec fn attr_seq(target: CellStyle) -> Seq<StyleCommand> {
    seq![StyleCommand::ResetAttributes] + (if target.bold { seq![StyleCommand::Bold] } else { Seq::empty() }) + (
    if target.italic { seq![StyleCommand::Italic] } else { Seq::empty() }) + (if target.underline {
        seq![StyleCommand::Underline]
    } else {
        Seq::empty()
    }) + (if target.strikethrough { seq![StyleCommand::CrossedOut] } else { Seq::empty() })
}

fn push_attrs(cmds: &mut Vec<StyleCommand>, target: CellStyle)
    ensures
        final(cmds)@ == old(cmds)@ + attr_seq(target),
{
    let ghost c0 = cmds@;
    cmds.push(StyleCommand::ResetAttributes);
    let ghost c1 = cmds@;
    if target.bold {
        cmds.push(StyleCommand::Bold);
    }
    let ghost c2 = cmds@;
    assert(c2 =~= c1 + (if target.bold { seq![StyleCommand::Bold] } else { Seq::empty() }));
    if target.italic {
        cmds.push(StyleCommand::Italic);
    }
    let ghost c3 = cmds@;
    assert(c3 =~= c2 + (if target.italic { seq![StyleCommand::Italic] } else { Seq::empty() }));
    if target.underline {
        cmds.push(StyleCommand::Underline);
    }
    let ghost c4 = cmds@;
    assert(c4 =~= c3 + (if target.underline { seq![StyleCommand::Underline] } else { Seq::empty() }));
    if target.strikethrough {
        cmds.push(StyleCommand::CrossedOut);
    }
    assert(cmds@ =~= c4 + (if target.strikethrough { seq![StyleCommand::CrossedOut] } else { Seq::empty() }));
    assert(cmds@ =~= c0 + attr_seq(target));
}

impl StyleEmitter {
    pub closed spec fn current(&self) -> CellStyle {
        self.current
    }

    /// The terminal starts in the plain style.
    pub fn new() -> (e: StyleEmitter)
        ensures
            e.current() == plain_style(),
    {
        StyleEmitter { current: CellStyle::plain() }
    }

    /// The commands that switch to `target`, which becomes current.
    pub fn apply(&mut self, target: CellStyle) -> (cmds: Vec<StyleCommand>)
        ensures
            cmds@ == style_commands(old(self).current(), target),
            final(self).current() == target,
    {
        let mut cmds: Vec<StyleCommand> = Vec::new();
        let cur = self.current;
        if same(cur, target) {
            return cmds;
        }
        if cur.fg != target.fg {
            cmds.push(StyleCommand::Foreground(target.fg));
        }
        if cur.bg != target.bg {
            cmds.push(StyleCommand::Background(target.bg));
        }
        let ghost colors = cmds@;
        assert(colors =~= (if cur.fg != target.fg { seq![StyleCommand::Foreground(target.fg)] } else { Seq::empty() })
            + (if cur.bg != target.bg { seq![StyleCommand::Background(target.bg)] } else { Seq::empty() }));
        if cur.bold != target.bold || cur.italic != target.italic || cur.underline != target.underline
            || cur.strikethrough != target.strikethrough {
            push_attrs(&mut cmds, target);
        } else {
            assert(cmds@ =~= colors + Seq::<StyleCommand>::empty());
        }
        assert(cmds@ =~= style_commands(cur, target));
        self.current = target;
        cmds
    }

    /// At the end of a frame: a full reset where a style other than the
    /// plain one is left.
    pub fn reset(&mut self) -> (cmds: Vec<StyleCommand>)
        ensures
            final(self).current() == plain_style(),
            cmds@ == if old(self).current() == plain_style() { Seq::empty() } else { seq![StyleCommand::ResetAll] },
    {
        let mut cmds: Vec<StyleCommand> = Vec::new();
        let plain = CellStyle::plain();
        if !same(self.current, plain) {
            cmds.push(StyleCommand::ResetAll);
            assert(cmds@ =~= seq![StyleCommand::ResetAll]);
        }
        self.current = plain;
        cmds
    }
}

fn same(a: CellStyle, b: CellStyle) -> (r: bool)
    ensures
        r == (a == b),
{
    a == b
}

/// How long the cursor stays shown or hidden while it blinks, in ms.
pub const BLINK_MS: u64 = 570;

/// The blinking of the visual cursor.
#[derive(Clone, Copy, Debug)]
pub struct CursorBlink {
    pub visible: bool,
    pub blink_at_ms: u64,
    pub terminal_focused: bool,
}

pub open spec fn elapsed(now: u64, at: u64) -> int {
    if now >= at { now - at } else { 0 }
}

impl CursorBlink {
    pub fn new(now_ms: u64) -> (c: CursorBlink)
        ensures
            c == (CursorBlink { visible: true, blink_at_ms: now_ms, terminal_focused: true }),
    {
        CursorBlink { visible: true, blink_at_ms: now_ms, terminal_focused: true }
    }

    /// Decides for a frame with cursor position `anchor` at `now_ms` where the
    /// cursor is shown: only in a focused terminal, at the anchor, and
    /// while the blink phase is on; the phase flips each `BLINK_MS`.
    pub fn frame(&mut self, anchor: Option<(u16, u16)>, now_ms: u64) -> (shown: Option<(u16, u16)>)
        ensures
            old(self).terminal_focused == final(self).terminal_focused,
            old(self).terminal_focused && anchor is Some ==> {
                let due = elapsed(now_ms, old(self).blink_at_ms) >= BLINK_MS;
                &&& final(self).visible == (if due { !old(self).visible } else { old(self).visible })
                &&& final(self).blink_at_ms == (if due { now_ms } else { old(self).blink_at_ms })
                &&& shown == (if final(self).visible { anchor } else { None })
            },
            old(self).terminal_focused && anchor is None ==> final(self).visible && final(self).blink_at_ms == now_ms && shown is None,
            !old(self).terminal_focused ==> shown is None && {
                let due = elapsed(now_ms, old(self).blink_at_ms) >= BLINK_MS;
                &&& final(self).visible == (due || old(self).visible)
                &&& final(self).blink_at_ms == (if due { now_ms } else { old(self).blink_at_ms })
            },
    {
        let due = now_ms.saturating_sub(self.blink_at_ms) >= BLINK_MS;
        if self.terminal_focused {
            match anchor {
                Some(pos) => {
                    if due {
                        self.visible = !self.visible;
                        self.blink_at_ms = now_ms;
                    }
                    if self.visible {
                        Some(pos)
                    } else {
                        None
                    }
                },
                None => {
                    self.visible = true;
                    self.blink_at_ms = now_ms;
                    None
                },
            }
        } else {
            if due {
                self.visible = true;
                self.blink_at_ms = now_ms;
            }
            None
        }
    }

    /// Input shows the cursor and restarts the blink.
    pub fn note_input_activity(&mut self, now_ms: u64)
        ensures
            *final(self) == (CursorBlink { visible: true, blink_at_ms: now_ms, ..*old(self) }),
    {
        self.visible = true;
        self.blink_at_ms = now_ms;
    }

    /// Focus gained or lost shows the cursor and restarts the blink.
    pub fn set_terminal_focus(&mut self, focused: bool, now_ms: u64)
        ensures
            *final(self) == (CursorBlink { visible: true, blink_at_ms: now_ms, terminal_focused: focused }),
    {
        self.terminal_focused = focused;
        self.visible = true;
        self.blink_at_ms = now_ms;
    }
}

} // verus!
