use termgrid::color::rgb;
use termgrid::frame::CellStyle;
use termgrid::present::{CursorBlink, StyleCommand, StyleEmitter};

#[test]
fn emitter_sends_only_changes() {
    let mut e = StyleEmitter::new();
    assert!(e.apply(CellStyle::plain()).is_empty());
    let mut s = CellStyle::plain();
    s.fg = Some(rgb(0x010203));
    s.bold = true;
    assert_eq!(e.apply(s), vec![StyleCommand::Foreground(Some(rgb(0x010203))), StyleCommand::ResetAttributes, StyleCommand::Bold]);
    assert!(e.apply(s).is_empty());
    let mut t = s;
    t.bg = Some(rgb(0xffffff));
    assert_eq!(e.apply(t), vec![StyleCommand::Background(Some(rgb(0xffffff)))]);
    assert_eq!(e.reset(), vec![StyleCommand::ResetAll]);
    assert!(e.reset().is_empty());
}

#[test]
fn cursor_blinks_only_when_focused_with_anchor() {
    let mut c = CursorBlink::new(0);
    assert_eq!(c.frame(Some((3, 1)), 100), Some((3, 1)));
    assert_eq!(c.frame(Some((3, 1)), 700), None);
    c.note_input_activity(710);
    assert_eq!(c.frame(Some((3, 1)), 720), Some((3, 1)));
    assert_eq!(c.frame(None, 800), None);
    c.set_terminal_focus(false, 900);
    assert_eq!(c.frame(Some((3, 1)), 2000), None);
}
