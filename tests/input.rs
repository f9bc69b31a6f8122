use termgrid::focus::{FocusId, UiInputEvent, UiKeyInput};
use termgrid::node::TextInput;
use termgrid::text_input::TextInputState;
use termgrid::widgets::{text_input, text_input_from_state};

fn key(k: UiKeyInput) -> UiInputEvent {
    UiInputEvent::Key(k)
}

#[test]
fn typing_and_deleting() {
    let mut s = TextInputState::new("ab");
    assert_eq!(s.cursor(), 2);
    assert!(s.handle_input(key(UiKeyInput::Char('c'))));
    assert_eq!(s.value(), "abc");
    assert!(s.handle_input(key(UiKeyInput::Left)));
    assert!(s.handle_input(key(UiKeyInput::Backspace)));
    assert_eq!(s.value(), "ac");
    assert_eq!(s.cursor(), 1);
    assert!(s.handle_input(key(UiKeyInput::Delete)));
    assert_eq!(s.value(), "a");
    assert!(!s.handle_input(key(UiKeyInput::Delete)));
    assert!(s.handle_input(key(UiKeyInput::Home)));
    assert!(!s.handle_input(key(UiKeyInput::Backspace)));
    assert!(!s.handle_input(UiInputEvent::ScrollLines(1)));
}

#[test]
fn word_moves_and_word_delete() {
    let mut s = TextInputState::new("foo bar  baz");
    assert!(s.handle_input(key(UiKeyInput::WordLeft)));
    assert_eq!(s.cursor(), 9);
    assert!(s.handle_input(key(UiKeyInput::WordLeft)));
    assert_eq!(s.cursor(), 4);
    assert!(s.handle_input(key(UiKeyInput::WordRight)));
    assert_eq!(s.cursor(), 7);
    s.set_cursor(100);
    assert_eq!(s.cursor(), 12);
    assert!(s.handle_input(key(UiKeyInput::BackspaceWord)));
    assert_eq!(s.value(), "foo bar  ");
}

#[test]
fn vertical_moves_keep_column() {
    let mut s = TextInputState::new("abcd\nx\nefgh");
    s.set_cursor(3);
    assert!(s.handle_input(key(UiKeyInput::Down)));
    assert_eq!(s.cursor(), 6);
    assert!(s.handle_input(key(UiKeyInput::Down)));
    assert_eq!(s.cursor(), 10);
    assert!(s.handle_input(key(UiKeyInput::Down)));
    assert_eq!(s.cursor(), 11);
    assert!(s.handle_input(key(UiKeyInput::Up)));
    assert!(s.handle_input(key(UiKeyInput::Enter)));
    assert!(s.value().contains('\n'));
}

#[test]
fn visual_moves_follow_wrap() {
    let mut s = TextInputState::new("abcdefgh");
    s.set_soft_wrap_width(Some(4));
    s.set_cursor(6);
    assert!(s.handle_input(key(UiKeyInput::Up)));
    assert_eq!(s.cursor(), 2);
    assert!(s.handle_input(key(UiKeyInput::Up)));
    assert_eq!(s.cursor(), 0);
    s.set_value("xy");
    assert_eq!(s.cursor(), 0);
    assert_eq!(s.value(), "xy");
}

fn runs_text(t: &TextInput, w: usize) -> String {
    t.to_wrapped_rich_text(w).runs.iter().map(|r| r.text.as_str()).collect()
}

fn input(value: &str) -> TextInput {
    TextInput {
        focus_id: Some(FocusId(1)),
        value: value.to_string(),
        placeholder: Some("type".to_string()),
        cursor: 0,
        focused: false,
        gutter_highlighted: false,
        visible_offset_lines: 0,
    }
}

#[test]
fn wrapped_rendering_numbers_lines() {
    let t = input("abcdef\nxy");
    assert_eq!(runs_text(&t, 7), "1 | abc\n  | def\n2 | xy");
    let g: String = t.to_wrapped_gutter_rich_text(5).runs.iter().map(|r| r.text.as_str()).collect();
    assert_eq!(g, "1\n \n2");
    let p: String = t.to_wrapped_gutter_with_pipe_rich_text(7).runs.iter().map(|r| r.text.as_str()).collect();
    assert_eq!(p, "1 | \n  | \n2 | ");
    let c: String = t.to_wrapped_content_rich_text(5).runs.iter().map(|r| r.text.as_str()).collect();
    assert_eq!(c, "abc\ndef\nxy");
}

#[test]
fn empty_unfocused_input_shows_placeholder() {
    let t = input("");
    assert_eq!(runs_text(&t, 20), "1 | type");
    let r = t.to_wrapped_rich_text(20);
    assert!(r.runs.last().unwrap().style.italic);
}

#[test]
fn focused_cursor_line_is_marked() {
    let mut t = input("ab\ncd");
    t.focused = true;
    t.gutter_highlighted = true;
    t.cursor = 4;
    let r = t.to_wrapped_rich_text(20);
    let text: String = r.runs.iter().map(|r| r.text.as_str()).collect();
    assert_eq!(text, "1 | ab\n2 > cd");
    let anchored: Vec<&str> = r.runs.iter().filter(|x| x.style.cursor_anchor).map(|x| x.text.as_str()).collect();
    assert_eq!(anchored, vec!["d"]);
}

#[test]
fn widget_builders_fill_fields() {
    let s = TextInputState::new("hey");
    let n = text_input_from_state(&s).focused(true).focus(FocusId(5)).placeholder("p").visible_offset_lines(2).build();
    match n {
        termgrid::node::Node::TextInput(t) => {
            assert_eq!(t.value, "hey");
            assert_eq!(t.cursor, 3);
            assert!(t.focused);
            assert_eq!(t.focus_id, Some(FocusId(5)));
            assert_eq!(t.visible_offset_lines, 2);
        }
        _ => panic!("expected a text input"),
    }
    let n2 = text_input("q").cursor(0).build();
    assert!(matches!(n2, termgrid::node::Node::TextInput(_)));
}
