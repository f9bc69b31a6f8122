use termgrid::focus::{FocusId, UiInputEvent, UiKeyInput};
use termgrid::focus_list::{FocusListBinding, FocusListState};
use termgrid::focus_state::FocusState;

#[test]
fn content_and_tops_include_gaps() {
    let l = FocusListState::new(vec![2, 0, 3], 4, 1);
    assert_eq!(l.content_lines(), 7);
    assert_eq!(l.item_height(1), 1);
    assert_eq!(l.item_height(9), 1);
    assert_eq!(l.item_top_line(2), 5);
    assert_eq!(l.max_scroll_offset(), 3);
    assert_eq!(l.item_count(), 3);
}

#[test]
fn focus_moves_keep_item_visible() {
    let mut l = FocusListState::new(vec![2, 2, 2, 2], 3, 0);
    l.set_focused_index(3);
    assert_eq!(l.focused_index(), 3);
    assert_eq!(l.scroll_offset(), 5);
    l.move_focus_by(-10);
    assert_eq!(l.focused_index(), 0);
    assert_eq!(l.scroll_offset(), 0);
    l.set_focused_index(99);
    assert_eq!(l.focused_index(), 3);
    l.set_item_heights(vec![1]);
    assert_eq!(l.focused_index(), 0);
    l.set_viewport_lines(0);
    assert_eq!(l.viewport_lines(), 1);
}

#[test]
fn binding_routes_list_keys() {
    let b = FocusListBinding::new(100);
    let mut f = FocusState::new();
    let mut l = FocusListState::new(vec![1, 1, 1, 1, 1], 2, 0);
    f.set_focused(b.focus_id(1));
    assert_eq!(b.focused_index(&f, 5), Some(1));
    assert!(b.handle_input(&mut f, &mut l, UiInputEvent::Key(UiKeyInput::Down)));
    assert_eq!(f.focused(), Some(FocusId(102)));
    assert!(b.handle_input(&mut f, &mut l, UiInputEvent::Key(UiKeyInput::End)));
    assert_eq!(l.focused_index(), 4);
    assert!(b.handle_input(&mut f, &mut l, UiInputEvent::ScrollLines(-3)));
    assert_eq!(l.focused_index(), 1);
    assert!(!b.handle_input(&mut f, &mut l, UiInputEvent::Key(UiKeyInput::Enter)));
    f.set_focused(FocusId(7));
    assert!(!b.handle_input(&mut f, &mut l, UiInputEvent::Key(UiKeyInput::Down)));
    f.set_focused(FocusId(103));
    b.sync_list_from_focus(&f, &mut l);
    assert_eq!(l.focused_index(), 3);
}
