use termgrid::focus::{FocusEntry, FocusId, FocusKind, FocusNavOutcome, FocusPath, UiInputEvent, UiKeyInput};
use termgrid::focus_state::FocusState;
use termgrid::node::Node;
use termgrid::widgets::{container, row, scroll_view, text, IntoNode};
use termgrid::widgets as w;

fn e(id: u64, path: &[usize], kind: FocusKind) -> FocusEntry {
    FocusEntry { id: FocusId(id), path: FocusPath(path.to_vec()), kind }
}

fn key(k: UiKeyInput) -> UiInputEvent {
    UiInputEvent::Key(k)
}

fn sample_tree() -> Node {
    w::column()
        .child(container(text("a")).focus(FocusId(1)))
        .child(
            scroll_view(row().child(container(text("b")).focus(FocusId(3))).child(container(text("c")).focus(FocusId(4))))
                .focus(FocusId(2)),
        )
        .into_node()
}

#[test]
fn entries_follow_depth_first_paths() {
    let mut out = Vec::new();
    sample_tree().collect_focus_entries(&mut out);
    let got: Vec<(u64, Vec<usize>, FocusKind)> = out.iter().map(|x| (x.id.0, x.path.0.clone(), x.kind)).collect();
    assert_eq!(
        got,
        vec![
            (1, vec![0], FocusKind::Generic),
            (2, vec![1], FocusKind::ScrollRegion),
            (3, vec![1, 0, 0], FocusKind::Generic),
            (4, vec![1, 0, 1], FocusKind::Generic),
        ]
    );
    let mut ids = Vec::new();
    sample_tree().collect_focus_ids(&mut ids);
    assert_eq!(ids, vec![FocusId(1), FocusId(2), FocusId(3), FocusId(4)]);
}

#[test]
fn reconcile_prefers_path_over_id() {
    let e1 = vec![e(10, &[0], FocusKind::Generic), e(11, &[1], FocusKind::Generic)];
    let mut f = FocusState::new();
    f.set_focused_entry(&e1[1]);
    let e2 = vec![e(20, &[0], FocusKind::Generic), e(21, &[1], FocusKind::Generic)];
    f.ensure_valid(&e2);
    assert_eq!(f.focused(), Some(FocusId(21)));
}

#[test]
fn reconcile_falls_back_to_id_then_first() {
    let mut f = FocusState::new();
    f.set_focused(FocusId(11));
    let e2 = vec![e(10, &[0], FocusKind::Generic), e(11, &[5], FocusKind::Generic)];
    f.ensure_valid(&e2);
    assert_eq!(f.focused(), Some(FocusId(11)));
    assert_eq!(f.focused_path().map(|p| p.0.clone()), Some(vec![5]));
    let e3 = vec![e(30, &[2], FocusKind::Generic)];
    f.ensure_valid(&e3);
    assert_eq!(f.focused(), Some(FocusId(30)));
    f.ensure_valid(&[]);
    assert_eq!(f.focused(), None);
}

#[test]
fn tab_cycles_back_to_start() {
    let es = vec![e(1, &[0], FocusKind::Generic), e(2, &[1], FocusKind::Generic), e(3, &[2], FocusKind::Generic)];
    let mut f = FocusState::new();
    f.set_focused_entry(&es[1]);
    for _ in 0..es.len() {
        f.focus_next(&es);
    }
    assert_eq!(f.focused(), Some(FocusId(2)));
    f.focus_prev(&es);
    assert_eq!(f.focused(), Some(FocusId(1)));
    f.focus_prev(&es);
    assert_eq!(f.focused(), Some(FocusId(3)));
}

#[test]
fn two_interrupts_in_window_request_quit() {
    let es = vec![e(1, &[0], FocusKind::Generic)];
    let mut f = FocusState::new();
    assert_eq!(f.handle_navigation(key(UiKeyInput::Interrupt), &es, 1000), FocusNavOutcome::Handled);
    assert!(f.quit_armed(1500));
    assert_eq!(f.handle_navigation(key(UiKeyInput::Interrupt), &es, 1500), FocusNavOutcome::RequestQuit);
}

#[test]
fn other_key_disarms_quit() {
    let es = vec![e(1, &[0], FocusKind::Generic)];
    let mut f = FocusState::new();
    f.handle_navigation(key(UiKeyInput::Interrupt), &es, 0);
    f.handle_navigation(key(UiKeyInput::Tab), &es, 10);
    assert_eq!(f.handle_navigation(key(UiKeyInput::Interrupt), &es, 20), FocusNavOutcome::Handled);
}

#[test]
fn quit_arm_expires() {
    let es = vec![e(1, &[0], FocusKind::Generic)];
    let mut f = FocusState::new();
    f.handle_navigation(key(UiKeyInput::Interrupt), &es, 0);
    assert!(!f.quit_armed(2000));
    assert_eq!(f.handle_navigation(key(UiKeyInput::Interrupt), &es, 2500), FocusNavOutcome::Handled);
    f.expire_quit_arm(9000);
    assert!(!f.quit_armed(9000));
}

fn tree_entries() -> Vec<FocusEntry> {
    let mut out = Vec::new();
    sample_tree().collect_focus_entries(&mut out);
    out
}

#[test]
fn siblings_and_peer_branches() {
    let es = tree_entries();
    let mut f = FocusState::new();
    f.set_focused_entry(&es[2]);
    assert!(f.focus_next_sibling(&es));
    assert_eq!(f.focused(), Some(FocusId(4)));
    assert!(f.focus_next_sibling(&es));
    assert_eq!(f.focused(), Some(FocusId(3)));
    f.set_focused_entry(&es[0]);
    assert!(f.focus_next_sibling(&es));
    assert_eq!(f.focused(), Some(FocusId(2)));
    f.set_focused_entry(&es[2]);
    assert!(f.focus_prev_peer_branch(&es));
    assert_eq!(f.focused(), Some(FocusId(1)));
    assert!(!f.focus_prev_peer_branch(&es));
    assert!(f.focus_next_peer_branch(&es));
    assert_eq!(f.focused(), Some(FocusId(2)));
}

#[test]
fn escape_and_enter_remember_scroll_child() {
    let es = tree_entries();
    let mut f = FocusState::new();
    f.set_focused_entry(&es[3]);
    assert_eq!(f.handle_navigation(key(UiKeyInput::Esc), &es, 0), FocusNavOutcome::Handled);
    assert_eq!(f.focused(), Some(FocusId(2)));
    assert_eq!(f.handle_navigation(key(UiKeyInput::Enter), &es, 0), FocusNavOutcome::Handled);
    assert_eq!(f.focused(), Some(FocusId(4)));
    f.set_focused_entry(&es[0]);
    assert_eq!(f.handle_navigation(key(UiKeyInput::Esc), &es, 0), FocusNavOutcome::Ignored);
    assert_eq!(f.handle_navigation(key(UiKeyInput::Enter), &es, 0), FocusNavOutcome::Ignored);
}

#[test]
fn enter_picks_first_descendant_without_memory() {
    let es = tree_entries();
    let mut f = FocusState::new();
    f.set_focused_entry(&es[1]);
    assert!(f.focus_first_child(&es));
    assert_eq!(f.focused(), Some(FocusId(3)));
}

#[test]
fn remember_child_restores_on_enter() {
    let es = tree_entries();
    let mut f = FocusState::new();
    assert!(f.remember_child(FocusId(2), FocusId(4), &es));
    assert!(!f.remember_child(FocusId(3), FocusId(4), &es));
    f.set_focused_entry(&es[1]);
    assert!(f.focus_first_child(&es));
    assert_eq!(f.focused(), Some(FocusId(4)));
}

#[test]
fn stale_memory_does_not_restore() {
    let es = tree_entries();
    let mut f = FocusState::new();
    assert!(f.remember_child(FocusId(2), FocusId(4), &es));
    let reshaped = vec![e(2, &[1], FocusKind::ScrollRegion), e(3, &[1, 0, 0], FocusKind::Generic)];
    f.set_focused_entry(&reshaped[0]);
    assert!(f.focus_first_child(&reshaped));
    assert_eq!(f.focused(), Some(FocusId(3)));
}

#[test]
fn text_input_keeps_arrows() {
    let es = vec![e(1, &[0], FocusKind::TextInput), e(2, &[1], FocusKind::Generic)];
    let mut f = FocusState::new();
    f.set_focused_entry(&es[0]);
    assert_eq!(f.handle_navigation(key(UiKeyInput::Right), &es, 0), FocusNavOutcome::Ignored);
    assert_eq!(f.handle_navigation(key(UiKeyInput::Tab), &es, 0), FocusNavOutcome::Handled);
    assert_eq!(f.focused(), Some(FocusId(2)));
    assert_eq!(f.handle_navigation(UiInputEvent::ScrollLines(2), &es, 0), FocusNavOutcome::Ignored);
    f.clear_focus();
    assert_eq!(f.focused(), None);
    assert!(!f.is_focused(FocusId(2)));
}
