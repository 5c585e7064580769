use talenode::shortcuts::{handle_shortcuts, KeyFrame, ShortcutAction, ShortcutState};

fn keys() -> KeyFrame {
    KeyFrame {
        command: false, shift: false, s: false, o: false, z: false, f: false, h: false, n: false, a: false,
        d: false, escape: false, enter: false, can_undo: true, can_redo: false, has_nodes: true, mac: false,
    }
}

fn state() -> ShortcutState {
    ShortcutState {
        show_search: false, show_replace: false, filter_active: false, has_selection: false,
        subgraph_depth: 0, search_results: 0, search_index: 0,
    }
}

#[test]
fn command_s_saves_and_command_shift_s_does_not() {
    let mut s = state();
    let k = KeyFrame { command: true, s: true, ..keys() };
    assert_eq!(handle_shortcuts(&k, &mut s), vec![ShortcutAction::Save]);
    let k = KeyFrame { command: true, shift: true, s: true, ..keys() };
    assert!(handle_shortcuts(&k, &mut s).is_empty());
}

#[test]
fn undo_clears_the_selection_only_when_there_is_something_to_undo() {
    let mut s = ShortcutState { has_selection: true, ..state() };
    let k = KeyFrame { command: true, z: true, can_undo: false, ..keys() };
    assert_eq!(handle_shortcuts(&k, &mut s), vec![ShortcutAction::Undo]);
    assert!(s.has_selection);
    let k = KeyFrame { command: true, z: true, ..keys() };
    handle_shortcuts(&k, &mut s);
    assert!(!s.has_selection);
    let k = KeyFrame { command: true, shift: true, z: true, ..keys() };
    assert_eq!(handle_shortcuts(&k, &mut s), vec![ShortcutAction::Redo]);
}

#[test]
fn select_all_then_duplicate_in_one_frame() {
    let mut s = state();
    let k = KeyFrame { command: true, a: true, d: true, ..keys() };
    assert_eq!(handle_shortcuts(&k, &mut s), vec![ShortcutAction::SelectAll, ShortcutAction::DuplicateSelection]);
    assert!(s.has_selection);
    let mut s = state();
    let k = KeyFrame { command: true, d: true, ..keys() };
    assert!(handle_shortcuts(&k, &mut s).is_empty());
}

#[test]
fn command_shift_f_opens_search_and_toggles_filter() {
    let mut s = state();
    let k = KeyFrame { command: true, shift: true, f: true, ..keys() };
    assert_eq!(handle_shortcuts(&k, &mut s), vec![ShortcutAction::FilterToggled]);
    assert!(s.show_search && s.filter_active);
    handle_shortcuts(&k, &mut s);
    assert!(!s.filter_active);
}

#[test]
fn plain_f_zooms_only_without_search() {
    let mut s = state();
    let k = KeyFrame { f: true, ..keys() };
    assert_eq!(handle_shortcuts(&k, &mut s), vec![ShortcutAction::ZoomToFit]);
    let mut s = ShortcutState { show_search: true, ..state() };
    assert!(handle_shortcuts(&k, &mut s).is_empty());
}

#[test]
fn replace_shortcut_depends_on_platform() {
    let mut s = state();
    let k = KeyFrame { command: true, h: true, mac: true, ..keys() };
    handle_shortcuts(&k, &mut s);
    assert!(!s.show_replace);
    let k = KeyFrame { command: true, shift: true, h: true, mac: true, ..keys() };
    handle_shortcuts(&k, &mut s);
    assert!(s.show_search && s.show_replace);
    let mut s = state();
    let k = KeyFrame { command: true, h: true, ..keys() };
    handle_shortcuts(&k, &mut s);
    assert!(s.show_search && s.show_replace);
}

#[test]
fn escape_closes_search_before_leaving_a_subgraph() {
    let mut s = ShortcutState { show_search: true, show_replace: true, subgraph_depth: 2, search_results: 3, ..state() };
    let k = KeyFrame { escape: true, ..keys() };
    assert_eq!(handle_shortcuts(&k, &mut s), vec![ShortcutAction::SearchClosed]);
    assert!(!s.show_search && !s.show_replace);
    assert_eq!(s.search_results, 0);
    assert_eq!(s.subgraph_depth, 2);
    assert_eq!(handle_shortcuts(&k, &mut s), vec![ShortcutAction::ExitSubgraph]);
    assert_eq!(s.subgraph_depth, 1);
}

#[test]
fn enter_cycles_through_search_results() {
    let mut s = ShortcutState { show_search: true, search_results: 3, search_index: 1, ..state() };
    let k = KeyFrame { enter: true, ..keys() };
    assert_eq!(handle_shortcuts(&k, &mut s), vec![ShortcutAction::FocusSearchResult]);
    assert_eq!(s.search_index, 2);
    handle_shortcuts(&k, &mut s);
    assert_eq!(s.search_index, 0);
}

#[test]
fn new_project_asks_first() {
    let mut s = state();
    let k = KeyFrame { command: true, n: true, o: true, ..keys() };
    assert_eq!(handle_shortcuts(&k, &mut s), vec![ShortcutAction::Open, ShortcutAction::ConfirmNewProject]);
}
