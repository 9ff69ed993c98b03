//! Tests for the navigation state machine and the key mapping.

use crashview::keymap::{map_key, Command, Key};
use crashview::nav::{App, Window};
use crashview::record::CrashContext;

fn record(pc: usize, paths: Vec<&str>) -> CrashContext {
    CrashContext {
        count: 1,
        pc,
        lr: 0,
        paths: paths.into_iter().map(str::to_string).collect(),
    }
}

#[test]
fn new_with_empty_list_has_no_cursor() {
    let app = App::new("t", Vec::new());
    assert_eq!(app.context_state, None);
    assert_eq!(app.path_state, None);
    assert_eq!(app.window_state, Window::Contexts);
    assert!(!app.should_quit);
}

#[test]
fn new_selects_first_record() {
    let app = App::new("t", vec![record(1, vec![]), record(2, vec![])]);
    assert_eq!(app.context_state, Some(0));
}

#[test]
fn move_up_wraps_to_last() {
    let mut app = App::new("t", vec![record(1, vec![]), record(2, vec![]), record(3, vec![])]);
    app.on_up();
    assert_eq!(app.context_state, Some(2));
}

#[test]
fn move_down_wraps_to_first() {
    let mut app = App::new("t", vec![record(1, vec![]), record(2, vec![]), record(3, vec![])]);
    app.on_down();
    app.on_down();
    assert_eq!(app.context_state, Some(2));
    app.on_down();
    assert_eq!(app.context_state, Some(0));
}

#[test]
fn moves_on_empty_list_keep_cursor_unset() {
    let mut app = App::new("t", Vec::new());
    app.on_up();
    assert_eq!(app.context_state, None);
    app.on_down();
    assert_eq!(app.context_state, None);
}

#[test]
fn single_element_moves_are_noops() {
    let mut app = App::new("t", vec![record(1, vec![])]);
    app.on_up();
    assert_eq!(app.context_state, Some(0));
    app.on_down();
    assert_eq!(app.context_state, Some(0));
}

#[test]
fn single_path_moves_are_noops() {
    let mut app = App::new("t", vec![record(1, vec!["/only"])]);
    app.on_right();
    app.on_up();
    assert_eq!(app.path_state, Some(0));
    app.on_down();
    assert_eq!(app.path_state, Some(0));
}

#[test]
fn path_moves_wrap_within_selected_record() {
    let mut app = App::new("t", vec![record(1, vec!["/a", "/b", "/c"])]);
    app.on_right();
    assert_eq!(app.path_state, Some(0));
    app.on_down();
    assert_eq!(app.path_state, Some(1));
    app.on_up();
    assert_eq!(app.path_state, Some(0));
    app.on_up();
    assert_eq!(app.path_state, Some(2));
    app.on_down();
    assert_eq!(app.path_state, Some(0));
}

#[test]
fn focus_records_always_clears_path_cursor() {
    let mut app = App::new("t", vec![record(1, vec!["/a"])]);
    app.on_right();
    assert_eq!(app.path_state, Some(0));
    app.on_left();
    assert_eq!(app.window_state, Window::Contexts);
    assert_eq!(app.path_state, None);
    // Idempotent: a second focus changes nothing.
    app.on_left();
    assert_eq!(app.window_state, Window::Contexts);
    assert_eq!(app.path_state, None);
}

#[test]
fn focus_paths_is_idempotent() {
    let mut app = App::new("t", vec![record(1, vec!["/a", "/b"])]);
    app.on_right();
    app.on_down();
    assert_eq!(app.path_state, Some(1));
    // Already focused: no-op, the cursor is not reset.
    app.on_right();
    assert_eq!(app.window_state, Window::Paths);
    assert_eq!(app.path_state, Some(1));
}

#[test]
fn focus_paths_on_record_without_paths_selects_index_zero() {
    let mut app = App::new("t", vec![record(1, vec![])]);
    app.on_right();
    assert_eq!(app.window_state, Window::Paths);
    assert_eq!(app.path_state, Some(0));
    assert_eq!(app.selected_path(), None);
}

#[test]
fn moving_records_keeps_path_cursor_clear() {
    let mut app = App::new("t", vec![record(1, vec!["/a"]), record(2, vec!["/b"])]);
    app.on_right();
    app.on_left();
    app.on_down();
    assert_eq!(app.context_state, Some(1));
    assert_eq!(app.path_state, None);
}

#[test]
fn quit_key_sets_quit_flag() {
    let mut app = App::new("t", vec![record(1, vec![])]);
    assert!(!app.should_quit);
    let copy = app.on_key('q');
    assert!(app.should_quit);
    assert_eq!(copy, None);
}

#[test]
fn other_keys_are_noops() {
    let mut app = App::new("t", vec![record(1, vec!["/a"])]);
    let copy = app.on_key('z');
    assert_eq!(copy, None);
    assert!(!app.should_quit);
    assert_eq!(app.window_state, Window::Contexts);
}

#[test]
fn selected_record_follows_cursor() {
    let mut app = App::new("t", vec![record(1, vec![]), record(2, vec![])]);
    assert_eq!(app.selected_record().unwrap().pc, 1);
    app.on_down();
    assert_eq!(app.selected_record().unwrap().pc, 2);
}

#[test]
fn selected_record_none_on_empty_list() {
    let app = App::new("t", Vec::new());
    assert!(app.selected_record().is_none());
}

#[test]
fn selected_path_requires_paths_pane() {
    let mut app = App::new("t", vec![record(1, vec!["/a"])]);
    assert_eq!(app.selected_path(), None);
    app.on_right();
    assert_eq!(app.selected_path(), Some(&"/a".to_string()));
}

#[test]
fn copy_scenario_through_both_panes() {
    let records = vec![record(0x10, vec!["/p1"]), record(0x20, vec![])];
    let mut app = App::new("t", records);
    assert_eq!(app.window_state, Window::Contexts);
    assert_eq!(app.context_state, Some(0));

    // Right: enter the paths pane of the first record.
    app.on_right();
    assert_eq!(app.window_state, Window::Paths);
    assert_eq!(app.path_state, Some(0));
    assert_eq!(app.selected_path(), Some(&"/p1".to_string()));

    // 'c': the clipboard sink receives the selected path.
    let copy = app.on_key('c');
    assert_eq!(copy, Some("/p1".to_string()));

    // Left: back to the records pane.
    app.on_left();
    assert_eq!(app.window_state, Window::Contexts);
    assert_eq!(app.path_state, None);

    // Down: second record.
    app.on_down();
    assert_eq!(app.context_state, Some(1));

    // Right: paths pane over an empty path list.
    app.on_right();
    assert_eq!(app.path_state, Some(0));
    assert_eq!(app.selected_path(), None);

    // 'c': nothing is handed to the clipboard sink.
    let copy = app.on_key('c');
    assert_eq!(copy, None);
}

#[test]
fn map_key_bindings() {
    assert_eq!(map_key(Key::Up), Command::MoveUp);
    assert_eq!(map_key(Key::Down), Command::MoveDown);
    assert_eq!(map_key(Key::Right), Command::FocusRight);
    assert_eq!(map_key(Key::Left), Command::FocusLeft);
    assert_eq!(map_key(Key::Char('q')), Command::Quit);
    assert_eq!(map_key(Key::Char('c')), Command::CopySelectedPath);
    assert_eq!(map_key(Key::Char('z')), Command::Noop);
}

#[test]
fn handle_key_dispatches_commands() {
    let mut app = App::new("t", vec![record(1, vec!["/a"]), record(2, vec![])]);
    assert_eq!(app.handle_key(Key::Down), None);
    assert_eq!(app.context_state, Some(1));
    assert_eq!(app.handle_key(Key::Up), None);
    assert_eq!(app.context_state, Some(0));
    assert_eq!(app.handle_key(Key::Right), None);
    assert_eq!(app.window_state, Window::Paths);
    assert_eq!(app.handle_key(Key::Char('c')), Some("/a".to_string()));
    assert_eq!(app.handle_key(Key::Left), None);
    assert_eq!(app.window_state, Window::Contexts);
    assert_eq!(app.handle_key(Key::Char('x')), None);
    assert_eq!(app.handle_key(Key::Char('q')), None);
    assert!(app.should_quit);
}
