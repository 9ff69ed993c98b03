//! Tests for the formatters and the frame builder.

use crashview::nav::App;
use crashview::record::CrashContext;
use crashview::view::{build_frame, format_count, format_hex, format_path_row};

fn record(count: usize, pc: usize, lr: usize, paths: Vec<&str>) -> CrashContext {
    CrashContext {
        count,
        pc,
        lr,
        paths: paths.into_iter().map(str::to_string).collect(),
    }
}

#[test]
fn format_hex_pads_to_eight_digits() {
    assert_eq!(format_hex(0), "0x00000000");
    assert_eq!(format_hex(0x10), "0x00000010");
    assert_eq!(format_hex(0xdeadbeef), "0xdeadbeef");
}

#[test]
fn format_hex_grows_past_eight_digits() {
    assert_eq!(format_hex(0x123456789), "0x123456789");
}

#[test]
fn format_count_right_aligns_to_six() {
    assert_eq!(format_count(0), "   [0]");
    assert_eq!(format_count(3), "   [3]");
    assert_eq!(format_count(1234), "[1234]");
}

#[test]
fn format_count_grows_past_six() {
    assert_eq!(format_count(123456), "[123456]");
}

#[test]
fn format_path_row_numbers_from_position() {
    assert_eq!(format_path_row(1, "/p1"), "   1  /p1");
    assert_eq!(format_path_row(42, "/x"), "  42  /x");
    assert_eq!(format_path_row(1234, "/y"), " 1234  /y");
}

#[test]
fn build_frame_formats_all_records() {
    let app = App::new(
        "t",
        vec![
            record(3, 0xdeadbeef, 0xcafebabe, vec!["/a", "/b"]),
            record(12, 0x10, 0x20, vec![]),
        ],
    );
    let f = build_frame(&app);
    assert_eq!(f.record_rows.len(), 2);
    assert_eq!(f.record_rows[0].pc, "0xdeadbeef");
    assert_eq!(f.record_rows[0].lr, "0xcafebabe");
    assert_eq!(f.record_rows[0].count, "   [3]");
    assert_eq!(f.record_rows[1].pc, "0x00000010");
    assert_eq!(f.record_rows[1].lr, "0x00000020");
    assert_eq!(f.record_rows[1].count, "  [12]");
    assert_eq!(f.highlighted_record_index, Some(0));
    assert_eq!(f.path_rows, vec!["   1  /a".to_string(), "   2  /b".to_string()]);
    assert_eq!(f.highlighted_path_index, None);
    assert!(f.records_pane_active);
}

#[test]
fn build_frame_follows_focus_and_cursors() {
    let mut app = App::new("t", vec![record(1, 0x1, 0x2, vec!["/a", "/b"])]);
    app.on_right();
    app.on_down();
    let f = build_frame(&app);
    assert!(!f.records_pane_active);
    assert_eq!(f.highlighted_path_index, Some(1));
    assert_eq!(f.highlighted_record_index, Some(0));
}

#[test]
fn build_frame_on_empty_list() {
    let app = App::new("t", Vec::new());
    let f = build_frame(&app);
    assert!(f.record_rows.is_empty());
    assert!(f.path_rows.is_empty());
    assert_eq!(f.highlighted_record_index, None);
    assert_eq!(f.highlighted_path_index, None);
    assert!(f.records_pane_active);
}

#[test]
fn build_frame_shows_paths_of_selected_record() {
    let mut app = App::new(
        "t",
        vec![
            record(1, 0x1, 0x2, vec!["/first"]),
            record(2, 0x3, 0x4, vec!["/second"]),
        ],
    );
    app.on_down();
    let f = build_frame(&app);
    assert_eq!(f.path_rows, vec!["   1  /second".to_string()]);
}

#[test]
fn build_frame_is_pure() {
    let app = App::new("t", vec![record(1, 0x1, 0x2, vec!["/a"])]);
    let f1 = build_frame(&app);
    let f2 = build_frame(&app);
    assert_eq!(f1.record_rows[0].pc, f2.record_rows[0].pc);
    assert_eq!(f1.path_rows, f2.path_rows);
    assert_eq!(f1.highlighted_record_index, f2.highlighted_record_index);
    assert_eq!(f1.records_pane_active, f2.records_pane_active);
}
