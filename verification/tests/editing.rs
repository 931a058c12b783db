use kilo_rs::edit::{del_char, insert_char, insert_newline};
use kilo_rs::editor::{
    cursor_snapshot, del_row, insert_row, restore_cursor, set_status_msg, EditorConfig,
    QUIT_TIMES,
};
use kilo_rs::input::{
    move_cursor, process_key, prompt_step, ArrowKey, EditorKey, KeyOutcome, PromptKey,
    PromptOutcome,
};
use kilo_rs::row::{row_append_string, row_del_char, row_insert_char, update_row, Row};

fn cv(s: &str) -> Vec<char> {
    s.chars().collect()
}

fn config_with_rows(texts: &[&str]) -> EditorConfig {
    let mut config = EditorConfig::new(24, 80);
    for (i, t) in texts.iter().enumerate() {
        insert_row(&mut config, i, cv(t)).unwrap();
    }
    config
}

#[test]
fn insert_row_rejects_index_past_end() {
    let mut config = EditorConfig::new(5, 5);
    assert!(insert_row(&mut config, 1, cv("x")).is_err());
    assert_eq!(config.rows.len(), 0);
    assert!(!config.dirty);
    assert!(insert_row(&mut config, 0, cv("x")).is_ok());
    assert_eq!(config.rows.len(), 1);
    assert!(config.dirty);
}

#[test]
fn insert_row_shifts_later_rows() {
    let mut config = config_with_rows(&["a", "c"]);
    insert_row(&mut config, 1, cv("b")).unwrap();
    let texts: Vec<String> = config.rows.iter().map(|r| r.content.iter().collect()).collect();
    assert_eq!(texts, ["a", "b", "c"]);
}

#[test]
fn del_row_ignores_index_past_end() {
    let mut config = config_with_rows(&["a", "b"]);
    config.dirty = false;
    del_row(&mut config, 2);
    assert_eq!(config.rows.len(), 2);
    assert!(!config.dirty);
    del_row(&mut config, 0);
    assert_eq!(config.rows.len(), 1);
    assert_eq!(config.rows[0].content, cv("b"));
    assert!(config.dirty);
}

#[test]
fn row_insert_char_clamps_column() {
    let mut row = Row { content: cv("ab"), render: Vec::new(), hl: Vec::new() };
    update_row(&None, &mut row);
    row_insert_char(&None, &mut row, 99, 'z');
    assert_eq!(row.content, cv("abz"));
    assert_eq!(row.render, cv("abz"));
    row_insert_char(&None, &mut row, 0, 'y');
    assert_eq!(row.content, cv("yabz"));
}

#[test]
fn row_del_char_ignores_column_past_end() {
    let mut row = Row { content: cv("ab"), render: Vec::new(), hl: Vec::new() };
    update_row(&None, &mut row);
    row_del_char(&None, &mut row, 2);
    assert_eq!(row.content, cv("ab"));
    row_del_char(&None, &mut row, 0);
    assert_eq!(row.content, cv("b"));
    assert_eq!(row.render, cv("b"));
}

#[test]
fn row_append_string_joins_text() {
    let mut row = Row { content: cv("foo"), render: Vec::new(), hl: Vec::new() };
    update_row(&None, &mut row);
    row_append_string(&None, &mut row, cv("\tbar"));
    assert_eq!(row.content, cv("foo\tbar"));
    assert_eq!(row.render, cv("foo     bar"));
}

#[test]
fn typing_into_empty_buffer_appends_a_row() {
    let mut config = EditorConfig::new(5, 5);
    insert_char(&mut config, 'h');
    insert_char(&mut config, 'i');
    assert_eq!(config.rows.len(), 1);
    assert_eq!(config.rows[0].content, cv("hi"));
    assert_eq!(config.cx, 2);
    assert_eq!(config.cy, 0);
    assert!(config.dirty);
}

#[test]
fn newline_splits_row_at_cursor() {
    // insert_newline at cx=2 on "hello" gives "he" and "llo".
    let mut config = config_with_rows(&["hello"]);
    config.cx = 2;
    insert_newline(&mut config);
    let texts: Vec<String> = config.rows.iter().map(|r| r.content.iter().collect()).collect();
    assert_eq!(texts, ["he", "llo"]);
    assert_eq!(config.cy, 1);
    assert_eq!(config.cx, 0);
}

#[test]
fn newline_at_column_zero_inserts_empty_row() {
    let mut config = config_with_rows(&["hello"]);
    insert_newline(&mut config);
    let texts: Vec<String> = config.rows.iter().map(|r| r.content.iter().collect()).collect();
    assert_eq!(texts, ["", "hello"]);
    assert_eq!(config.cy, 1);
    assert_eq!(config.cx, 0);
}

#[test]
fn delete_at_row_start_joins_rows() {
    // del_char at cx=0, cy=1 with ["foo","bar"] gives one row "foobar".
    let mut config = config_with_rows(&["foo", "bar"]);
    config.cy = 1;
    config.cx = 0;
    del_char(&mut config);
    assert_eq!(config.rows.len(), 1);
    assert_eq!(config.rows[0].content, cv("foobar"));
    assert_eq!(config.cx, 3);
    assert_eq!(config.cy, 0);
}

#[test]
fn delete_removes_char_left_of_cursor() {
    let mut config = config_with_rows(&["abc"]);
    config.cx = 2;
    del_char(&mut config);
    assert_eq!(config.rows[0].content, cv("ac"));
    assert_eq!(config.cx, 1);
}

#[test]
fn delete_at_buffer_start_is_a_no_op() {
    let mut config = config_with_rows(&["abc"]);
    config.dirty = false;
    del_char(&mut config);
    assert_eq!(config.rows[0].content, cv("abc"));
    assert!(!config.dirty);
}

#[test]
fn move_right_wraps_to_next_row() {
    let mut config = config_with_rows(&["ab", "c"]);
    config.cx = 2;
    move_cursor(&mut config, ArrowKey::Right);
    assert_eq!((config.cy, config.cx), (1, 0));
}

#[test]
fn move_left_wraps_to_previous_row_end() {
    let mut config = config_with_rows(&["ab", "c"]);
    config.cy = 1;
    move_cursor(&mut config, ArrowKey::Left);
    assert_eq!((config.cy, config.cx), (0, 2));
}

#[test]
fn vertical_moves_snap_to_row_end() {
    let mut config = config_with_rows(&["long line", "x"]);
    config.cx = 9;
    move_cursor(&mut config, ArrowKey::Down);
    assert_eq!((config.cy, config.cx), (1, 1));
    move_cursor(&mut config, ArrowKey::Up);
    assert_eq!((config.cy, config.cx), (0, 1));
}

#[test]
fn page_keys_move_a_screen_at_a_time() {
    let texts: Vec<String> = (0..50).map(|i| format!("row {i}")).collect();
    let refs: Vec<&str> = texts.iter().map(|s| s.as_str()).collect();
    let mut config = EditorConfig::new(10, 80);
    for (i, t) in refs.iter().enumerate() {
        insert_row(&mut config, i, cv(t)).unwrap();
    }
    let r = process_key(&mut config, EditorKey::PageDown, 0);
    assert_eq!(r, KeyOutcome::Continue);
    assert_eq!(config.cy, 19);
    let r = process_key(&mut config, EditorKey::PageUp, 0);
    assert_eq!(r, KeyOutcome::Continue);
    assert_eq!(config.cy, 0);
}

#[test]
fn home_and_end_jump_within_the_row() {
    let mut config = config_with_rows(&["some text"]);
    config.cx = 4;
    process_key(&mut config, EditorKey::End, 0);
    assert_eq!(config.cx, 9);
    process_key(&mut config, EditorKey::Home, 0);
    assert_eq!(config.cx, 0);
}

#[test]
fn quit_of_dirty_buffer_needs_confirmations() {
    let mut config = config_with_rows(&["x"]);
    assert!(config.dirty);
    assert_eq!(config.quit_times, QUIT_TIMES);
    let r = process_key(&mut config, EditorKey::Quit, 7);
    assert_eq!(r, KeyOutcome::QuitRefused);
    assert_eq!(config.quit_times, 2);
    let msg: String = config.status_msg.iter().collect();
    assert_eq!(
        msg,
        "WARNING!! File has unsaved changes. Press Ctrl-Q 3 more times to quit."
    );
    assert_eq!(config.status_msg_time, 7);
    assert_eq!(process_key(&mut config, EditorKey::Quit, 8), KeyOutcome::QuitRefused);
    assert_eq!(process_key(&mut config, EditorKey::Quit, 9), KeyOutcome::QuitRefused);
    assert_eq!(config.quit_times, 0);
    assert_eq!(process_key(&mut config, EditorKey::Quit, 10), KeyOutcome::Exit);
}

#[test]
fn quit_of_clean_buffer_exits_at_once() {
    let mut config = config_with_rows(&["x"]);
    config.dirty = false;
    assert_eq!(process_key(&mut config, EditorKey::Quit, 0), KeyOutcome::Exit);
}

#[test]
fn other_keys_refill_quit_confirmations() {
    let mut config = config_with_rows(&["x"]);
    process_key(&mut config, EditorKey::Quit, 0);
    assert_eq!(config.quit_times, 2);
    process_key(&mut config, EditorKey::Home, 0);
    assert_eq!(config.quit_times, QUIT_TIMES);
}

#[test]
fn save_and_find_are_handed_to_the_caller() {
    let mut config = config_with_rows(&["x"]);
    assert_eq!(process_key(&mut config, EditorKey::Save, 0), KeyOutcome::Save);
    assert_eq!(process_key(&mut config, EditorKey::Find, 0), KeyOutcome::Find);
    assert_eq!(process_key(&mut config, EditorKey::Other, 0), KeyOutcome::Continue);
}

#[test]
fn typed_keys_reach_the_row() {
    let mut config = EditorConfig::new(5, 5);
    assert_eq!(process_key(&mut config, EditorKey::Insert('a'), 0), KeyOutcome::Continue);
    assert_eq!(process_key(&mut config, EditorKey::Enter, 0), KeyOutcome::Continue);
    assert_eq!(process_key(&mut config, EditorKey::Insert('b'), 0), KeyOutcome::Continue);
    let texts: Vec<String> = config.rows.iter().map(|r| r.content.iter().collect()).collect();
    assert_eq!(texts, ["a", "b"]);
    assert_eq!(process_key(&mut config, EditorKey::Backspace, 0), KeyOutcome::Continue);
    let texts: Vec<String> = config.rows.iter().map(|r| r.content.iter().collect()).collect();
    assert_eq!(texts, ["a", ""]);
}

#[test]
fn prompt_collects_printable_characters() {
    let mut buf: Vec<char> = Vec::new();
    assert_eq!(prompt_step(&mut buf, PromptKey::Char('h')), PromptOutcome::Pending);
    assert_eq!(prompt_step(&mut buf, PromptKey::Char('i')), PromptOutcome::Pending);
    assert_eq!(prompt_step(&mut buf, PromptKey::Char('\x07')), PromptOutcome::Pending);
    assert_eq!(buf, cv("hi"));
    assert_eq!(prompt_step(&mut buf, PromptKey::Backspace), PromptOutcome::Pending);
    assert_eq!(buf, cv("h"));
    assert_eq!(prompt_step(&mut buf, PromptKey::Enter), PromptOutcome::Submit);
    assert_eq!(prompt_step(&mut buf, PromptKey::Esc), PromptOutcome::Cancel);
    assert_eq!(buf, cv("h"));
}

#[test]
fn prompt_needs_text_to_submit() {
    let mut buf: Vec<char> = Vec::new();
    assert_eq!(prompt_step(&mut buf, PromptKey::Enter), PromptOutcome::Pending);
    assert_eq!(prompt_step(&mut buf, PromptKey::Backspace), PromptOutcome::Pending);
    assert_eq!(prompt_step(&mut buf, PromptKey::Other), PromptOutcome::Pending);
    assert!(buf.is_empty());
}

#[test]
fn snapshot_restores_cursor_and_scroll() {
    let mut config = config_with_rows(&["one", "two"]);
    config.cx = 2;
    config.cy = 1;
    config.col_off = 0;
    config.row_off = 1;
    let snap = cursor_snapshot(&config);
    config.cx = 0;
    config.cy = 0;
    config.row_off = 0;
    restore_cursor(&mut config, snap);
    assert_eq!((config.cx, config.cy, config.col_off, config.row_off), (2, 1, 0, 1));
}

#[test]
fn status_message_carries_its_timestamp() {
    let mut config = EditorConfig::new(5, 5);
    set_status_msg(&mut config, cv("hello"), 42);
    assert_eq!(config.status_msg, cv("hello"));
    assert_eq!(config.status_msg_time, 42);
}

#[test]
fn mark_saved_clears_dirty_and_reports_bytes() {
    let mut config = config_with_rows(&["abc"]);
    assert!(config.dirty);
    kilo_rs::editor::mark_saved(&mut config, 4, 99);
    assert!(!config.dirty);
    let msg: String = config.status_msg.iter().collect();
    assert_eq!(msg, "4 bytes written to disk");
    assert_eq!(config.status_msg_time, 99);
    kilo_rs::editor::mark_saved(&mut config, 51034, 100);
    let msg: String = config.status_msg.iter().collect();
    assert_eq!(msg, "51034 bytes written to disk");
}
