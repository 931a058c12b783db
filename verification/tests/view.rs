use kilo_rs::draw::{draw_messagebar, draw_rows, draw_statusbar};
use kilo_rs::editor::{insert_row, set_status_msg, EditorConfig};
use kilo_rs::scroll::{scroll, visible_slice};
use kilo_rs::search::{find, find_substring, SearchKey, SearchState};

fn cv(s: &str) -> Vec<char> {
    s.chars().collect()
}

fn sv(v: &[char]) -> String {
    v.iter().collect()
}

fn config_sized(rows: usize, cols: usize, texts: &[&str]) -> EditorConfig {
    let mut config = EditorConfig::new(rows, cols);
    for (i, t) in texts.iter().enumerate() {
        insert_row(&mut config, i, cv(t)).unwrap();
    }
    config
}

#[test]
fn fresh_config_starts_at_origin() {
    let config = EditorConfig::new(24, 80);
    assert_eq!(config.screen_rows, 24);
    assert_eq!(config.screen_cols, 80);
    assert_eq!((config.cx, config.cy, config.rx), (0, 0, 0));
    assert_eq!((config.col_off, config.row_off), (0, 0));
    assert!(config.rows.is_empty());
    assert!(config.filename.is_none());
    assert!(!config.dirty);
}

#[test]
fn scroll_keeps_cursor_visible() {
    let texts: Vec<String> = (0..50).map(|i| format!("{i}")).collect();
    let refs: Vec<&str> = texts.iter().map(|s| s.as_str()).collect();
    let mut config = EditorConfig::new(10, 20);
    for (i, t) in refs.iter().enumerate() {
        insert_row(&mut config, i, cv(t)).unwrap();
    }
    config.cy = 30;
    config.cx = 0;
    scroll(&mut config);
    assert_eq!(config.row_off, 21);
    assert!(config.row_off <= config.cy && config.cy < config.row_off + config.screen_rows);

    config.cy = 5;
    scroll(&mut config);
    assert_eq!(config.row_off, 5);
}

#[test]
fn scroll_tracks_render_column() {
    let mut config = config_sized(10, 20, &["0123456789012345678901234567890"]);
    config.cx = 25;
    scroll(&mut config);
    assert_eq!(config.rx, 25);
    assert_eq!(config.col_off, 6);
    assert!(config.col_off <= config.rx && config.rx < config.col_off + config.screen_cols);

    config.cx = 1;
    scroll(&mut config);
    assert_eq!(config.col_off, 1);
}

#[test]
fn scroll_expands_tabs_for_the_cursor() {
    let mut config = config_sized(10, 20, &["a\tb"]);
    config.cx = 2;
    scroll(&mut config);
    assert_eq!(config.rx, 8);
}

#[test]
fn scroll_on_virtual_row_resets_render_column() {
    let mut config = config_sized(10, 20, &["abc"]);
    config.cy = 1;
    config.cx = 0;
    config.rx = 7;
    scroll(&mut config);
    assert_eq!(config.rx, 0);
}

#[test]
fn visible_slice_cuts_the_window() {
    let mut config = config_sized(5, 5, &["a\tb"]);
    let row = config.rows.remove(0);
    let (text, tags) = visible_slice(&row, 0, 4);
    assert_eq!(sv(&text), "a   ");
    assert_eq!(tags.len(), 4);
    let (text, _) = visible_slice(&row, 8, 5);
    assert_eq!(sv(&text), "b");
    let (text, tags) = visible_slice(&row, 9, 5);
    assert!(text.is_empty() && tags.is_empty());
    let (text, _) = visible_slice(&row, 100, 5);
    assert!(text.is_empty());
}

#[test]
fn empty_buffer_draws_tildes_and_greeting() {
    let config = EditorConfig::new(3, 80);
    let mut buf: Vec<char> = Vec::new();
    draw_rows(&config, &mut buf);
    let welcome = "Kilo-rs editor -- version 0.1.1";
    let expected = format!("~\r\n~{}{}\r\n~\r\n", " ".repeat(23), welcome);
    assert_eq!(sv(&buf), expected);
}

#[test]
fn greeting_is_cut_to_narrow_screens() {
    let config = EditorConfig::new(3, 10);
    let mut buf: Vec<char> = Vec::new();
    draw_rows(&config, &mut buf);
    let expected = "~\r\nKilo-rs ed\r\n~\r\n";
    assert_eq!(sv(&buf), expected);
}

#[test]
fn rows_draw_their_visible_slice() {
    let mut config = config_sized(1, 3, &["abcdef"]);
    config.col_off = 2;
    let mut buf: Vec<char> = Vec::new();
    draw_rows(&config, &mut buf);
    assert_eq!(sv(&buf), "cde\x1b[39m\r\n");
}

#[test]
fn numbers_draw_in_color() {
    let mut config = config_sized(1, 80, &["1a"]);
    kilo_rs::editor::set_filename(&mut config, cv("t.rs"));
    kilo_rs::syntax::select_syntax_highlight(&mut config);
    let mut buf: Vec<char> = Vec::new();
    draw_rows(&config, &mut buf);
    assert_eq!(sv(&buf), "\x1b[31m1\x1b[39ma\x1b[39m\r\n");
}

#[test]
fn color_runs_share_one_escape() {
    let mut config = config_sized(1, 80, &["12 3"]);
    kilo_rs::editor::set_filename(&mut config, cv("t.rs"));
    kilo_rs::syntax::select_syntax_highlight(&mut config);
    let mut buf: Vec<char> = Vec::new();
    draw_rows(&config, &mut buf);
    assert_eq!(sv(&buf), "\x1b[31m12\x1b[39m \x1b[31m3\x1b[39m\r\n");
}

#[test]
fn statusbar_without_room_drops_the_right_half() {
    let config = EditorConfig::new(24, 30);
    let mut buf: Vec<char> = Vec::new();
    draw_statusbar(&config, &mut buf);
    let expected = format!("\x1b[7m[No Name] - 0 lines {}\x1b[m\r\n", " ".repeat(10));
    assert_eq!(sv(&buf), expected);
}

#[test]
fn statusbar_sets_the_right_half_against_the_edge() {
    let config = EditorConfig::new(24, 40);
    let mut buf: Vec<char> = Vec::new();
    draw_statusbar(&config, &mut buf);
    let expected = format!("\x1b[7m[No Name] - 0 lines {}no ft | 1/0\x1b[m\r\n", " ".repeat(9));
    assert_eq!(sv(&buf), expected);
}

#[test]
fn statusbar_shows_name_count_and_modified() {
    let mut config = config_sized(24, 60, &["a", "b"]);
    kilo_rs::editor::set_filename(&mut config, cv("t.rs"));
    kilo_rs::syntax::select_syntax_highlight(&mut config);
    config.cy = 1;
    let mut buf: Vec<char> = Vec::new();
    draw_statusbar(&config, &mut buf);
    let left = "t.rs - 2 lines (modified)";
    let right = "rust | 2/2";
    let expected = format!("\x1b[7m{}{}{}\x1b[m\r\n", left, " ".repeat(60 - 25 - 10), right);
    assert_eq!(sv(&buf), expected);
}

#[test]
fn message_shows_while_fresh() {
    let mut config = EditorConfig::new(5, 80);
    set_status_msg(&mut config, cv("hi there"), 100);
    let mut buf: Vec<char> = Vec::new();
    draw_messagebar(&config, &mut buf, 104);
    assert_eq!(sv(&buf), "\x1b[Khi there");
}

#[test]
fn message_expires_after_the_timeout() {
    let mut config = EditorConfig::new(5, 80);
    set_status_msg(&mut config, cv("hi"), 100);
    let mut buf: Vec<char> = Vec::new();
    draw_messagebar(&config, &mut buf, 105);
    assert_eq!(sv(&buf), "\x1b[K");
    let mut buf: Vec<char> = Vec::new();
    draw_messagebar(&config, &mut buf, 99);
    assert_eq!(sv(&buf), "\x1b[K");
}

#[test]
fn message_is_cut_to_the_screen() {
    let mut config = EditorConfig::new(5, 3);
    set_status_msg(&mut config, cv("hello"), 0);
    let mut buf: Vec<char> = Vec::new();
    draw_messagebar(&config, &mut buf, 1);
    assert_eq!(sv(&buf), "\x1b[Khel");
}

#[test]
fn substring_search_finds_first_occurrence() {
    assert_eq!(find_substring(&cv("hello"), &cv("lo")), Some(3));
    assert_eq!(find_substring(&cv("hello"), &cv("l")), Some(2));
    assert_eq!(find_substring(&cv("hello"), &cv("")), Some(0));
    assert_eq!(find_substring(&cv("hello"), &cv("z")), None);
    assert_eq!(find_substring(&cv("ab"), &cv("abc")), None);
}

#[test]
fn search_lands_on_first_matching_row() {
    // searching "lo" in ["hello", "world"] with no prior match
    let mut config = config_sized(24, 80, &["hello", "world"]);
    let mut state = SearchState::new();
    find(&mut config, &mut state, &cv("lo"), SearchKey::Other);
    assert_eq!(config.cy, 0);
    assert_eq!(config.cx, 3);
    assert_eq!(state.last_match, Some(0));
    assert_eq!(config.row_off, 2);
}

#[test]
fn search_steps_forward_and_wraps() {
    let mut config = config_sized(24, 80, &["ab", "xa", "a"]);
    let mut state = SearchState::new();
    find(&mut config, &mut state, &cv("a"), SearchKey::Other);
    assert_eq!((config.cy, config.cx), (0, 0));
    find(&mut config, &mut state, &cv("a"), SearchKey::Forward);
    assert_eq!((config.cy, config.cx), (1, 1));
    find(&mut config, &mut state, &cv("a"), SearchKey::Forward);
    assert_eq!((config.cy, config.cx), (2, 0));
    find(&mut config, &mut state, &cv("a"), SearchKey::Forward);
    assert_eq!((config.cy, config.cx), (0, 0));
}

#[test]
fn search_steps_backward_with_wraparound() {
    let mut config = config_sized(24, 80, &["a1", "a2", "a3"]);
    let mut state = SearchState::new();
    find(&mut config, &mut state, &cv("a"), SearchKey::Other);
    assert_eq!(config.cy, 0);
    find(&mut config, &mut state, &cv("a"), SearchKey::Backward);
    assert_eq!(config.cy, 2);
    find(&mut config, &mut state, &cv("a"), SearchKey::Backward);
    assert_eq!(config.cy, 1);
}

#[test]
fn search_maps_render_position_to_content_column() {
    let mut config = config_sized(24, 80, &["\ta"]);
    let mut state = SearchState::new();
    find(&mut config, &mut state, &cv("a"), SearchKey::Other);
    assert_eq!(config.cy, 0);
    assert_eq!(config.cx, 1);
}

#[test]
fn search_without_match_moves_nothing() {
    let mut config = config_sized(24, 80, &["abc"]);
    config.cx = 2;
    let mut state = SearchState::new();
    find(&mut config, &mut state, &cv("zz"), SearchKey::Other);
    assert_eq!((config.cy, config.cx), (0, 2));
    assert_eq!(state.last_match, None);
    assert_eq!(config.row_off, 0);
}

#[test]
fn confirming_the_search_resets_its_state() {
    let mut config = config_sized(24, 80, &["abc"]);
    let mut state = SearchState::new();
    find(&mut config, &mut state, &cv("b"), SearchKey::Other);
    assert_eq!(state.last_match, Some(0));
    find(&mut config, &mut state, &cv("b"), SearchKey::Confirm);
    assert_eq!(state.last_match, None);
    assert!(state.forward);
}
