use kilo_rs::editor::EditorConfig;
use kilo_rs::lines::{rows_to_string, split_lines};
use kilo_rs::row::{row_cx_to_rx, row_rx_to_cx, update_row, Row};
use kilo_rs::syntax::{is_separator, select_syntax_highlight, update_syntax, Highlight};

fn cv(s: &str) -> Vec<char> {
    s.chars().collect()
}

fn fresh_row(s: &str) -> Row {
    let mut row = Row { content: cv(s), render: Vec::new(), hl: Vec::new() };
    update_row(&None, &mut row);
    row
}

fn config_with_rows(texts: &[&str]) -> EditorConfig {
    let mut config = EditorConfig::new(24, 80);
    for (i, t) in texts.iter().enumerate() {
        kilo_rs::editor::insert_row(&mut config, i, cv(t)).unwrap();
    }
    config
}

#[test]
fn tab_expands_to_tab_stop() {
    // A buffer with rows ["a\tb", "hello"]: the tab fills up to column 8.
    let config = config_with_rows(&["a\tb", "hello"]);
    assert_eq!(config.rows[0].render, cv("a       b"));
    assert_eq!(config.rows[0].render.len(), 9);
    assert_eq!(config.rows[1].render, cv("hello"));
}

#[test]
fn render_and_highlight_share_length() {
    for s in ["", "a\tb", "\t\t", "123 abc", "x\ty\tz"] {
        let row = fresh_row(s);
        assert_eq!(row.render.len(), row.hl.len());
    }
}

#[test]
fn tab_runs_are_spaces_on_boundaries() {
    let row = fresh_row("ab\tc\td");
    let render: String = row.render.iter().collect();
    assert_eq!(render, "ab      c       d");
    // every run of spaces ends on a multiple of the tab stop
    assert_eq!(render.find('c'), Some(8));
    assert_eq!(render.find('d'), Some(16));
}

#[test]
fn update_row_twice_changes_nothing() {
    let mut row = fresh_row("num 12.5\tx");
    let render1 = row.render.clone();
    let hl1 = row.hl.clone();
    update_row(&None, &mut row);
    assert_eq!(row.render, render1);
    assert_eq!(row.hl, hl1);
}

#[test]
fn cx_to_rx_walks_tabs() {
    let row = fresh_row("a\tb");
    assert_eq!(row_cx_to_rx(&row, 0), 0);
    assert_eq!(row_cx_to_rx(&row, 1), 1);
    assert_eq!(row_cx_to_rx(&row, 2), 8);
    assert_eq!(row_cx_to_rx(&row, 3), 9);
    // clamped past the end
    assert_eq!(row_cx_to_rx(&row, 100), 9);
}

#[test]
fn cx_to_rx_is_monotonic() {
    let row = fresh_row("\ta\t\tbc");
    let mut last = 0usize;
    for cx in 0..=row.content.len() {
        let rx = row_cx_to_rx(&row, cx);
        assert!(rx >= last);
        last = rx;
    }
}

#[test]
fn rx_to_cx_inverts_cx_to_rx() {
    let row = fresh_row("a\tbc\td");
    for cx in 0..row.content.len() {
        let rx = row_cx_to_rx(&row, cx);
        assert_eq!(row_rx_to_cx(&row, rx), cx);
    }
}

#[test]
fn rx_to_cx_clamps_past_the_end() {
    let row = fresh_row("a\tb");
    assert_eq!(row_rx_to_cx(&row, 9), 2);
    assert_eq!(row_rx_to_cx(&row, 1000), 2);
    let empty = fresh_row("");
    assert_eq!(row_rx_to_cx(&empty, 0), 0);
    assert_eq!(row_rx_to_cx(&empty, 5), 0);
}

#[test]
fn separators_are_punct_space_and_nul() {
    for c in [' ', '\t', ',', ';', '.', '(', '~', '\0', '\n'] {
        assert!(is_separator(c), "{c:?} should separate");
    }
    for c in ['a', 'Z', '0', '9', '\u{e9}'] {
        assert!(!is_separator(c), "{c:?} should not separate");
    }
}

#[test]
fn highlight_color_codes() {
    assert_eq!(Highlight::Number.to_color(), 31);
    assert_eq!(Highlight::Normal.to_color(), 37);
}

#[test]
fn no_rule_leaves_all_normal() {
    let row = fresh_row("abc 123");
    assert!(row.hl.iter().all(|h| *h == Highlight::Normal));
}

#[test]
fn numbers_highlight_after_separators() {
    let mut config = config_with_rows(&["abc 12.5 x7"]);
    kilo_rs::editor::set_filename(&mut config, cv("main.rs"));
    select_syntax_highlight(&mut config);
    let hl = &config.rows[0].hl;
    let expect = [
        // a    b    c    ' '  1    2    .    5    ' '  x    7
        false, false, false, false, true, true, true, true, false, false, false,
    ];
    for (i, e) in expect.iter().enumerate() {
        let is_num = hl[i] == Highlight::Number;
        assert_eq!(is_num, *e, "column {i}");
    }
}

#[test]
fn update_syntax_resizes_to_render() {
    let mut row = Row { content: cv("a\tb"), render: Vec::new(), hl: Vec::new() };
    update_row(&None, &mut row);
    update_syntax(&None, &mut row);
    assert_eq!(row.hl.len(), 9);
    assert!(row.hl.iter().all(|h| *h == Highlight::Normal));
}

#[test]
fn select_syntax_needs_matching_extension() {
    let mut config = config_with_rows(&["1"]);
    select_syntax_highlight(&mut config);
    assert!(config.syntax.is_none());

    kilo_rs::editor::set_filename(&mut config, cv("notes.txt"));
    select_syntax_highlight(&mut config);
    assert!(config.syntax.is_none());

    kilo_rs::editor::set_filename(&mut config, cv("no_extension"));
    select_syntax_highlight(&mut config);
    assert!(config.syntax.is_none());

    kilo_rs::editor::set_filename(&mut config, cv("lib.rs"));
    select_syntax_highlight(&mut config);
    let syntax = config.syntax.as_ref().expect("rust rule selected");
    assert_eq!(syntax.filetype, cv("rust"));
    assert!(syntax.highlight_numbers);
    assert_eq!(config.rows[0].hl, vec![Highlight::Number]);
}

#[test]
fn rows_serialize_with_trailing_newline() {
    let config = config_with_rows(&["foo", "bar"]);
    let text: String = rows_to_string(&config.rows).iter().collect();
    assert_eq!(text, "foo\nbar\n");
}

#[test]
fn save_then_load_round_trips() {
    let config = config_with_rows(&["foo", "", "bar baz", "\tq"]);
    let text = rows_to_string(&config.rows);
    let lines = split_lines(&text);
    assert_eq!(lines.len(), config.rows.len());
    for (line, row) in lines.iter().zip(config.rows.iter()) {
        assert_eq!(line, &row.content);
    }
}

#[test]
fn split_lines_follows_reader_conventions() {
    assert_eq!(split_lines(&cv("")), Vec::<Vec<char>>::new());
    assert_eq!(split_lines(&cv("abc")), vec![cv("abc")]);
    assert_eq!(split_lines(&cv("abc\n")), vec![cv("abc")]);
    assert_eq!(split_lines(&cv("a\r\nb")), vec![cv("a"), cv("b")]);
    assert_eq!(split_lines(&cv("\n")), vec![cv("")]);
    assert_eq!(split_lines(&cv("a\n\nb\n")), vec![cv("a"), cv(""), cv("b")]);
}

#[test]
fn load_rows_appends_and_stays_clean() {
    let mut config = EditorConfig::new(10, 10);
    let lines = vec![cv("one"), cv("two")];
    kilo_rs::lines::load_rows(&mut config, &lines);
    assert_eq!(config.rows.len(), 2);
    assert_eq!(config.rows[0].content, cv("one"));
    assert_eq!(config.rows[1].content, cv("two"));
    assert!(!config.dirty);
}
