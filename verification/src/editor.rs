//! The buffer: rows, cursor, viewport offsets and bookkeeping state.

use vstd::prelude::*;

use crate::row::{row_wf, update_row, Row};
use crate::syntax::{numbers_of, Syntax};

verus! {

/// How often an unsaved quit must be confirmed before it happens.
pub const QUIT_TIMES: u8 = 3;

/// A row or column index lay outside the buffer.
#[derive(PartialEq, Eq, Structural, Debug)]
pub struct IndexError;

/// The whole editing session: document rows, cursor, scroll offsets,
/// file binding and status-line bookkeeping.
pub struct EditorConfig {
    /// Text rows of the viewport (the screen minus the two status lines).
    pub screen_rows: usize,
    /// Columns of the viewport.
    pub screen_cols: usize,
    /// Cursor content column.
    pub cx: usize,
    /// Cursor row.
    pub cy: usize,
    /// Cursor render column, recomputed by `scroll`.
    pub rx: usize,
    /// First visible render column.
    pub col_off: usize,
    /// First visible row.
    pub row_off: usize,
    /// The document.
    pub rows: Vec<Row>,
    /// File the buffer is bound to, if any.
    pub filename: Option<Vec<char>>,
    /// Transient status message.
    pub status_msg: Vec<char>,
    /// Seconds timestamp of the status message.
    pub status_msg_time: u64,
    /// Whether the buffer has unsaved changes.
    pub dirty: bool,
    /// Active syntax rule, if any.
    pub syntax: Option<Syntax>,
    /// Remaining confirmations before a dirty buffer may quit.
    pub quit_times: u8,
}

/// The content of every row, as a sequence of character sequences.
pub open spec fn contents_of(rows: Seq<Row>) -> Seq<Seq<char>> {
    rows.map_values(|r: Row| r.content@)
}

/// Every row's derived fields agree with its content under the active
/// rule.
pub open spec fn rows_wf(c: EditorConfig) -> bool {
    forall|i: int|
        0 <= i < c.rows@.len() ==> row_wf(#[trigger] c.rows@[i], numbers_of(c.syntax))
}

/// The cursor stays inside the buffer: on a real row at most at its end,
/// or at column 0 of the virtual row past the last.
pub open spec fn cursor_wf(c: EditorConfig) -> bool {
    &&& c.cy <= c.rows@.len()
    &&& c.cy < c.rows@.len() ==> c.cx <= c.rows@[c.cy as int].content@.len()
    &&& c.cy == c.rows@.len() ==> c.cx == 0
}

/// A usable viewport: at least one row and one column.
pub open spec fn screen_wf(c: EditorConfig) -> bool {
    1 <= c.screen_rows && 1 <= c.screen_cols
}

/// The buffer invariant every operation preserves.
pub open spec fn config_wf(c: EditorConfig) -> bool {
    rows_wf(c) && cursor_wf(c) && screen_wf(c)
}

impl EditorConfig {
    /// Fresh empty buffer for a viewport of the given size.
    pub fn new(screen_rows: usize, screen_cols: usize) -> (c: EditorConfig)
        requires
            1 <= screen_rows,
            1 <= screen_cols,
        ensures
            c.screen_rows == screen_rows,
            c.screen_cols == screen_cols,
            c.cx == 0 && c.cy == 0 && c.rx == 0,
            c.col_off == 0 && c.row_off == 0,
            c.rows@.len() == 0,
            c.filename is None,
            c.status_msg@.len() == 0,
            c.status_msg_time == 0,
            !c.dirty,
            c.syntax is None,
            c.quit_times == QUIT_TIMES,
            config_wf(c),
    {
        EditorConfig {
            screen_rows,
            screen_cols,
            cx: 0,
            cy: 0,
            rx: 0,
            col_off: 0,
            row_off: 0,
            rows: Vec::new(),
            filename: None,
            status_msg: Vec::new(),
            status_msg_time: 0,
            dirty: false,
            syntax: None,
            quit_times: QUIT_TIMES,
        }
    }
}

/// Inserts a new row holding `text` at index `at`, shifting the rows at
/// or after it up by one, and marks the buffer dirty.  An index past the
/// end of the row list is refused.
pub fn insert_row(config: &mut EditorConfig, at: usize, text: Vec<char>) -> (r: Result<
    (),
    IndexError,
>)
    requires
        rows_wf(*old(config)),
    ensures
        r is Ok <==> at <= old(config).rows@.len(),
        r is Err ==> *final(config) == *old(config),
        r is Ok ==> {
            &&& final(config).rows@ == old(config).rows@.insert(
                at as int,
                final(config).rows@[at as int],
            )
            &&& final(config).rows@[at as int].content@ == text@
            &&& row_wf(final(config).rows@[at as int], numbers_of(old(config).syntax))
            &&& *final(config) == (EditorConfig {
                rows: final(config).rows,
                dirty: true,
                ..*old(config)
            })
        },
        rows_wf(*final(config)),
{
    if at > config.rows.len() {
        return Err(IndexError);
    }
    let row = Row { content: text, render: Vec::new(), hl: Vec::new() };
    config.rows.insert(at, row);
    update_row(&config.syntax, &mut config.rows[at]);
    config.dirty = true;
    Ok(())
}

/// Removes the row at index `at` and marks the buffer dirty; an index at
/// or past the end of the row list is a no-op.
pub fn del_row(config: &mut EditorConfig, at: usize)
    ensures
        at >= old(config).rows@.len() ==> *final(config) == *old(config),
        at < old(config).rows@.len() ==> {
            &&& final(config).rows@ == old(config).rows@.remove(at as int)
            &&& *final(config) == (EditorConfig {
                rows: final(config).rows,
                dirty: true,
                ..*old(config)
            })
        },
        rows_wf(*old(config)) ==> rows_wf(*final(config)),
{
    if at >= config.rows.len() {
        return ;
    }
    config.rows.remove(at);
    config.dirty = true;
}

/// Records a status message with its timestamp.
pub fn set_status_msg(config: &mut EditorConfig, msg: Vec<char>, now: u64)
    ensures
        *final(config) == (EditorConfig {
            status_msg: final(config).status_msg,
            status_msg_time: now,
            ..*old(config)
        }),
        final(config).status_msg@ == msg@,
{
    config.status_msg = msg;
    config.status_msg_time = now;
}

/// Binds the buffer to a file name.
pub fn set_filename(config: &mut EditorConfig, name: Vec<char>)
    ensures
        *final(config) == (EditorConfig { filename: final(config).filename, ..*old(config) }),
        final(config).filename matches Some(f) && f@ == name@,
{
    config.filename = Some(name);
}

/// Records a completed save: the buffer is clean again and the status
/// line reports how many bytes went to disk.
pub fn mark_saved(config: &mut EditorConfig, bytes: usize, now: u64)
    ensures
        *final(config) == (EditorConfig {
            status_msg: final(config).status_msg,
            status_msg_time: now,
            dirty: false,
            ..*old(config)
        }),
        final(config).status_msg@ == crate::draw::dec_digits(bytes as nat) + saved_msg_tail(),
{
    let mut msg: Vec<char> = Vec::new();
    crate::draw::push_decimal(&mut msg, bytes);
    crate::draw::push_str_chars(&mut msg, " bytes written to disk");
    config.status_msg = msg;
    config.status_msg_time = now;
    config.dirty = false;
}

/// Text that follows the byte count in the saved-file status message.
pub open spec fn saved_msg_tail() -> Seq<char> {
    " bytes written to disk"@
}

/// Value snapshot of cursor and scroll state, taken before a search so
/// that cancelling restores the view.
#[derive(Clone, Copy, PartialEq, Eq, Structural, Debug)]
pub struct CursorSnapshot {
    pub cx: usize,
    pub cy: usize,
    pub col_off: usize,
    pub row_off: usize,
}

/// Captures the cursor and scroll state.
pub fn cursor_snapshot(config: &EditorConfig) -> (s: CursorSnapshot)
    ensures
        s.cx == config.cx,
        s.cy == config.cy,
        s.col_off == config.col_off,
        s.row_off == config.row_off,
{
    CursorSnapshot { cx: config.cx, cy: config.cy, col_off: config.col_off, row_off: config.row_off }
}

/// Puts the cursor and scroll state back as a snapshot recorded it.
pub fn restore_cursor(config: &mut EditorConfig, s: CursorSnapshot)
    requires
        s.cy <= old(config).rows@.len(),
        s.cy < old(config).rows@.len() ==> s.cx <= old(config).rows@[s.cy as int].content@.len(),
        s.cy == old(config).rows@.len() ==> s.cx == 0,
    ensures
        *final(config) == (EditorConfig {
            cx: s.cx,
            cy: s.cy,
            col_off: s.col_off,
            row_off: s.row_off,
            ..*old(config)
        }),
        cursor_wf(*final(config)),
{
    config.cx = s.cx;
    config.cy = s.cy;
    config.col_off = s.col_off;
    config.row_off = s.row_off;
}

} // verus!
