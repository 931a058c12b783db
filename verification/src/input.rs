//! Decoded input events and what the engine does with them.

use vstd::prelude::*;

use crate::edit::{
    del_char, del_char_changes, del_char_result, insert_char, insert_char_contents,
    insert_newline, insert_newline_contents,
};
use crate::editor::{config_wf, contents_of, set_status_msg, EditorConfig, QUIT_TIMES};

verus! {

/// Cursor motion keys.
#[derive(Clone, Copy, PartialEq, Eq, Structural, Debug)]
pub enum ArrowKey {
    Left,
    Right,
    Up,
    Down,
}

/// Cursor after one motion, before the end-of-row snap: left and right
/// wrap across row ends, up and down keep the column.
pub open spec fn move_step(cs: Seq<Seq<char>>, cy: int, cx: int, key: ArrowKey) -> (int, int) {
    match key {
        ArrowKey::Left => if cx != 0 {
            (cy, cx - 1)
        } else if cy > 0 {
            (cy - 1, cs[cy - 1].len() as int)
        } else {
            (cy, cx)
        },
        ArrowKey::Right => if cy < cs.len() && cx < cs[cy].len() {
            (cy, cx + 1)
        } else if cy < cs.len() && cx == cs[cy].len() {
            (cy + 1, 0)
        } else {
            (cy, cx)
        },
        ArrowKey::Up => if cy != 0 {
            (cy - 1, cx)
        } else {
            (cy, cx)
        },
        ArrowKey::Down => if cy < cs.len() {
            (cy + 1, cx)
        } else {
            (cy, cx)
        },
    }
}

/// The end-of-row snap: a column past the end of the cursor's row clamps
/// to the row's end, and to 0 on the virtual row past the last.
pub open spec fn snap_cx(cs: Seq<Seq<char>>, cy: int, cx: int) -> int {
    if cy == cs.len() {
        0
    } else if cx > cs[cy].len() {
        cs[cy].len() as int
    } else {
        cx
    }
}

/// Cursor after one motion key: a step, then the end-of-row snap.
pub open spec fn move_cursor_spec(cs: Seq<Seq<char>>, cy: int, cx: int, key: ArrowKey) -> (
    int,
    int,
) {
    let s = move_step(cs, cy, cx, key);
    (s.0, snap_cx(cs, s.0, s.1))
}

/// Cursor after `n` repetitions of one motion key.
pub open spec fn move_n(cs: Seq<Seq<char>>, cy: int, cx: int, key: ArrowKey, n: nat) -> (int, int)
    decreases n,
{
    if n == 0 {
        (cy, cx)
    } else {
        let p = move_n(cs, cy, cx, key, (n - 1) as nat);
        move_cursor_spec(cs, p.0, p.1, key)
    }
}

/// Moves the cursor one step for a motion key and snaps the column to
/// the end of the row the cursor lands on.
pub fn move_cursor(config: &mut EditorConfig, key: ArrowKey)
    requires
        config_wf(*old(config)),
    ensures
        config_wf(*final(config)),
        *final(config) == (EditorConfig {
            cx: final(config).cx,
            cy: final(config).cy,
            ..*old(config)
        }),
        (final(config).cy as int, final(config).cx as int) == move_cursor_spec(
            contents_of(old(config).rows@),
            old(config).cy as int,
            old(config).cx as int,
            key,
        ),
{
    let cy = config.cy;
    let cx = config.cx;
    let nrows = config.rows.len();
    match key {
        ArrowKey::Left => {
            if cx != 0 {
                config.cx = cx - 1;
            } else if cy > 0 {
                config.cy = cy - 1;
                config.cx = config.rows[cy - 1].content.len();
            }
        },
        ArrowKey::Right => {
            if cy < nrows {
                let rl = config.rows[cy].content.len();
                if cx < rl {
                    config.cx = cx + 1;
                } else if cx == rl {
                    config.cy = cy + 1;
                    config.cx = 0;
                }
            }
        },
        ArrowKey::Up => {
            if cy != 0 {
                config.cy = cy - 1;
            }
        },
        ArrowKey::Down => {
            if cy < nrows {
                config.cy = cy + 1;
            }
        },
    }
    let ny = config.cy;
    if ny == nrows {
        config.cx = 0;
    } else {
        let rl = config.rows[ny].content.len();
        if config.cx > rl {
            config.cx = rl;
        }
    }
}

/// A decoded input event the engine consumes.
#[derive(Clone, Copy, PartialEq, Eq, Structural, Debug)]
pub enum EditorKey {
    /// A cursor motion key.
    Arrow(ArrowKey),
    /// One screen up.
    PageUp,
    /// One screen down.
    PageDown,
    /// Start of the row.
    Home,
    /// End of the row.
    End,
    /// Split the row at the cursor.
    Enter,
    /// Delete left of the cursor.
    Backspace,
    /// Ask to leave the editor.
    Quit,
    /// Ask to save the buffer.
    Save,
    /// Ask to search the buffer.
    Find,
    /// Type one character.
    Insert(char),
    /// Anything else; ignored.
    Other,
}

/// What the caller must do after a key was processed.
#[derive(Clone, Copy, PartialEq, Eq, Structural, Debug)]
pub enum KeyOutcome {
    /// Nothing; the engine already did the work.
    Continue,
    /// The quit was refused: the buffer is dirty and the status line now
    /// asks for further confirmations.
    QuitRefused,
    /// Tear down and exit.
    Exit,
    /// Run the save flow.
    Save,
    /// Run the search flow.
    Find,
}

/// The outcome a key leads to, given the dirty flag and the remaining
/// quit confirmations.
pub open spec fn outcome_spec(key: EditorKey, dirty: bool, quit_times: u8) -> KeyOutcome {
    match key {
        EditorKey::Quit => if dirty && quit_times > 0 {
            KeyOutcome::QuitRefused
        } else {
            KeyOutcome::Exit
        },
        EditorKey::Save => KeyOutcome::Save,
        EditorKey::Find => KeyOutcome::Find,
        _ => KeyOutcome::Continue,
    }
}

/// Cursor row a page-up jump starts from: the top visible row, clamped
/// into the buffer.
pub open spec fn page_up_start(c: EditorConfig) -> int {
    if c.row_off <= c.rows@.len() {
        c.row_off as int
    } else {
        c.rows@.len() as int
    }
}

/// Cursor row a page-down jump starts from: the bottom visible row,
/// clamped into the buffer.
pub open spec fn page_down_start(c: EditorConfig) -> int {
    if c.row_off + c.screen_rows - 1 <= c.rows@.len() {
        c.row_off + c.screen_rows - 1
    } else {
        c.rows@.len() as int
    }
}

/// Text of the warning shown when a quit finds unsaved changes, with the
/// number of confirmations still needed.
pub open spec fn quit_warning(q: nat) -> Seq<char> {
    "WARNING!! File has unsaved changes. Press Ctrl-Q "@ + crate::draw::dec_digits(q)
        + " more times to quit."@
}

/// Applies one decoded key to the buffer and reports what is left for
/// the caller: motions move the cursor, edits change the rows and mark
/// the buffer dirty, a quit of a dirty buffer is refused `QUIT_TIMES`
/// times with a warning, and save or search are handed back as outcomes.
/// Every key but a refused quit refills the quit confirmations.
pub fn process_key(config: &mut EditorConfig, key: EditorKey, now: u64) -> (r: KeyOutcome)
    requires
        config_wf(*old(config)),
    ensures
        config_wf(*final(config)),
        r == outcome_spec(key, old(config).dirty, old(config).quit_times),
        match key {
            EditorKey::Arrow(a) => {
                &&& (final(config).cy as int, final(config).cx as int) == move_cursor_spec(
                    contents_of(old(config).rows@),
                    old(config).cy as int,
                    old(config).cx as int,
                    a,
                )
                &&& *final(config) == (EditorConfig {
                    cx: final(config).cx,
                    cy: final(config).cy,
                    quit_times: QUIT_TIMES,
                    ..*old(config)
                })
            },
            EditorKey::PageUp => {
                let cs = contents_of(old(config).rows@);
                let y0 = page_up_start(*old(config));
                let x0 = snap_cx(cs, y0, old(config).cx as int);
                &&& (final(config).cy as int, final(config).cx as int) == move_n(
                    cs,
                    y0,
                    x0,
                    ArrowKey::Up,
                    old(config).screen_rows as nat,
                )
                &&& *final(config) == (EditorConfig {
                    cx: final(config).cx,
                    cy: final(config).cy,
                    quit_times: QUIT_TIMES,
                    ..*old(config)
                })
            },
            EditorKey::PageDown => {
                let cs = contents_of(old(config).rows@);
                let y0 = page_down_start(*old(config));
                let x0 = snap_cx(cs, y0, old(config).cx as int);
                &&& (final(config).cy as int, final(config).cx as int) == move_n(
                    cs,
                    y0,
                    x0,
                    ArrowKey::Down,
                    old(config).screen_rows as nat,
                )
                &&& *final(config) == (EditorConfig {
                    cx: final(config).cx,
                    cy: final(config).cy,
                    quit_times: QUIT_TIMES,
                    ..*old(config)
                })
            },
            EditorKey::Home => *final(config) == (EditorConfig {
                cx: 0,
                quit_times: QUIT_TIMES,
                ..*old(config)
            }),
            EditorKey::End => {
                &&& old(config).cy < old(config).rows@.len() ==> final(config).cx
                    == old(config).rows@[old(config).cy as int].content@.len()
                &&& old(config).cy == old(config).rows@.len() ==> final(config).cx == old(
                    config,
                ).cx
                &&& *final(config) == (EditorConfig {
                    cx: final(config).cx,
                    quit_times: QUIT_TIMES,
                    ..*old(config)
                })
            },
            EditorKey::Enter => {
                &&& contents_of(final(config).rows@) == insert_newline_contents(
                    contents_of(old(config).rows@),
                    old(config).cy as int,
                    old(config).cx as int,
                )
                &&& final(config).cy == old(config).cy + 1
                &&& final(config).cx == 0
                &&& *final(config) == (EditorConfig {
                    rows: final(config).rows,
                    cx: 0,
                    cy: final(config).cy,
                    dirty: true,
                    quit_times: QUIT_TIMES,
                    ..*old(config)
                })
            },
            EditorKey::Backspace => {
                let cs = contents_of(old(config).rows@);
                let cy = old(config).cy as int;
                let cx = old(config).cx as int;
                &&& !del_char_changes(cs, cy, cx) ==> *final(config) == (EditorConfig {
                    quit_times: QUIT_TIMES,
                    ..*old(config)
                })
                &&& del_char_changes(cs, cy, cx) ==> {
                    let res = del_char_result(cs, cy, cx);
                    &&& contents_of(final(config).rows@) == res.0
                    &&& final(config).cy == res.1
                    &&& final(config).cx == res.2
                    &&& *final(config) == (EditorConfig {
                        rows: final(config).rows,
                        cx: final(config).cx,
                        cy: final(config).cy,
                        dirty: true,
                        quit_times: QUIT_TIMES,
                        ..*old(config)
                    })
                }
            },
            EditorKey::Insert(c) => {
                &&& contents_of(final(config).rows@) == insert_char_contents(
                    contents_of(old(config).rows@),
                    old(config).cy as int,
                    old(config).cx as int,
                    c,
                )
                &&& final(config).cx == old(config).cx + 1
                &&& *final(config) == (EditorConfig {
                    rows: final(config).rows,
                    cx: final(config).cx,
                    dirty: true,
                    quit_times: QUIT_TIMES,
                    ..*old(config)
                })
            },
            EditorKey::Quit => {
                &&& old(config).dirty && old(config).quit_times > 0 ==> {
                    &&& final(config).status_msg@ == quit_warning(old(config).quit_times as nat)
                    &&& *final(config) == (EditorConfig {
                        status_msg: final(config).status_msg,
                        status_msg_time: now,
                        quit_times: (old(config).quit_times - 1) as u8,
                        ..*old(config)
                    })
                }
                &&& !(old(config).dirty && old(config).quit_times > 0) ==> *final(config) == *old(
                    config,
                )
            },
            EditorKey::Save => *final(config) == (EditorConfig {
                quit_times: QUIT_TIMES,
                ..*old(config)
            }),
            EditorKey::Find => *final(config) == (EditorConfig {
                quit_times: QUIT_TIMES,
                ..*old(config)
            }),
            EditorKey::Other => *final(config) == (EditorConfig {
                quit_times: QUIT_TIMES,
                ..*old(config)
            }),
        },
{
    match key {
        EditorKey::Arrow(a) => {
            move_cursor(config, a);
        },
        EditorKey::PageUp => {
            let nrows = config.rows.len();
            let y0 = if config.row_off <= nrows {
                config.row_off
            } else {
                nrows
            };
            config.cy = y0;
            snap_cursor(config);
            page_moves(config, ArrowKey::Up);
        },
        EditorKey::PageDown => {
            let nrows = config.rows.len();
            let y0 = if config.row_off >= nrows {
                nrows
            } else if nrows - config.row_off <= config.screen_rows - 1 {
                nrows
            } else {
                config.row_off + (config.screen_rows - 1)
            };
            config.cy = y0;
            snap_cursor(config);
            page_moves(config, ArrowKey::Down);
        },
        EditorKey::Home => {
            config.cx = 0;
        },
        EditorKey::End => {
            let cy = config.cy;
            if cy < config.rows.len() {
                config.cx = config.rows[cy].content.len();
            }
        },
        EditorKey::Enter => {
            insert_newline(config);
        },
        EditorKey::Backspace => {
            del_char(config);
        },
        EditorKey::Quit => {
            if config.dirty && config.quit_times > 0 {
                let q = config.quit_times;
                let mut msg: Vec<char> = Vec::new();
                crate::draw::push_str_chars(
                    &mut msg,
                    "WARNING!! File has unsaved changes. Press Ctrl-Q ",
                );
                crate::draw::push_decimal(&mut msg, q as usize);
                crate::draw::push_str_chars(&mut msg, " more times to quit.");
                set_status_msg(config, msg, now);
                config.quit_times = q - 1;
                return KeyOutcome::QuitRefused;
            }
            return KeyOutcome::Exit;
        },
        EditorKey::Save => {
            config.quit_times = QUIT_TIMES;
            return KeyOutcome::Save;
        },
        EditorKey::Find => {
            config.quit_times = QUIT_TIMES;
            return KeyOutcome::Find;
        },
        EditorKey::Insert(c) => {
            insert_char(config, c);
        },
        EditorKey::Other => {
        },
    }
    config.quit_times = QUIT_TIMES;
    KeyOutcome::Continue
}

/// Snaps the cursor column to the end of the row it sits on, after the
/// cursor row was set directly.
fn snap_cursor(config: &mut EditorConfig)
    requires
        crate::editor::rows_wf(*old(config)),
        crate::editor::screen_wf(*old(config)),
        old(config).cy <= old(config).rows@.len(),
    ensures
        config_wf(*final(config)),
        final(config).cx as int == snap_cx(
            contents_of(old(config).rows@),
            old(config).cy as int,
            old(config).cx as int,
        ),
        *final(config) == (EditorConfig { cx: final(config).cx, ..*old(config) }),
{
    let cy = config.cy;
    if cy == config.rows.len() {
        config.cx = 0;
    } else {
        let rl = config.rows[cy].content.len();
        if config.cx > rl {
            config.cx = rl;
        }
    }
}

/// One screen's worth of repeated cursor motion, for the page keys.
fn page_moves(config: &mut EditorConfig, key: ArrowKey)
    requires
        config_wf(*old(config)),
    ensures
        config_wf(*final(config)),
        (final(config).cy as int, final(config).cx as int) == move_n(
            contents_of(old(config).rows@),
            old(config).cy as int,
            old(config).cx as int,
            key,
            old(config).screen_rows as nat,
        ),
        *final(config) == (EditorConfig {
            cx: final(config).cx,
            cy: final(config).cy,
            ..*old(config)
        }),
{
    let times = config.screen_rows;
    let mut k: usize = 0;
    while k < times
        invariant
            k <= times,
            config_wf(*config),
            times == old(config).screen_rows,
            (config.cy as int, config.cx as int) == move_n(
                contents_of(old(config).rows@),
                old(config).cy as int,
                old(config).cx as int,
                key,
                k as nat,
            ),
            *config == (EditorConfig { cx: config.cx, cy: config.cy, ..*old(config) }),
        decreases times - k,
    {
        move_cursor(config, key);
        k = k + 1;
    }
}

/// Keys that drive a status-line prompt.
#[derive(Clone, Copy, PartialEq, Eq, Structural, Debug)]
pub enum PromptKey {
    /// Type one character into the prompt.
    Char(char),
    /// Drop the last character.
    Backspace,
    /// Submit the prompt text.
    Enter,
    /// Abort the prompt.
    Esc,
    /// Anything else; ignored.
    Other,
}

/// What a prompt keystroke led to.
#[derive(Clone, Copy, PartialEq, Eq, Structural, Debug)]
pub enum PromptOutcome {
    /// Keep prompting.
    Pending,
    /// The prompt text stands; use it.
    Submit,
    /// The prompt was aborted.
    Cancel,
}

/// A control character: the two control ranges around printable ASCII.
pub open spec fn is_control_spec(c: char) -> bool {
    (c as u32) < 0x20 || (0x7f <= c as u32 <= 0x9f)
}

/// One keystroke of a status-line prompt: printable characters extend
/// the text, backspace shortens it, enter submits it once it is not
/// empty, and escape cancels.
pub fn prompt_step(buf: &mut Vec<char>, key: PromptKey) -> (r: PromptOutcome)
    ensures
        match key {
            PromptKey::Char(c) => r == PromptOutcome::Pending && final(buf)@ == if is_control_spec(
                c,
            ) {
                old(buf)@
            } else {
                old(buf)@.push(c)
            },
            PromptKey::Backspace => r == PromptOutcome::Pending && final(buf)@ == if old(
                buf,
            )@.len() > 0 {
                old(buf)@.drop_last()
            } else {
                old(buf)@
            },
            PromptKey::Enter => final(buf)@ == old(buf)@ && r == if old(buf)@.len() > 0 {
                PromptOutcome::Submit
            } else {
                PromptOutcome::Pending
            },
            PromptKey::Esc => final(buf)@ == old(buf)@ && r == PromptOutcome::Cancel,
            PromptKey::Other => final(buf)@ == old(buf)@ && r == PromptOutcome::Pending,
        },
{
    match key {
        PromptKey::Char(c) => {
            let u = c as u32;
            if !(u < 0x20 || (0x7f <= u && u <= 0x9f)) {
                buf.push(c);
            }
            PromptOutcome::Pending
        },
        PromptKey::Backspace => {
            if buf.len() > 0 {
                let _last = buf.pop();
            }
            proof {
                if old(buf)@.len() > 0 {
                    assert(buf@ =~= old(buf)@.drop_last());
                }
            }
            PromptOutcome::Pending
        },
        PromptKey::Enter => {
            if buf.len() > 0 {
                PromptOutcome::Submit
            } else {
                PromptOutcome::Pending
            }
        },
        PromptKey::Esc => PromptOutcome::Cancel,
        PromptKey::Other => PromptOutcome::Pending,
    }
}

} // verus!
