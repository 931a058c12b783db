//! Character-level edit operations: insert, newline split, delete/join.

use vstd::prelude::*;

use crate::editor::{config_wf, contents_of, insert_row, EditorConfig};
use crate::row::{row_append_string, row_del_char, row_insert_char};

verus! {

/// Row contents after a character is inserted at cursor `(cy, cx)`: on
/// the virtual row past the end a one-character row appears.
pub open spec fn insert_char_contents(cs: Seq<Seq<char>>, cy: int, cx: int, c: char) -> Seq<
    Seq<char>,
> {
    if cy == cs.len() {
        cs.push(seq![c])
    } else {
        cs.update(cy, cs[cy].insert(cx, c))
    }
}

/// Row contents after a newline at cursor `(cy, cx)`: an empty row
/// before the current one at column 0, otherwise the row split at the
/// cursor.
pub open spec fn insert_newline_contents(cs: Seq<Seq<char>>, cy: int, cx: int) -> Seq<Seq<char>> {
    if cx == 0 {
        cs.insert(cy, Seq::empty())
    } else {
        cs.update(cy, cs[cy].take(cx)).insert(cy + 1, cs[cy].skip(cx))
    }
}

/// Whether a delete at cursor `(cy, cx)` changes anything: not on the
/// virtual row past the end and not at the very start of the buffer.
pub open spec fn del_char_changes(cs: Seq<Seq<char>>, cy: int, cx: int) -> bool {
    cy < cs.len() && !(cx == 0 && cy == 0)
}

/// Row contents, cursor row and cursor column after a delete at cursor
/// `(cy, cx)`: one character removed left of the cursor, or the row
/// joined onto its predecessor at column 0.
pub open spec fn del_char_result(cs: Seq<Seq<char>>, cy: int, cx: int) -> (
    Seq<Seq<char>>,
    int,
    int,
) {
    if !del_char_changes(cs, cy, cx) {
        (cs, cy, cx)
    } else if cx > 0 {
        (cs.update(cy, cs[cy].remove(cx - 1)), cy, cx - 1)
    } else {
        (cs.update(cy - 1, cs[cy - 1] + cs[cy]).remove(cy), cy - 1, cs[cy - 1].len() as int)
    }
}

/// Inserts `c` at the cursor and advances the cursor one column; on the
/// virtual row past the end an empty row is appended first.  Marks the
/// buffer dirty.
pub fn insert_char(config: &mut EditorConfig, c: char)
    requires
        config_wf(*old(config)),
    ensures
        config_wf(*final(config)),
        final(config).cx == old(config).cx + 1,
        *final(config) == (EditorConfig {
            rows: final(config).rows,
            cx: final(config).cx,
            dirty: true,
            ..*old(config)
        }),
        contents_of(final(config).rows@) == insert_char_contents(
            contents_of(old(config).rows@),
            old(config).cy as int,
            old(config).cx as int,
            c,
        ),
{
    let cy = config.cy;
    let cx = config.cx;
    let ghost cs = contents_of(config.rows@);
    if cy == config.rows.len() {
        let appended = insert_row(config, cy, Vec::new());
        proof {
            assert(appended is Ok);
        }
    }
    row_insert_char(&config.syntax, &mut config.rows[cy], cx, c);
    let _new_len: usize = config.rows[cy].content.len();
    config.cx = cx + 1;
    config.dirty = true;
    proof {
        if cy == cs.len() {
            assert(contents_of(config.rows@) =~~= cs.push(seq![c]));
        } else {
            assert(contents_of(config.rows@) =~~= cs.update(
                cy as int,
                cs[cy as int].insert(cx as int, c),
            ));
        }
    }
}

/// Splits the current row at the cursor: the row keeps the text left of
/// the cursor, a new row directly after it receives the rest, and the
/// cursor moves to the start of that new row.  At column 0 an empty row
/// is inserted before the current one instead.  Marks the buffer dirty.
pub fn insert_newline(config: &mut EditorConfig)
    requires
        config_wf(*old(config)),
    ensures
        config_wf(*final(config)),
        final(config).cy == old(config).cy + 1,
        final(config).cx == 0,
        *final(config) == (EditorConfig {
            rows: final(config).rows,
            cx: 0,
            cy: final(config).cy,
            dirty: true,
            ..*old(config)
        }),
        contents_of(final(config).rows@) == insert_newline_contents(
            contents_of(old(config).rows@),
            old(config).cy as int,
            old(config).cx as int,
        ),
{
    let cy = config.cy;
    let cx = config.cx;
    let _nrows: usize = config.rows.len();
    let ghost cs = contents_of(config.rows@);
    if cx == 0 {
        let inserted = insert_row(config, cy, Vec::new());
        proof {
            assert(inserted is Ok);
            assert(contents_of(config.rows@) =~~= cs.insert(cy as int, Seq::empty()));
        }
    } else {
        let tail = config.rows[cy].content.split_off(cx);
        crate::row::update_row(&config.syntax, &mut config.rows[cy]);
        let inserted = insert_row(config, cy + 1, tail);
        proof {
            assert(inserted is Ok);
            assert(contents_of(config.rows@) =~~= cs.update(
                cy as int,
                cs[cy as int].take(cx as int),
            ).insert(cy as int + 1, cs[cy as int].skip(cx as int)));
        }
    }
    let _nrows_after: usize = config.rows.len();
    config.cy = cy + 1;
    config.cx = 0;
    config.dirty = true;
}

/// Deletes the character left of the cursor.  At column 0 of a row other
/// than the first, the row is joined onto the end of the previous row
/// and the cursor lands at the join.  At the very start of the buffer,
/// or on the virtual row past the end, nothing happens.
pub fn del_char(config: &mut EditorConfig)
    requires
        config_wf(*old(config)),
    ensures
        config_wf(*final(config)),
        !del_char_changes(
            contents_of(old(config).rows@),
            old(config).cy as int,
            old(config).cx as int,
        ) ==> *final(config) == *old(config),
        del_char_changes(
            contents_of(old(config).rows@),
            old(config).cy as int,
            old(config).cx as int,
        ) ==> {
            let r = del_char_result(
                contents_of(old(config).rows@),
                old(config).cy as int,
                old(config).cx as int,
            );
            &&& contents_of(final(config).rows@) == r.0
            &&& final(config).cy == r.1
            &&& final(config).cx == r.2
            &&& *final(config) == (EditorConfig {
                rows: final(config).rows,
                cx: final(config).cx,
                cy: final(config).cy,
                dirty: true,
                ..*old(config)
            })
        },
{
    let cy = config.cy;
    let cx = config.cx;
    let ghost cs = contents_of(config.rows@);
    if cy == config.rows.len() {
        return ;
    }
    if cx == 0 && cy == 0 {
        return ;
    }
    if cx > 0 {
        row_del_char(&config.syntax, &mut config.rows[cy], cx - 1);
        config.cx = cx - 1;
        config.dirty = true;
        proof {
            assert(contents_of(config.rows@) =~~= cs.update(
                cy as int,
                cs[cy as int].remove(cx as int - 1),
            ));
        }
    } else {
        let prev_len: usize = config.rows[cy - 1].content.len();
        let removed = config.rows.remove(cy);
        row_append_string(&config.syntax, &mut config.rows[cy - 1], removed.content);
        config.cx = prev_len;
        config.cy = cy - 1;
        config.dirty = true;
        proof {
            assert(contents_of(config.rows@) =~~= cs.update(
                cy as int - 1,
                cs[cy as int - 1] + cs[cy as int],
            ).remove(cy as int));
        }
    }
}

} // verus!
