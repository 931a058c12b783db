//! Viewport control: keep the cursor inside the visible grid and cut
//! out the slice of a row that the grid shows.

use vstd::prelude::*;

use crate::editor::{config_wf, EditorConfig};
use crate::row::{cx_to_rx_spec, row_cx_to_rx, Row};
use crate::syntax::Highlight;

verus! {

/// Render column of the cursor: the projection of `cx` onto the current
/// row, or 0 on the virtual row past the end.
pub open spec fn cursor_rx_spec(c: EditorConfig) -> int {
    if c.cy < c.rows@.len() {
        cx_to_rx_spec(c.rows@[c.cy as int].content@, c.cx as int)
    } else {
        0
    }
}

/// Minimal scroll adjustment of one offset: moved just enough to put
/// `pos` inside a window of `size` cells starting at the offset.
pub open spec fn clamp_offset(off: int, pos: int, size: int) -> int {
    if pos < off {
        pos
    } else if pos >= off + size {
        pos - size + 1
    } else {
        off
    }
}

/// Recomputes the cursor's render column and moves each scroll offset by
/// exactly the amount needed to bring the cursor back into view.  After
/// the call the cursor lies inside the viewport.
pub fn scroll(config: &mut EditorConfig)
    requires
        config_wf(*old(config)),
    ensures
        config_wf(*final(config)),
        final(config).rx == cursor_rx_spec(*old(config)),
        final(config).row_off == clamp_offset(
            old(config).row_off as int,
            old(config).cy as int,
            old(config).screen_rows as int,
        ),
        final(config).col_off == clamp_offset(
            old(config).col_off as int,
            final(config).rx as int,
            old(config).screen_cols as int,
        ),
        *final(config) == (EditorConfig {
            rx: final(config).rx,
            row_off: final(config).row_off,
            col_off: final(config).col_off,
            ..*old(config)
        }),
        final(config).row_off <= final(config).cy,
        final(config).cy < final(config).row_off + final(config).screen_rows,
        final(config).col_off <= final(config).rx,
        final(config).rx < final(config).col_off + final(config).screen_cols,
{
    let cy = config.cy;
    let rx = if cy < config.rows.len() {
        let cx = config.cx;
        row_cx_to_rx(&config.rows[cy], cx)
    } else {
        0
    };
    config.rx = rx;
    if cy < config.row_off {
        config.row_off = cy;
    }
    if cy - config.row_off >= config.screen_rows {
        config.row_off = (cy - config.screen_rows) + 1;
    }
    if rx < config.col_off {
        config.col_off = rx;
    }
    if rx - config.col_off >= config.screen_cols {
        config.col_off = (rx - config.screen_cols) + 1;
    }
}

/// Length of the visible window into a row of length `len`, seen from
/// offset `off` with `width` columns.
pub open spec fn win_len(len: int, off: int, width: int) -> int {
    if off >= len {
        0
    } else if len - off < width {
        len - off
    } else {
        width
    }
}

/// The part of `s` that a window of `width` cells starting at `off`
/// shows.
pub open spec fn slice_window<T>(s: Seq<T>, off: int, width: int) -> Seq<T> {
    if off >= s.len() {
        Seq::empty()
    } else {
        s.subrange(off, off + win_len(s.len() as int, off, width))
    }
}

/// The viewport's slice of one row: the render text from `col_off`, at
/// most `width` columns, with the matching slice of the classification.
pub fn visible_slice(row: &Row, col_off: usize, width: usize) -> (r: (Vec<char>, Vec<Highlight>))
    requires
        row.hl@.len() == row.render@.len(),
    ensures
        r.0@ == slice_window(row.render@, col_off as int, width as int),
        r.1@ == slice_window(row.hl@, col_off as int, width as int),
{
    let rsize = row.render.len();
    if col_off >= rsize {
        return (Vec::new(), Vec::new());
    }
    let len = if rsize - col_off < width {
        rsize - col_off
    } else {
        width
    };
    let mut text: Vec<char> = Vec::new();
    let mut tags: Vec<Highlight> = Vec::new();
    proof {
        assert(Seq::<char>::empty() =~= row.render@.subrange(col_off as int, col_off as int));
        assert(Seq::<Highlight>::empty() =~= row.hl@.subrange(col_off as int, col_off as int));
    }
    let mut j: usize = 0;
    while j < len
        invariant
            j <= len,
            len == win_len(row.render@.len() as int, col_off as int, width as int),
            col_off + len <= row.render@.len(),
            col_off + len <= usize::MAX,
            row.hl@.len() == row.render@.len(),
            text@ == row.render@.subrange(col_off as int, col_off + j),
            tags@ == row.hl@.subrange(col_off as int, col_off + j),
        decreases len - j,
    {
        text.push(row.render[col_off + j]);
        tags.push(row.hl[col_off + j]);
        j = j + 1;
        proof {
            assert(text@ =~= row.render@.subrange(col_off as int, col_off + j));
            assert(tags@ =~= row.hl@.subrange(col_off as int, col_off + j));
        }
    }
    (text, tags)
}

} // verus!
