//! Builds the styled text a renderer paints: screen rows, status bar and
//! message bar, plus small helpers for assembling character buffers.

use vstd::prelude::*;
use vstd::string::StrSliceExecFns;

use crate::editor::{rows_wf, EditorConfig};
use crate::row::{row_wf, spaces, Row};
use crate::scroll::{slice_window, visible_slice};
use crate::syntax::{color_spec, lemma_hl_spec_len, numbers_of, Highlight};

verus! {

/// The character of a single decimal digit.
pub open spec fn digit_char_spec(d: int) -> char {
    if d == 0 {
        '0'
    } else if d == 1 {
        '1'
    } else if d == 2 {
        '2'
    } else if d == 3 {
        '3'
    } else if d == 4 {
        '4'
    } else if d == 5 {
        '5'
    } else if d == 6 {
        '6'
    } else if d == 7 {
        '7'
    } else if d == 8 {
        '8'
    } else {
        '9'
    }
}

/// Decimal digits of `n`, most significant first.
pub open spec fn dec_digits(n: nat) -> Seq<char>
    decreases n,
{
    if n < 10 {
        seq![digit_char_spec(n as int)]
    } else {
        dec_digits(n / 10).push(digit_char_spec((n % 10) as int))
    }
}

fn digit_char(d: usize) -> (c: char)
    requires
        d < 10,
    ensures
        c == digit_char_spec(d as int),
{
    match d {
        0 => '0',
        1 => '1',
        2 => '2',
        3 => '3',
        4 => '4',
        5 => '5',
        6 => '6',
        7 => '7',
        8 => '8',
        _ => '9',
    }
}

/// Appends the decimal digits of `n`.
pub fn push_decimal(buf: &mut Vec<char>, n: usize)
    ensures
        final(buf)@ == old(buf)@ + dec_digits(n as nat),
    decreases n,
{
    if n >= 10 {
        push_decimal(buf, n / 10);
    }
    buf.push(digit_char(n % 10));
    assert(buf@ =~= old(buf)@ + dec_digits(n as nat));
}

/// A fresh vector with the same characters as `src`.
pub fn copy_chars(src: &Vec<char>) -> (v: Vec<char>)
    ensures
        v@ == src@,
{
    let mut v: Vec<char> = Vec::new();
    let mut i: usize = 0;
    while i < src.len()
        invariant
            i <= src@.len(),
            v@ == src@.take(i as int),
        decreases src@.len() - i,
    {
        v.push(src[i]);
        i = i + 1;
        assert(v@ =~= src@.take(i as int));
    }
    assert(src@.take(src@.len() as int) =~= src@);
    v
}

/// The characters of a string slice, one vector entry each.
pub fn chars_of_str(s: &str) -> (v: Vec<char>)
    ensures
        v@ == s@,
{
    let n = s.unicode_len();
    let mut v: Vec<char> = Vec::new();
    let mut i: usize = 0;
    while i < n
        invariant
            i <= n,
            n == s@.len(),
            v@ == s@.take(i as int),
        decreases n - i,
    {
        v.push(s.get_char(i));
        i = i + 1;
        assert(v@ =~= s@.take(i as int));
    }
    assert(s@.take(n as int) =~= s@);
    v
}

/// Appends every character of `src`.
pub fn push_all(buf: &mut Vec<char>, src: &Vec<char>)
    ensures
        final(buf)@ == old(buf)@ + src@,
{
    let mut v = copy_chars(src);
    buf.append(&mut v);
}

/// Appends every character of a string slice.
pub fn push_str_chars(buf: &mut Vec<char>, s: &str)
    ensures
        final(buf)@ == old(buf)@ + s@,
{
    let mut v = chars_of_str(s);
    buf.append(&mut v);
}

/// A fresh vector of `n` spaces.
pub fn spaces_vec(n: usize) -> (v: Vec<char>)
    ensures
        v@ == spaces(n as nat),
{
    let mut v: Vec<char> = Vec::new();
    let mut k: usize = 0;
    while k < n
        invariant
            k <= n,
            v@ == spaces(k as nat),
        decreases n - k,
    {
        v.push(' ');
        k = k + 1;
        assert(v@ =~= spaces(k as nat));
    }
    v
}

/// Escape sequence that restores the default foreground color.
pub open spec fn esc_reset_color() -> Seq<char> {
    seq!['\x1b', '[', '3', '9', 'm']
}

/// Escape sequence that selects foreground color `c`.
pub open spec fn esc_color(c: u8) -> Seq<char> {
    seq!['\x1b', '['] + dec_digits(c as nat) + seq!['m']
}

fn push_reset_color(v: &mut Vec<char>)
    ensures
        final(v)@ == old(v)@ + esc_reset_color(),
{
    v.push('\x1b');
    v.push('[');
    v.push('3');
    v.push('9');
    v.push('m');
    assert(v@ =~= old(v)@ + esc_reset_color());
}

fn push_color(v: &mut Vec<char>, c: u8)
    ensures
        final(v)@ == old(v)@ + esc_color(c),
{
    v.push('\x1b');
    v.push('[');
    push_decimal(v, c as usize);
    v.push('m');
    assert(v@ =~= old(v)@ + esc_color(c));
}

/// The styled text from column `j` of a visible slice on, entered with
/// the terminal's color set to `cc` (0 is the default color): a color
/// change emits an escape sequence, a normal column after a colored one
/// emits the reset sequence, and every column emits its character.
pub open spec fn styled_from(s: Seq<char>, h: Seq<Highlight>, j: int, cc: int) -> Seq<char>
    decreases s.len() - j,
{
    if j < 0 || j >= s.len() {
        Seq::empty()
    } else if h[j] == Highlight::Normal {
        (if cc != 0 {
            esc_reset_color()
        } else {
            Seq::empty()
        }) + seq![s[j]] + styled_from(s, h, j + 1, 0)
    } else {
        (if color_spec(h[j]) != cc {
            esc_color(color_spec(h[j]))
        } else {
            Seq::empty()
        }) + seq![s[j]] + styled_from(s, h, j + 1, color_spec(h[j]) as int)
    }
}

/// The styled form of a row's visible slice, closed by the color reset.
pub open spec fn styled_row(render: Seq<char>, hl: Seq<Highlight>, col_off: int, width: int) -> Seq<
    char,
> {
    styled_from(
        slice_window(render, col_off, width),
        slice_window(hl, col_off, width),
        0,
        0,
    ) + esc_reset_color()
}

/// Builds the styled text of a row's visible slice.
fn style_row(row: &Row, col_off: usize, width: usize) -> (v: Vec<char>)
    requires
        row.hl@.len() == row.render@.len(),
    ensures
        v@ == styled_row(row.render@, row.hl@, col_off as int, width as int),
{
    let (text, tags) = visible_slice(row, col_off, width);
    let ghost s = text@;
    let ghost h = tags@;
    let mut v: Vec<char> = Vec::new();
    let mut cc: u8 = 0;
    let mut j: usize = 0;
    while j < text.len()
        invariant
            j <= text@.len(),
            text@ == s,
            tags@ == h,
            h.len() == s.len(),
            styled_from(s, h, 0, 0) == v@ + styled_from(s, h, j as int, cc as int),
            j == 0 ==> cc == 0,
            j > 0 ==> (if h[j - 1] == Highlight::Normal {
                cc == 0
            } else {
                cc == color_spec(h[j - 1])
            }),
        decreases text@.len() - j,
    {
        let c = text[j];
        let tag = tags[j];
        let ghost cc0 = cc as int;
        match tag {
            Highlight::Normal => {
                if cc != 0 {
                    push_reset_color(&mut v);
                    cc = 0;
                }
                v.push(c);
            },
            Highlight::Number => {
                let color = tag.to_color();
                if color != cc {
                    cc = color;
                    push_color(&mut v, color);
                }
                v.push(c);
            },
        }
        j = j + 1;
        proof {
            assert(styled_from(s, h, j - 1, cc0) == (if h[j - 1] == Highlight::Normal {
                (if cc0 != 0 {
                    esc_reset_color()
                } else {
                    Seq::empty()
                }) + seq![s[j - 1]] + styled_from(s, h, j as int, 0)
            } else {
                (if color_spec(h[j - 1]) != cc0 {
                    esc_color(color_spec(h[j - 1]))
                } else {
                    Seq::empty()
                }) + seq![s[j - 1]] + styled_from(s, h, j as int, color_spec(h[j - 1]) as int)
            }));
            assert(styled_from(s, h, 0, 0) =~= v@ + styled_from(s, h, j as int, cc as int));
        }
    }
    push_reset_color(&mut v);
    proof {
        assert(v@ =~= styled_row(row.render@, row.hl@, col_off as int, width as int));
    }
    v
}

/// Greeting shown in an empty buffer.
pub open spec fn welcome_text() -> Seq<char> {
    "Kilo-rs editor -- version 0.1.1"@
}

/// The greeting line: a tilde, padding that centres the greeting, then
/// the greeting itself, cut down to the screen width.
pub open spec fn welcome_line(cols: int) -> Seq<char> {
    let w = if welcome_text().len() > cols {
        welcome_text().take(cols)
    } else {
        welcome_text()
    };
    let p = (cols - w.len()) / 2;
    (if p > 0 {
        seq!['~'] + spaces((p - 1) as nat)
    } else {
        Seq::empty()
    }) + w
}

fn welcome_row(cols: usize) -> (v: Vec<char>)
    ensures
        v@ == welcome_line(cols as int),
{
    let mut w = chars_of_str("Kilo-rs editor -- version 0.1.1");
    if w.len() > cols {
        w.truncate(cols);
    }
    let mut v: Vec<char> = Vec::new();
    let padding = (cols - w.len()) / 2;
    if padding > 0 {
        v.push('~');
        let mut sp = spaces_vec(padding - 1);
        v.append(&mut sp);
    }
    v.append(&mut w);
    proof {
        assert(v@ =~= welcome_line(cols as int));
    }
    v
}

/// Both line endings of the painted grid.
pub open spec fn crlf() -> Seq<char> {
    seq!['\r', '\n']
}

/// One line of the painted grid: a styled row slice where the viewport
/// overlaps the document, the greeting in an empty buffer a third of the
/// way down, and a tilde on every other line past the end.
pub open spec fn screen_line(c: EditorConfig, y: int) -> Seq<char> {
    let file_row = y + c.row_off;
    if file_row >= c.rows@.len() {
        (if c.rows@.len() == 0 && y == c.screen_rows as int / 3 {
            welcome_line(c.screen_cols as int)
        } else {
            seq!['~']
        }) + crlf()
    } else {
        styled_row(
            c.rows@[file_row].render@,
            c.rows@[file_row].hl@,
            c.col_off as int,
            c.screen_cols as int,
        ) + crlf()
    }
}

/// The first `n` lines of the painted grid.
pub open spec fn screen_lines(c: EditorConfig, n: int) -> Seq<char>
    decreases n,
{
    if n <= 0 {
        Seq::empty()
    } else {
        screen_lines(c, n - 1) + screen_line(c, n - 1)
    }
}

/// Paints every viewport line into `buf`: the visible slice of each row
/// in its syntax colors, tildes past the end of the document, and the
/// centred greeting while the buffer is empty.
pub fn draw_rows(config: &EditorConfig, buf: &mut Vec<char>)
    requires
        rows_wf(*config),
    ensures
        final(buf)@ == old(buf)@ + screen_lines(*config, config.screen_rows as int),
{
    let mut out: Vec<char> = Vec::new();
    let mut y: usize = 0;
    while y < config.screen_rows
        invariant
            y <= config.screen_rows,
            rows_wf(*config),
            out@ == screen_lines(*config, y as int),
        decreases config.screen_rows - y,
    {
        let nrows = config.rows.len();
        let beyond = config.row_off >= nrows || y >= nrows - config.row_off;
        if beyond {
            if nrows == 0 && y == config.screen_rows / 3 {
                let mut w = welcome_row(config.screen_cols);
                out.append(&mut w);
            } else {
                out.push('~');
            }
        } else {
            let file_row = config.row_off + y;
            proof {
                assert(row_wf(config.rows@[file_row as int], numbers_of(config.syntax)));
                lemma_hl_spec_len(
                    numbers_of(config.syntax),
                    config.rows@[file_row as int].render@,
                );
            }
            let mut styled = style_row(
                &config.rows[file_row],
                config.col_off,
                config.screen_cols,
            );
            out.append(&mut styled);
        }
        out.push('\r');
        out.push('\n');
        y = y + 1;
        proof {
            assert(out@ =~= screen_lines(*config, y as int));
        }
    }
    buf.append(&mut out);
}

/// Text shown in place of a file name before the buffer is bound to one.
pub open spec fn no_name_text() -> Seq<char> {
    "[No Name]"@
}

/// Left half of the status bar: file name, row count, modified marker.
pub open spec fn status_left(c: EditorConfig) -> Seq<char> {
    (match c.filename {
        Some(f) => f@,
        None => no_name_text(),
    }) + " - "@ + dec_digits(c.rows@.len()) + " lines "@ + (if c.dirty {
        "(modified)"@
    } else {
        Seq::empty()
    })
}

/// Right half of the status bar: syntax name and cursor position.
pub open spec fn status_right(c: EditorConfig) -> Seq<char> {
    (match c.syntax {
        Some(s) => s.filetype@,
        None => "no ft"@,
    }) + " | "@ + dec_digits((c.cy + 1) as nat) + "/"@ + dec_digits(c.rows@.len())
}

/// The whole status bar: inverted colors, the left half cut to the
/// screen width, then either padding and the right half where it fits
/// exactly against the right edge, or padding alone.
pub open spec fn statusbar_line(c: EditorConfig) -> Seq<char> {
    let left = status_left(c);
    let lt = if left.len() > c.screen_cols {
        left.take(c.screen_cols as int)
    } else {
        left
    };
    let right = status_right(c);
    let tail = if 1 <= right.len() <= c.screen_cols - lt.len() {
        spaces((c.screen_cols - lt.len() - right.len()) as nat) + right
    } else {
        spaces((c.screen_cols - lt.len()) as nat)
    };
    "\x1b[7m"@ + lt + tail + "\x1b[m"@ + "\r\n"@
}

/// Paints the status bar into `buf`.
pub fn draw_statusbar(config: &EditorConfig, buf: &mut Vec<char>)
    requires
        config.rows@.len() < usize::MAX,
        config.cy <= config.rows@.len(),
    ensures
        final(buf)@ == old(buf)@ + statusbar_line(*config),
{
    let mut out: Vec<char> = Vec::new();
    push_str_chars(&mut out, "\x1b[7m");
    let mut left: Vec<char> = Vec::new();
    match &config.filename {
        Some(f) => push_all(&mut left, f),
        None => push_str_chars(&mut left, "[No Name]"),
    }
    push_str_chars(&mut left, " - ");
    push_decimal(&mut left, config.rows.len());
    push_str_chars(&mut left, " lines ");
    if config.dirty {
        push_str_chars(&mut left, "(modified)");
    }
    proof {
        assert(left@ =~= status_left(*config));
    }
    if left.len() > config.screen_cols {
        left.truncate(config.screen_cols);
    }
    let llen = left.len();
    let mut right: Vec<char> = Vec::new();
    match &config.syntax {
        Some(s) => push_all(&mut right, &s.filetype),
        None => push_str_chars(&mut right, "no ft"),
    }
    push_str_chars(&mut right, " | ");
    push_decimal(&mut right, config.cy + 1);
    push_str_chars(&mut right, "/");
    push_decimal(&mut right, config.rows.len());
    proof {
        assert(right@ =~= status_right(*config));
    }
    let rlen = right.len();
    out.append(&mut left);
    if 1 <= rlen && rlen <= config.screen_cols - llen {
        let mut sp = spaces_vec(config.screen_cols - llen - rlen);
        out.append(&mut sp);
        out.append(&mut right);
    } else {
        let mut sp = spaces_vec(config.screen_cols - llen);
        out.append(&mut sp);
    }
    push_str_chars(&mut out, "\x1b[m");
    push_str_chars(&mut out, "\r\n");
    proof {
        assert(out@ =~= statusbar_line(*config));
    }
    buf.append(&mut out);
}

/// How many seconds a status message stays visible.
pub const MSG_TIMEOUT: u64 = 5;

/// The message bar: the line is cleared, then the status message shows,
/// cut to the screen width, while it is newer than the timeout.
pub open spec fn messagebar_line(c: EditorConfig, now: u64) -> Seq<char> {
    let msg = if c.status_msg@.len() > c.screen_cols {
        c.status_msg@.take(c.screen_cols as int)
    } else {
        c.status_msg@
    };
    "\x1b[K"@ + (if msg.len() > 0 && now >= c.status_msg_time && now - c.status_msg_time
        < MSG_TIMEOUT {
        msg
    } else {
        Seq::empty()
    })
}

/// Paints the message bar into `buf`, `now` being the current clock
/// reading in seconds.
pub fn draw_messagebar(config: &EditorConfig, buf: &mut Vec<char>, now: u64)
    ensures
        final(buf)@ == old(buf)@ + messagebar_line(*config, now),
{
    let mut out: Vec<char> = Vec::new();
    push_str_chars(&mut out, "\x1b[K");
    let msglen = if config.status_msg.len() > config.screen_cols {
        config.screen_cols
    } else {
        config.status_msg.len()
    };
    if msglen > 0 && now >= config.status_msg_time && now - config.status_msg_time < MSG_TIMEOUT {
        let mut m: Vec<char> = Vec::new();
        let mut j: usize = 0;
        while j < msglen
            invariant
                j <= msglen,
                msglen <= config.status_msg@.len(),
                m@ == config.status_msg@.subrange(0, j as int),
            decreases msglen - j,
        {
            m.push(config.status_msg[j]);
            j = j + 1;
            assert(m@ =~= config.status_msg@.subrange(0, j as int));
        }
        out.append(&mut m);
    }
    proof {
        assert(out@ =~= messagebar_line(*config, now));
    }
    buf.append(&mut out);
}

} // verus!
