//! Row data model and the content-column / render-column mapping.

use vstd::prelude::*;

use crate::syntax::{update_syntax, hl_spec, numbers_of, Highlight, Syntax};

verus! {

/// Number of display columns in one tab stop.
pub const TAB_STOP: usize = 8;

/// One text row: the content and the display data derived from it.
pub struct Row {
    /// The row's text, one entry per Unicode scalar value.
    pub content: Vec<char>,
    /// Tab-expanded display text, rebuilt by `update_row`.
    pub render: Vec<char>,
    /// One classification tag per render column, rebuilt by `update_row`.
    pub hl: Vec<Highlight>,
}

/// A run of `n` spaces.
pub open spec fn spaces(n: nat) -> Seq<char> {
    Seq::new(n, |i: int| ' ')
}

/// Display columns a tab starting at render column `rx` occupies:
/// up to the next multiple of `TAB_STOP`, so between 1 and `TAB_STOP`.
pub open spec fn tab_width(rx: int) -> int {
    TAB_STOP - rx % (TAB_STOP as int)
}

/// The tab-expanded display text of `content`: tabs become runs of
/// spaces ending on a tab-stop boundary, all other characters map 1:1.
pub open spec fn render_spec(content: Seq<char>) -> Seq<char>
    decreases content.len(),
{
    if content.len() == 0 {
        Seq::empty()
    } else {
        let prev = render_spec(content.drop_last());
        if content.last() == '\t' {
            prev + spaces(tab_width(prev.len() as int) as nat)
        } else {
            prev.push(content.last())
        }
    }
}

/// Render column of content column `cx`: the width of the expansion of
/// the first `cx` content characters.
pub open spec fn cx_to_rx_spec(content: Seq<char>, cx: int) -> int {
    render_spec(content.take(cx)).len() as int
}

/// The derived fields of `row` agree with its content, `numbers` being
/// the numeric-highlighting state of the active syntax rule.
pub open spec fn row_wf(row: Row, numbers: bool) -> bool {
    &&& row.render@ == render_spec(row.content@)
    &&& row.hl@ == hl_spec(numbers, row.render@)
}

/// Unfolds the expansion one content character at a time, from the left.
pub proof fn lemma_render_step(content: Seq<char>, i: int)
    requires
        0 <= i < content.len(),
    ensures
        render_spec(content.take(i + 1)) == if content[i] == '\t' {
            render_spec(content.take(i)) + spaces(
                tab_width(render_spec(content.take(i)).len() as int) as nat,
            )
        } else {
            render_spec(content.take(i)).push(content[i])
        },
{
    assert(content.take(i + 1).drop_last() =~= content.take(i));
    assert(content.take(i + 1).last() == content[i]);
}

/// Each content character widens the render text by 1 to `TAB_STOP` columns.
pub proof fn lemma_rx_step_bounds(content: Seq<char>, i: int)
    requires
        0 <= i < content.len(),
    ensures
        cx_to_rx_spec(content, i) < cx_to_rx_spec(content, i + 1) <= cx_to_rx_spec(content, i)
            + TAB_STOP,
{
    lemma_render_step(content, i);
}

/// Law: the content-column to render-column mapping is monotonic
/// non-decreasing.
pub proof fn lemma_cx_to_rx_monotonic(content: Seq<char>, cx1: int, cx2: int)
    requires
        0 <= cx1 <= cx2 <= content.len(),
    ensures
        cx_to_rx_spec(content, cx1) <= cx_to_rx_spec(content, cx2),
    decreases cx2 - cx1,
{
    if cx1 < cx2 {
        lemma_rx_step_bounds(content, cx2 - 1);
        lemma_cx_to_rx_monotonic(content, cx1, cx2 - 1);
    }
}

/// The expansion of a prefix of the content is a prefix of the whole
/// expansion.
pub proof fn lemma_render_take_prefix(content: Seq<char>, i: int)
    requires
        0 <= i <= content.len(),
    ensures
        cx_to_rx_spec(content, i) <= render_spec(content).len(),
        render_spec(content.take(i)) == render_spec(content).take(cx_to_rx_spec(content, i)),
    decreases content.len() - i,
{
    if i == content.len() {
        assert(content.take(i) =~= content);
        assert(render_spec(content).take(render_spec(content).len() as int) =~= render_spec(
            content,
        ));
    } else {
        lemma_render_step(content, i);
        lemma_render_take_prefix(content, i + 1);
        let a = render_spec(content.take(i));
        let b = render_spec(content.take(i + 1));
        assert(a == b.take(a.len() as int));
        assert(b.take(a.len() as int) =~= render_spec(content).take(b.len() as int).take(
            a.len() as int,
        ));
        assert(render_spec(content).take(b.len() as int).take(a.len() as int) =~= render_spec(
            content,
        ).take(a.len() as int));
    }
}

/// Law: a tab at content column `i` expands to between 1 and `TAB_STOP`
/// spaces in the render text, ending exactly on a tab-stop boundary.
pub proof fn lemma_tab_expansion(content: Seq<char>, i: int)
    requires
        0 <= i < content.len(),
        content[i] == '\t',
    ensures
        cx_to_rx_spec(content, i + 1) % (TAB_STOP as int) == 0,
        cx_to_rx_spec(content, i) < cx_to_rx_spec(content, i + 1) <= cx_to_rx_spec(content, i)
            + TAB_STOP,
        forall|j: int|
            cx_to_rx_spec(content, i) <= j < cx_to_rx_spec(content, i + 1) ==> render_spec(
                content,
            )[j] == ' ',
{
    lemma_render_step(content, i);
    lemma_render_take_prefix(content, i + 1);
    let a = render_spec(content.take(i));
    let b = render_spec(content.take(i + 1));
    assert(b == a + spaces(tab_width(a.len() as int) as nat));
    assert forall|j: int|
        cx_to_rx_spec(content, i) <= j < cx_to_rx_spec(content, i + 1) implies render_spec(
        content,
    )[j] == ' ' by {
        assert(render_spec(content)[j] == b[j]);
        assert(b[j] == spaces(tab_width(a.len() as int) as nat)[j - a.len()]);
    }
}

/// The render column of any content column is at most the render length.
pub proof fn lemma_cx_to_rx_le_render_len(content: Seq<char>, i: int)
    requires
        0 <= i <= content.len(),
    ensures
        cx_to_rx_spec(content, i) <= render_spec(content).len(),
{
    lemma_render_take_prefix(content, i);
}

/// Content column whose expansion first passes render column `rx`, the
/// walk having reached content column `cx` so far.
pub open spec fn rx_to_cx_from(content: Seq<char>, rx: int, cx: int) -> int
    decreases content.len() - cx,
{
    if 0 <= cx < content.len() {
        if cx_to_rx_spec(content, cx + 1) > rx {
            cx
        } else {
            rx_to_cx_from(content, rx, cx + 1)
        }
    } else {
        if content.len() == 0 {
            0
        } else {
            content.len() - 1
        }
    }
}

/// Content column of render column `rx`: the smallest content column
/// whose expansion extends past `rx`, or the last content column if the
/// expansion never does.
pub open spec fn rx_to_cx_spec(content: Seq<char>, rx: int) -> int {
    rx_to_cx_from(content, rx, 0)
}

/// The walk's result does not depend on how far it has already come, as
/// long as it has not yet passed `rx`.
proof fn lemma_rx_to_cx_from_skip(content: Seq<char>, rx: int, cx: int)
    requires
        0 <= cx < content.len(),
        cx_to_rx_spec(content, cx + 1) <= rx,
    ensures
        rx_to_cx_from(content, rx, cx) == rx_to_cx_from(content, rx, cx + 1),
{
}

/// The result of the walk stays within the content columns.
pub proof fn lemma_rx_to_cx_bounds(content: Seq<char>, rx: int)
    ensures
        content.len() == 0 ==> rx_to_cx_spec(content, rx) == 0,
        content.len() > 0 ==> 0 <= rx_to_cx_spec(content, rx) < content.len(),
{
    lemma_rx_to_cx_from_bounds(content, rx, 0);
}

proof fn lemma_rx_to_cx_from_bounds(content: Seq<char>, rx: int, cx: int)
    requires
        0 <= cx,
    ensures
        content.len() == 0 ==> rx_to_cx_from(content, rx, cx) == 0,
        content.len() > 0 ==> 0 <= rx_to_cx_from(content, rx, cx) < content.len(),
    decreases content.len() - cx,
{
    if 0 <= cx < content.len() {
        if cx_to_rx_spec(content, cx + 1) > rx {
        } else {
            lemma_rx_to_cx_from_bounds(content, rx, cx + 1);
        }
    }
}

/// Law: converting a content column to a render column and back returns
/// the same content column, for every column left of the row's end.
pub proof fn lemma_rx_to_cx_left_inverse(content: Seq<char>, cx: int)
    requires
        0 <= cx < content.len(),
    ensures
        rx_to_cx_spec(content, cx_to_rx_spec(content, cx)) == cx,
{
    let rx = cx_to_rx_spec(content, cx);
    lemma_rx_step_bounds(content, cx);
    lemma_rx_to_cx_from_reaches(content, rx, 0, cx);
}

proof fn lemma_rx_to_cx_from_reaches(content: Seq<char>, rx: int, j: int, cx: int)
    requires
        0 <= j <= cx < content.len(),
        rx == cx_to_rx_spec(content, cx),
        cx_to_rx_spec(content, cx + 1) > rx,
    ensures
        rx_to_cx_from(content, rx, j) == cx,
    decreases cx - j,
{
    if j < cx {
        lemma_cx_to_rx_monotonic(content, j + 1, cx);
        lemma_rx_to_cx_from_reaches(content, rx, j + 1, cx);
    }
}

/// Law: at or past the row's full render width the walk clamps to the
/// last content column.
pub proof fn lemma_rx_to_cx_clamp(content: Seq<char>, rx: int)
    requires
        content.len() > 0,
        rx >= render_spec(content).len(),
    ensures
        rx_to_cx_spec(content, rx) == content.len() - 1,
{
    lemma_rx_to_cx_from_clamp(content, rx, 0);
}

proof fn lemma_rx_to_cx_from_clamp(content: Seq<char>, rx: int, j: int)
    requires
        content.len() > 0,
        rx >= render_spec(content).len(),
        0 <= j,
    ensures
        rx_to_cx_from(content, rx, j) == content.len() - 1,
    decreases content.len() - j,
{
    if j < content.len() {
        lemma_cx_to_rx_le_render_len(content, j + 1);
        if cx_to_rx_spec(content, j + 1) > rx {
            assert(false);
        } else {
            lemma_rx_to_cx_from_clamp(content, rx, j + 1);
        }
    }
}

/// Converts content column `cx` to the corresponding render column by
/// walking the row's content; columns past the end clamp to the full
/// render width.
pub fn row_cx_to_rx(row: &Row, cx: usize) -> (rx: usize)
    requires
        row.render@ == render_spec(row.content@),
    ensures
        cx <= row.content@.len() ==> rx as int == cx_to_rx_spec(row.content@, cx as int),
        cx > row.content@.len() ==> rx as int == cx_to_rx_spec(
            row.content@,
            row.content@.len() as int,
        ),
{
    let n = if cx <= row.content.len() {
        cx
    } else {
        row.content.len()
    };
    let rlen: usize = row.render.len();
    let mut rx: usize = 0;
    let mut i: usize = 0;
    while i < n
        invariant
            i <= n <= row.content@.len(),
            row.render@ == render_spec(row.content@),
            rlen == row.render@.len(),
            rx as int == cx_to_rx_spec(row.content@, i as int),
        decreases n - i,
    {
        proof {
            lemma_rx_step_bounds(row.content@, i as int);
            lemma_cx_to_rx_le_render_len(row.content@, i as int + 1);
        }
        let c = row.content[i];
        if c == '\t' {
            rx = rx + ((TAB_STOP - 1) - rx % TAB_STOP);
        }
        rx = rx + 1;
        i = i + 1;
        proof {
            lemma_render_step(row.content@, i as int - 1);
        }
    }
    rx
}

/// Converts render column `rx` back to a content column: the first
/// content column whose expansion extends past `rx`, the last content
/// column if none does, and 0 on an empty row.
pub fn row_rx_to_cx(row: &Row, rx: usize) -> (cx: usize)
    requires
        row.render@ == render_spec(row.content@),
    ensures
        cx as int == rx_to_cx_spec(row.content@, rx as int),
{
    let rlen: usize = row.render.len();
    let mut cur_rx: usize = 0;
    let mut i: usize = 0;
    while i < row.content.len()
        invariant
            i <= row.content@.len(),
            row.render@ == render_spec(row.content@),
            rlen == row.render@.len(),
            cur_rx as int == cx_to_rx_spec(row.content@, i as int),
            rx_to_cx_spec(row.content@, rx as int) == rx_to_cx_from(
                row.content@,
                rx as int,
                i as int,
            ),
        decreases row.content@.len() - i,
    {
        proof {
            lemma_rx_step_bounds(row.content@, i as int);
            lemma_cx_to_rx_le_render_len(row.content@, i as int + 1);
        }
        let c = row.content[i];
        if c == '\t' {
            cur_rx = cur_rx + ((TAB_STOP - 1) - cur_rx % TAB_STOP);
        }
        cur_rx = cur_rx + 1;
        proof {
            lemma_render_step(row.content@, i as int);
        }
        if cur_rx > rx {
            return i;
        }
        proof {
            lemma_rx_to_cx_from_skip(row.content@, rx as int, i as int);
        }
        i = i + 1;
    }
    if row.content.len() == 0 {
        0
    } else {
        row.content.len() - 1
    }
}

/// Rebuilds the tab-expanded display text of `content`.
fn render_of_content(content: &Vec<char>) -> (render: Vec<char>)
    ensures
        render@ == render_spec(content@),
{
    let mut render: Vec<char> = Vec::new();
    let mut i: usize = 0;
    while i < content.len()
        invariant
            i <= content@.len(),
            render@ == render_spec(content@.take(i as int)),
        decreases content@.len() - i,
    {
        let c = content[i];
        if c == '\t' {
            let base = render.len();
            let w = TAB_STOP - base % TAB_STOP;
            let mut k: usize = 0;
            while k < w
                invariant
                    k <= w,
                    w == tab_width(base as int),
                    render@ == render_spec(content@.take(i as int)) + spaces(k as nat),
                    render@.len() == base + k,
                    base == render_spec(content@.take(i as int)).len(),
                decreases w - k,
            {
                render.push(' ');
                k = k + 1;
                assert(render@ =~= render_spec(content@.take(i as int)) + spaces(k as nat));
            }
        } else {
            render.push(c);
        }
        i = i + 1;
        proof {
            lemma_render_step(content@, i as int - 1);
        }
    }
    assert(content@.take(content@.len() as int) =~= content@);
    render
}

/// Regenerates the row's render text from its content and re-runs the
/// syntax classifier on it.  This is the single point of truth for the
/// derived fields: every mutation of the content goes through it.
pub fn update_row(syntax: &Option<Syntax>, row: &mut Row)
    ensures
        final(row).content == old(row).content,
        final(row).render@ == render_spec(old(row).content@),
        final(row).hl@ == hl_spec(numbers_of(*syntax), final(row).render@),
        row_wf(*final(row), numbers_of(*syntax)),
{
    let render = render_of_content(&row.content);
    row.render = render;
    update_syntax(syntax, row);
}

/// Law: the derived fields after `update_row` are a function of the
/// content and the active rule alone, so a repeated call changes nothing.
pub proof fn lemma_update_row_idempotent(a: Row, b: Row, numbers: bool)
    requires
        row_wf(a, numbers),
        row_wf(b, numbers),
        a.content@ == b.content@,
    ensures
        a.render@ == b.render@,
        a.hl@ == b.hl@,
{
}

/// Inserts `c` at content column `at`, clamped to the row's end, and
/// recomputes the derived fields.
pub fn row_insert_char(syntax: &Option<Syntax>, row: &mut Row, at: usize, c: char)
    ensures
        final(row).content@ == old(row).content@.insert(
            if at <= old(row).content@.len() {
                at as int
            } else {
                old(row).content@.len() as int
            },
            c,
        ),
        row_wf(*final(row), numbers_of(*syntax)),
{
    let at = if at > row.content.len() {
        row.content.len()
    } else {
        at
    };
    row.content.insert(at, c);
    update_row(syntax, row);
}

/// Concatenates `s` onto the row's content and recomputes the derived
/// fields; used to join two rows.
pub fn row_append_string(syntax: &Option<Syntax>, row: &mut Row, s: Vec<char>)
    ensures
        final(row).content@ == old(row).content@ + s@,
        row_wf(*final(row), numbers_of(*syntax)),
{
    let mut s = s;
    row.content.append(&mut s);
    update_row(syntax, row);
}

/// Removes the character at content column `at` and recomputes the
/// derived fields; a column at or past the row's end is a no-op.
pub fn row_del_char(syntax: &Option<Syntax>, row: &mut Row, at: usize)
    ensures
        at < old(row).content@.len() ==> final(row).content@ == old(row).content@.remove(
            at as int,
        ),
        at >= old(row).content@.len() ==> *final(row) == *old(row),
        at < old(row).content@.len() ==> row_wf(*final(row), numbers_of(*syntax)),
{
    if at >= row.content.len() {
        return ;
    }
    row.content.remove(at);
    update_row(syntax, row);
}

} // verus!
