//! The persisted form of a document: newline-terminated lines, one row
//! each, with a trailing newline after the last row.

use vstd::prelude::*;

use crate::editor::{config_wf, contents_of, insert_row, EditorConfig};
use crate::row::Row;

verus! {

/// The contents of a sequence of line vectors.
pub open spec fn line_views(ls: Seq<Vec<char>>) -> Seq<Seq<char>> {
    ls.map_values(|l: Vec<char>| l@)
}

/// The persisted text of a document: every row followed by a newline.
pub open spec fn join_rows(cs: Seq<Seq<char>>) -> Seq<char>
    decreases cs.len(),
{
    if cs.len() == 0 {
        Seq::empty()
    } else {
        cs[0] + seq!['\n'] + join_rows(cs.skip(1))
    }
}

/// Index of the first newline in `s`, or `s.len()` if it has none.
pub open spec fn first_nl(s: Seq<char>) -> int
    decreases s.len(),
{
    if s.len() == 0 {
        0
    } else if s[0] == '\n' {
        0
    } else {
        1 + first_nl(s.skip(1))
    }
}

/// A line with a final carriage return dropped, as reading a line ending
/// in `\r\n` drops both characters.
pub open spec fn strip_cr(line: Seq<char>) -> Seq<char> {
    if line.len() > 0 && line.last() == '\r' {
        line.drop_last()
    } else {
        line
    }
}

/// The first newline lies within the text.
pub proof fn lemma_first_nl_bounds(s: Seq<char>)
    ensures
        0 <= first_nl(s) <= s.len(),
    decreases s.len(),
{
    if s.len() > 0 && s[0] != '\n' {
        lemma_first_nl_bounds(s.skip(1));
    }
}

/// The first newline is the position with no newline to its left.
pub proof fn lemma_first_nl_at(s: Seq<char>, n: int)
    requires
        0 <= n <= s.len(),
        forall|j: int| 0 <= j < n ==> s[j] != '\n',
        n < s.len() ==> s[n] == '\n',
    ensures
        first_nl(s) == n,
    decreases n,
{
    if n == 0 {
        if s.len() > 0 && s[0] != '\n' {
            lemma_first_nl_bounds(s.skip(1));
        }
    } else {
        lemma_first_nl_at(s.skip(1), n - 1);
    }
}

/// The rows a persisted text decodes to: split at newlines, each line
/// shorn of a final carriage return, a last unterminated fragment kept
/// only when it is not empty.
pub open spec fn lines_spec(s: Seq<char>) -> Seq<Seq<char>>
    decreases s.len(),
{
    if s.len() == 0 {
        Seq::empty()
    } else {
        let n = first_nl_clamped(s);
        if n == s.len() {
            seq![s]
        } else {
            seq![strip_cr(s.take(n))] + lines_spec(s.skip(n + 1))
        }
    }
}

/// The first newline's index, clamped into the text; the clamp never
/// moves it, it only makes the bound plain.
pub open spec fn first_nl_clamped(s: Seq<char>) -> int {
    if 0 <= first_nl(s) <= s.len() {
        first_nl(s)
    } else {
        s.len() as int
    }
}

/// Serializes the rows: each row's content followed by a newline.
pub fn rows_to_string(rows: &Vec<Row>) -> (out: Vec<char>)
    ensures
        out@ == join_rows(contents_of(rows@)),
{
    let ghost cs = contents_of(rows@);
    let mut out: Vec<char> = Vec::new();
    let mut i: usize = 0;
    proof {
        assert(cs.take(0) =~= Seq::<Seq<char>>::empty());
    }
    while i < rows.len()
        invariant
            i <= rows@.len(),
            cs == contents_of(rows@),
            out@ == join_rows(cs.take(i as int)),
        decreases rows@.len() - i,
    {
        crate::draw::push_all(&mut out, &rows[i].content);
        out.push('\n');
        i = i + 1;
        proof {
            assert(cs.take(i as int) =~= cs.take(i as int - 1).push(cs[i as int - 1]));
            lemma_join_push(cs.take(i as int - 1), cs[i as int - 1]);
            assert(out@ =~= join_rows(cs.take(i as int - 1)) + cs[i as int - 1] + seq!['\n']);
        }
    }
    proof {
        assert(cs.take(cs.len() as int) =~= cs);
    }
    out
}

/// Appending one row to a document appends its text and a newline to the
/// persisted form.
pub proof fn lemma_join_push(cs: Seq<Seq<char>>, x: Seq<char>)
    ensures
        join_rows(cs.push(x)) == join_rows(cs) + x + seq!['\n'],
    decreases cs.len(),
{
    if cs.len() == 0 {
        reveal_with_fuel(join_rows, 2);
        assert(cs.push(x)[0] == x);
        assert(cs.push(x).skip(1) =~= Seq::<Seq<char>>::empty());
        assert(join_rows(cs.push(x)) =~= join_rows(cs) + x + seq!['\n']);
    } else {
        assert(cs.push(x).skip(1) =~= cs.skip(1).push(x));
        lemma_join_push(cs.skip(1), x);
        assert(cs.push(x)[0] == cs[0]);
        assert(join_rows(cs.push(x)) == cs[0] + seq!['\n'] + (join_rows(cs.skip(1)) + x + seq![
            '\n',
        ]));
        assert(join_rows(cs.push(x)) =~= join_rows(cs) + x + seq!['\n']);
    }
}

/// Splits a persisted text into its rows: lines end at each newline, a
/// carriage return directly before a newline is dropped with it, and a
/// final unterminated fragment is kept when it is not empty.
pub fn split_lines(text: &Vec<char>) -> (lines: Vec<Vec<char>>)
    ensures
        line_views(lines@) == lines_spec(text@),
{
    let mut lines: Vec<Vec<char>> = Vec::new();
    let mut cur: Vec<char> = Vec::new();
    let mut i: usize = 0;
    let ghost mut ls: int = 0;
    proof {
        assert(text@.skip(0) =~= text@);
        assert(cur@ =~= text@.subrange(0, 0));
        assert(line_views(lines@) + lines_spec(text@.skip(0)) =~= lines_spec(text@));
    }
    while i < text.len()
        invariant
            0 <= ls <= i <= text@.len(),
            cur@ == text@.subrange(ls, i as int),
            forall|j: int| ls <= j < i ==> text@[j] != '\n',
            lines_spec(text@) == line_views(lines@) + lines_spec(text@.skip(ls)),
        decreases text@.len() - i,
    {
        let c = text[i];
        if c == '\n' {
            proof {
                let s = text@.skip(ls);
                assert forall|j: int| 0 <= j < i - ls implies s[j] != '\n' by {
                    assert(s[j] == text@[ls + j]);
                }
                assert(s[i - ls] == text@[i as int]);
                lemma_first_nl_at(s, i - ls);
                assert(s.take(i - ls) =~= cur@);
                assert(s.skip(i - ls + 1) =~= text@.skip(i as int + 1));
            }
            if cur.len() > 0 && cur[cur.len() - 1] == '\r' {
                cur.pop();
            }
            proof {
                let s = text@.skip(ls);
                assert(cur@ =~= strip_cr(s.take(i - ls)));
            }
            lines.push(cur);
            cur = Vec::new();
            proof {
                let s = text@.skip(ls);
                assert(lines_spec(s) =~= seq![strip_cr(s.take(i - ls))] + lines_spec(
                    text@.skip(i as int + 1),
                ));
                assert(line_views(lines@) =~= line_views(lines@.drop_last()) + seq![
                    lines@.last()@,
                ]);
                ls = i as int + 1;
                assert(lines_spec(text@) =~= line_views(lines@) + lines_spec(text@.skip(ls)));
                assert(cur@ =~= text@.subrange(ls, i as int + 1));
            }
        } else {
            cur.push(c);
            proof {
                assert(cur@ =~= text@.subrange(ls, i as int + 1));
            }
        }
        i = i + 1;
    }
    if cur.len() > 0 {
        proof {
            let s = text@.skip(ls);
            assert forall|j: int| 0 <= j < s.len() implies s[j] != '\n' by {
                assert(s[j] == text@[ls + j]);
            }
            lemma_first_nl_at(s, s.len() as int);
            assert(s =~= cur@);
            assert(lines_spec(s) =~= seq![cur@]);
        }
        lines.push(cur);
        proof {
            assert(line_views(lines@) =~= line_views(lines@.drop_last()) + seq![lines@.last()@]);
            assert(line_views(lines@) =~= lines_spec(text@));
        }
    } else {
        proof {
            assert(text@.skip(ls) =~= Seq::<char>::empty());
            assert(line_views(lines@) =~= lines_spec(text@));
        }
    }
    lines
}

/// Law: a saved document loads back as exactly the same row contents,
/// for rows that hold no newline and do not end in a carriage return.
pub proof fn lemma_save_load_round_trip(cs: Seq<Seq<char>>)
    requires
        forall|i: int, j: int|
            0 <= i < cs.len() && 0 <= j < cs[i].len() ==> #[trigger] cs[i][j] != '\n',
        forall|i: int|
            0 <= i < cs.len() && cs[i].len() > 0 ==> (#[trigger] cs[i]).last() != '\r',
    ensures
        lines_spec(join_rows(cs)) == cs,
    decreases cs.len(),
{
    if cs.len() == 0 {
    } else {
        let s = join_rows(cs);
        let head = cs[0];
        let n = head.len() as int;
        assert forall|j: int| 0 <= j < n implies s[j] != '\n' by {
            assert(s[j] == head[j]);
        }
        assert(s[n] == '\n');
        lemma_first_nl_at(s, n);
        assert(s.take(n) =~= head);
        assert(strip_cr(head) == head);
        assert(s.skip(n + 1) =~= join_rows(cs.skip(1)));
        assert forall|i: int, j: int|
            0 <= i < cs.skip(1).len() && 0 <= j < cs.skip(1)[i].len() implies #[trigger] cs.skip(
            1,
        )[i][j] != '\n' by {
            assert(cs.skip(1)[i] == cs[i + 1]);
        }
        assert forall|i: int|
            0 <= i < cs.skip(1).len() && cs.skip(1)[i].len() > 0 implies (#[trigger] cs.skip(
            1,
        )[i]).last() != '\r' by {
            assert(cs.skip(1)[i] == cs[i + 1]);
        }
        lemma_save_load_round_trip(cs.skip(1));
        assert(lines_spec(s) =~= cs);
    }
}

/// Appends the given lines to the document as rows, in order, and marks
/// the buffer clean: loading is not an edit.
pub fn load_rows(config: &mut EditorConfig, lines: &Vec<Vec<char>>)
    requires
        config_wf(*old(config)),
    ensures
        config_wf(*final(config)),
        contents_of(final(config).rows@) == contents_of(old(config).rows@) + line_views(lines@),
        *final(config) == (EditorConfig {
            rows: final(config).rows,
            dirty: false,
            ..*old(config)
        }),
{
    let ghost cs0 = contents_of(config.rows@);
    let mut i: usize = 0;
    proof {
        assert(line_views(lines@).take(0) =~= Seq::<Seq<char>>::empty());
        assert(contents_of(config.rows@) =~= cs0 + line_views(lines@).take(0));
    }
    while i < lines.len()
        invariant
            i <= lines@.len(),
            config_wf(*config),
            cs0 == contents_of(old(config).rows@),
            contents_of(config.rows@) == cs0 + line_views(lines@).take(i as int),
            *config == (EditorConfig { rows: config.rows, dirty: config.dirty, ..*old(config) }),
        decreases lines@.len() - i,
    {
        let line = crate::draw::copy_chars(&lines[i]);
        let at = config.rows.len();
        let ghost prev = config.rows@;
        let appended = insert_row(config, at, line);
        proof {
            assert(appended is Ok);
            let lv = line_views(lines@);
            assert(lv.take(i as int + 1) =~= lv.take(i as int).push(lv[i as int]));
            assert(config.rows@ =~= prev.push(config.rows@[at as int]));
            assert(contents_of(config.rows@) =~~= contents_of(prev).push(lv[i as int]));
            assert(contents_of(config.rows@) =~~= cs0 + lv.take(i as int + 1));
        }
        i = i + 1;
    }
    config.dirty = false;
    proof {
        assert(line_views(lines@).take(lines@.len() as int) =~= line_views(lines@));
        assert(contents_of(config.rows@) =~~= cs0 + line_views(lines@));
    }
}

} // verus!
