//! Syntax classification: a highlight tag for every render column of a row.

use vstd::prelude::*;

verus! {

/// Classification tag of one render column.
#[derive(Clone, Copy, PartialEq, Eq, Structural, Debug)]
pub enum Highlight {
    Normal,
    Number,
}

impl Highlight {
    /// ANSI color code used when painting a column with this tag.
    pub fn to_color(self) -> (c: u8)
        ensures
            c == color_spec(self),
    {
        match self {
            Highlight::Number => 31,
            Highlight::Normal => 37,
        }
    }
}

/// ANSI color code of a highlight tag.
pub open spec fn color_spec(h: Highlight) -> u8 {
    match h {
        Highlight::Number => 31,
        Highlight::Normal => 37,
    }
}

/// ASCII punctuation, in the four ranges the ASCII table has.
pub open spec fn is_ascii_punct_spec(c: char) -> bool {
    ||| 0x21 <= c as u32 <= 0x2f
    ||| 0x3a <= c as u32 <= 0x40
    ||| 0x5b <= c as u32 <= 0x60
    ||| 0x7b <= c as u32 <= 0x7e
}

/// ASCII whitespace: space, tab, line feed, form feed, carriage return.
pub open spec fn is_ascii_space_spec(c: char) -> bool {
    c == ' ' || c == '\t' || c == '\n' || c == '\x0c' || c == '\r'
}

/// A separator delimits syntax tokens: ASCII punctuation, ASCII
/// whitespace, or the null character.
pub open spec fn is_separator_spec(c: char) -> bool {
    is_ascii_punct_spec(c) || is_ascii_space_spec(c) || c == '\0'
}

/// Whether `c` delimits syntax tokens.
pub fn is_separator(c: char) -> (r: bool)
    ensures
        r == is_separator_spec(c),
{
    let u = c as u32;
    (0x21 <= u && u <= 0x2f) || (0x3a <= u && u <= 0x40) || (0x5b <= u && u <= 0x60)
        || (0x7b <= u && u <= 0x7e) || c == ' ' || c == '\t' || c == '\n' || c == '\x0c'
        || c == '\r' || c == '\0'
}

/// ASCII decimal digit.
pub open spec fn is_digit_spec(c: char) -> bool {
    0x30 <= c as u32 <= 0x39
}

fn is_digit(c: char) -> (r: bool)
    ensures
        r == is_digit_spec(c),
{
    let u = c as u32;
    0x30 <= u && u <= 0x39
}

/// A syntax rule: a display name, the file extensions it claims, and the
/// classifications it switches on.
pub struct Syntax {
    /// Name shown in the status bar.
    pub filetype: Vec<char>,
    /// File extensions the rule applies to.
    pub filematch: Vec<Vec<char>>,
    /// Whether the rule classifies numeric literals.
    pub highlight_numbers: bool,
}

/// Whether an optional active rule switches numeric highlighting on.
pub open spec fn numbers_of(syntax: Option<Syntax>) -> bool {
    match syntax {
        Some(s) => s.highlight_numbers,
        None => false,
    }
}

/// Classification of every render column when numeric highlighting is
/// on.  A column is a number when it is a digit after a separator or
/// after another number column, or a dot continuing a number.
pub open spec fn hl_rec(render: Seq<char>) -> Seq<Highlight>
    decreases render.len(),
{
    if render.len() == 0 {
        Seq::empty()
    } else {
        let prev = hl_rec(render.drop_last());
        let i = render.len() - 1;
        let c = render.last();
        let prev_hl = if i > 0 {
            prev[i - 1]
        } else {
            Highlight::Normal
        };
        let prev_sep = if i == 0 {
            true
        } else if prev[i - 1] == Highlight::Number {
            false
        } else {
            is_separator_spec(render[i - 1])
        };
        let h = if (is_digit_spec(c) && (prev_sep || prev_hl == Highlight::Number)) || (c == '.'
            && prev_hl == Highlight::Number) {
            Highlight::Number
        } else {
            Highlight::Normal
        };
        prev.push(h)
    }
}

/// Classification of every render column: all `Normal` without numeric
/// highlighting.
pub open spec fn hl_spec(numbers: bool, render: Seq<char>) -> Seq<Highlight> {
    if numbers {
        hl_rec(render)
    } else {
        Seq::new(render.len(), |i: int| Highlight::Normal)
    }
}

/// The classification assigns one tag to every render column.
pub proof fn lemma_hl_rec_len(render: Seq<char>)
    ensures
        hl_rec(render).len() == render.len(),
    decreases render.len(),
{
    if render.len() > 0 {
        lemma_hl_rec_len(render.drop_last());
    }
}

/// Law: the render text and its classification always have the same
/// length.
pub proof fn lemma_hl_spec_len(numbers: bool, render: Seq<char>)
    ensures
        hl_spec(numbers, render).len() == render.len(),
{
    lemma_hl_rec_len(render);
}

/// Computes the classification of `render` under the active rule.
fn compute_hl(numbers: bool, render: &Vec<char>) -> (hl: Vec<Highlight>)
    ensures
        hl@ == hl_spec(numbers, render@),
{
    let mut hl: Vec<Highlight> = Vec::new();
    if numbers {
        let mut prev_sep = true;
        let mut i: usize = 0;
        proof {
            lemma_hl_rec_len(render@.take(0));
            assert(render@.take(0) =~= Seq::<char>::empty());
        }
        while i < render.len()
            invariant
                i <= render@.len(),
                hl@ == hl_rec(render@.take(i as int)),
                hl@.len() == i,
                prev_sep == if i == 0 {
                    true
                } else if hl@[i as int - 1] == Highlight::Number {
                    false
                } else {
                    is_separator_spec(render@[i as int - 1])
                },
            decreases render@.len() - i,
        {
            let c = render[i];
            let prev_hl = if i > 0 {
                hl[i - 1]
            } else {
                Highlight::Normal
            };
            let is_num = (is_digit(c) && (prev_sep || prev_hl == Highlight::Number)) || (c == '.'
                && prev_hl == Highlight::Number);
            if is_num {
                hl.push(Highlight::Number);
                prev_sep = false;
            } else {
                hl.push(Highlight::Normal);
                prev_sep = is_separator(c);
            }
            i = i + 1;
            proof {
                assert(render@.take(i as int).drop_last() =~= render@.take(i as int - 1));
                assert(render@.take(i as int).last() == render@[i as int - 1]);
            }
        }
        proof {
            assert(render@.take(render@.len() as int) =~= render@);
        }
    } else {
        let mut i: usize = 0;
        while i < render.len()
            invariant
                i <= render@.len(),
                hl@.len() == i,
                forall|j: int| 0 <= j < i ==> hl@[j] == Highlight::Normal,
            decreases render@.len() - i,
        {
            hl.push(Highlight::Normal);
            i = i + 1;
        }
        proof {
            assert(hl@ =~= Seq::new(render@.len(), |j: int| Highlight::Normal));
        }
    }
    hl
}

/// Resizes and refills the row's classification from its render text:
/// every column `Normal` without an active rule, the numeric
/// classification under a rule that switches it on.
pub fn update_syntax(syntax: &Option<Syntax>, row: &mut crate::row::Row)
    ensures
        final(row).content == old(row).content,
        final(row).render == old(row).render,
        final(row).hl@ == hl_spec(numbers_of(*syntax), old(row).render@),
{
    let numbers = match syntax {
        Some(s) => s.highlight_numbers,
        None => false,
    };
    let hl = compute_hl(numbers, &row.render);
    row.hl = hl;
}

/// Index of the last `.` in a file name, or -1 if it has none.
pub open spec fn last_dot(name: Seq<char>) -> int
    decreases name.len(),
{
    if name.len() == 0 {
        -1
    } else if name.last() == '.' {
        name.len() - 1
    } else {
        last_dot(name.drop_last())
    }
}

/// The file name's extension: the text after its final `.`, if any.
pub open spec fn ext_of(name: Seq<char>) -> Option<Seq<char>> {
    let d = last_dot(name);
    if d >= 0 {
        Some(name.skip(d + 1))
    } else {
        None
    }
}

/// The last dot lies inside the name when there is one.
pub proof fn lemma_last_dot_bounds(name: Seq<char>)
    ensures
        -1 <= last_dot(name) < name.len(),
        last_dot(name) >= 0 ==> name[last_dot(name)] == '.',
    decreases name.len(),
{
    if name.len() > 0 && name.last() != '.' {
        lemma_last_dot_bounds(name.drop_last());
    }
}

/// Index just after the last `.` of `name`, or `None` without a dot.
fn extension_start(name: &Vec<char>) -> (r: Option<usize>)
    ensures
        match r {
            Some(d) => d as int == last_dot(name@) && 0 <= last_dot(name@),
            None => last_dot(name@) == -1,
        },
{
    let mut i: usize = name.len();
    proof {
        assert(name@.take(name@.len() as int) =~= name@);
    }
    while i > 0
        invariant
            i <= name@.len(),
            last_dot(name@) == last_dot(name@.take(i as int)),
        decreases i,
    {
        if name[i - 1] == '.' {
            proof {
                assert(name@.take(i as int).last() == name@[i as int - 1]);
            }
            return Some(i - 1);
        }
        proof {
            assert(name@.take(i as int).drop_last() =~= name@.take(i as int - 1));
        }
        i = i - 1;
    }
    None
}

/// Display name of the built-in rule.
pub open spec fn rust_name() -> Seq<char> {
    seq!['r', 'u', 's', 't']
}

/// The one extension the built-in rule claims.
pub open spec fn rust_ext() -> Seq<char> {
    seq!['r', 's']
}

/// The built-in rule set holds a single rule, for Rust files, with
/// numeric highlighting on.
fn rust_rule() -> (s: Syntax)
    ensures
        s.filetype@ == rust_name(),
        s.filematch@.len() == 1,
        s.filematch@[0]@ == rust_ext(),
        s.highlight_numbers,
{
    let mut ft: Vec<char> = Vec::new();
    ft.push('r');
    ft.push('u');
    ft.push('s');
    ft.push('t');
    let mut ext: Vec<char> = Vec::new();
    ext.push('r');
    ext.push('s');
    let mut fm: Vec<Vec<char>> = Vec::new();
    fm.push(ext);
    proof {
        assert(ft@ =~= rust_name());
        assert(fm@[0]@ =~= rust_ext());
    }
    Syntax { filetype: ft, filematch: fm, highlight_numbers: true }
}

/// Whether the built-in rule set claims files with extension `e`.
pub open spec fn rule_matches(e: Seq<char>) -> bool {
    e == rust_ext()
}

/// Matches the buffer's file extension against the rule set; on the
/// first match the rule becomes active and every row is re-classified.
/// Without a file name, an extension or a match, nothing changes.
pub fn select_syntax_highlight(config: &mut crate::editor::EditorConfig)
    requires
        crate::editor::rows_wf(*old(config)),
    ensures
        crate::editor::rows_wf(*final(config)),
        old(config).filename is None ==> *final(config) == *old(config),
        old(config).filename matches Some(f) && ext_of(f@) is None ==> *final(config) == *old(
            config,
        ),
        old(config).filename matches Some(f) && ext_of(f@) matches Some(e) && !rule_matches(e)
            ==> *final(config) == *old(config),
        old(config).filename matches Some(f) && ext_of(f@) matches Some(e) && rule_matches(e)
            ==> {
            &&& final(config).syntax matches Some(s) && s.highlight_numbers && s.filetype@
                == rust_name() && s.filematch@.len() == 1 && s.filematch@[0]@ == rust_ext()
            &&& final(config).rows@.len() == old(config).rows@.len()
            &&& forall|i: int|
                0 <= i < old(config).rows@.len() ==> (#[trigger] final(config).rows@[i]).content
                    == old(config).rows@[i].content && final(config).rows@[i].render == old(
                    config,
                ).rows@[i].render && final(config).rows@[i].hl@ == hl_spec(
                    true,
                    old(config).rows@[i].render@,
                )
            &&& *final(config) == (crate::editor::EditorConfig {
                rows: final(config).rows,
                syntax: final(config).syntax,
                ..*old(config)
            })
        },
{
    let d = match &config.filename {
        None => {
            return ;
        },
        Some(name) => {
            match extension_start(name) {
                None => {
                    return ;
                },
                Some(d) => d,
            }
        },
    };
    let is_rs = match &config.filename {
        Some(name) => {
            proof {
                lemma_last_dot_bounds(name@);
            }
            name.len() - d == 3 && name[d + 1] == 'r' && name[d + 2] == 's'
        },
        None => false,
    };
    proof {
        let f = old(config).filename->0;
        let e = ext_of(f@)->0;
        if is_rs {
            assert(e =~= rust_ext());
        } else {
            assert(e.len() == f@.len() - d - 1);
            if e == rust_ext() {
                assert(e[0] == f@[d + 1]);
                assert(e[1] == f@[d + 2]);
                assert(false);
            }
        }
    }
    if !is_rs {
        return ;
    }
    config.syntax = Some(rust_rule());
    let ghost c0 = *config;
    let ghost rows0 = config.rows@;
    let ghost syntax0 = config.syntax;
    let mut i: usize = 0;
    while i < config.rows.len()
        invariant
            i <= config.rows@.len(),
            config.rows@.len() == rows0.len(),
            config.syntax == syntax0,
            *config == (crate::editor::EditorConfig { rows: config.rows, ..c0 }),
            syntax0 matches Some(s) && s.highlight_numbers,
            forall|j: int|
                i <= j < rows0.len() ==> #[trigger] config.rows@[j] == rows0[j],
            forall|j: int|
                0 <= j < i ==> (#[trigger] config.rows@[j]).content == rows0[j].content
                    && config.rows@[j].render == rows0[j].render && config.rows@[j].hl@ == hl_spec(
                    true,
                    rows0[j].render@,
                ),
        decreases config.rows@.len() - i,
    {
        update_syntax(&config.syntax, &mut config.rows[i]);
        i = i + 1;
    }
}

} // verus!
