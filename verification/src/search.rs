//! Incremental search: a stateful scan over the rows, wrapping around
//! the row list in either direction.

use vstd::prelude::*;

use crate::editor::{config_wf, EditorConfig};
use crate::row::{lemma_rx_to_cx_bounds, row_rx_to_cx, rx_to_cx_spec};

verus! {

/// Keys that drive the incremental search.
#[derive(Clone, Copy, PartialEq, Eq, Structural, Debug)]
pub enum SearchKey {
    /// The query was confirmed; searching ends and the state resets.
    Confirm,
    /// Move on to the next match, down the row list.
    Forward,
    /// Move back to the previous match, up the row list.
    Backward,
    /// The query changed; restart the scan from the top.
    Other,
}

/// Search state carried from one keystroke to the next.
#[derive(Clone, Copy, PartialEq, Eq, Structural, Debug)]
pub struct SearchState {
    /// Row of the last match, if any.
    pub last_match: Option<usize>,
    /// Whether the scan walks down the row list.
    pub forward: bool,
}

impl SearchState {
    /// Fresh state: no match yet, scanning forward.
    pub fn new() -> (s: SearchState)
        ensures
            s.last_match is None,
            s.forward,
    {
        SearchState { last_match: None, forward: true }
    }
}

/// `pat` occurs in `text` at position `i`.
pub open spec fn is_match_at(text: Seq<char>, pat: Seq<char>, i: int) -> bool {
    0 <= i && i + pat.len() <= text.len() && text.subrange(i, i + pat.len()) == pat
}

/// `pat` occurs somewhere in `text`.
pub open spec fn contains_match(text: Seq<char>, pat: Seq<char>) -> bool {
    exists|i: int| is_match_at(text, pat, i)
}

/// Position of the first occurrence of `pat` in `text`, if it occurs.
pub fn find_substring(text: &Vec<char>, pat: &Vec<char>) -> (r: Option<usize>)
    ensures
        match r {
            Some(i) => is_match_at(text@, pat@, i as int) && forall|j: int|
                0 <= j < i ==> !is_match_at(text@, pat@, j),
            None => forall|j: int| !is_match_at(text@, pat@, j),
        },
{
    let n = text.len();
    let m = pat.len();
    if m > n {
        return None;
    }
    let mut i: usize = 0;
    while i <= n - m
        invariant
            m <= n,
            n == text@.len(),
            m == pat@.len(),
            i <= n - m + 1,
            forall|j: int| 0 <= j < i ==> !is_match_at(text@, pat@, j),
        decreases n - m + 1 - i,
    {
        let mut k: usize = 0;
        let mut matched = true;
        while k < m && matched
            invariant
                i + m <= n,
                n == text@.len(),
                m == pat@.len(),
                k <= m,
                matched ==> forall|l: int| 0 <= l < k ==> text@[i + l] == pat@[l],
                !matched ==> exists|l: int| 0 <= l < k && text@[i + l] != pat@[l],
            decreases m - k,
        {
            if text[i + k] != pat[k] {
                matched = false;
            }
            k = k + 1;
        }
        if matched {
            proof {
                assert(text@.subrange(i as int, i + m) =~= pat@);
            }
            return Some(i);
        }
        proof {
            let l = choose|l: int| 0 <= l < k && text@[i + l] != pat@[l];
            if is_match_at(text@, pat@, i as int) {
                assert(text@.subrange(i as int, i + m)[l] == pat@[l]);
            }
        }
        i = i + 1;
    }
    None
}

/// The next row of a wrapping scan over `len` rows, `-1` standing for
/// the position before the first row.
pub open spec fn step_row(len: int, cur: int, forward: bool) -> int {
    if forward {
        if cur + 1 == len {
            0
        } else {
            cur + 1
        }
    } else {
        if cur == 0 {
            len - 1
        } else {
            cur - 1
        }
    }
}

/// Row visited at iteration `k` of a wrapping scan that starts one step
/// away from `start`.
pub open spec fn scan_row(len: int, start: int, forward: bool, k: nat) -> int
    decreases k,
{
    if k == 0 {
        step_row(len, start, forward)
    } else {
        step_row(len, scan_row(len, start, forward, (k - 1) as nat), forward)
    }
}

/// The last match the state holds after the key is applied, before any
/// scanning: a query change forgets the previous match.
pub open spec fn keyed_last_match(state: SearchState, key: SearchKey) -> Option<usize> {
    if key == SearchKey::Other {
        None
    } else {
        state.last_match
    }
}

/// Direction of the scan after the key is applied: the motion keys pick
/// it, and without a previous match the scan always runs forward.
pub open spec fn keyed_forward(state: SearchState, key: SearchKey) -> bool {
    if keyed_last_match(state, key) is None {
        true
    } else if key == SearchKey::Forward {
        true
    } else if key == SearchKey::Backward {
        false
    } else {
        state.forward
    }
}

/// Scan start position: the previous match's row, or just before row 0.
pub open spec fn scan_start(lm: Option<usize>) -> int {
    match lm {
        None => -1,
        Some(i) => i as int,
    }
}

/// One search step.  A confirm key resets the state and moves nothing.
/// Any other key sets the scan direction (a query change also restarts
/// from the top), then at most one full wrap of the row list is
/// scanned, starting one row beyond the previous match; on the first
/// visited row whose render text contains `query`, the cursor moves to
/// the match and the vertical offset is pushed past the buffer end so
/// the next scroll recentres the view.  Without any match the cursor
/// stays put.
pub fn find(config: &mut EditorConfig, state: &mut SearchState, query: &Vec<char>, key: SearchKey)
    requires
        config_wf(*old(config)),
        old(state).last_match matches Some(i) ==> i < old(config).rows@.len(),
    ensures
        config_wf(*final(config)),
        key == SearchKey::Confirm ==> *final(config) == *old(config) && final(state).last_match
            is None && final(state).forward,
        key != SearchKey::Confirm ==> {
            let len = old(config).rows@.len() as int;
            let lm0 = keyed_last_match(*old(state), key);
            let fwd = keyed_forward(*old(state), key);
            let start = scan_start(lm0);
            &&& final(state).forward == fwd
            &&& if exists|k: nat|
                k < len && contains_match(
                    #[trigger] old(config).rows@[scan_row(len, start, fwd, k)].render@,
                    query@,
                ) {
                exists|k0: nat|
                    {
                        &&& k0 < len
                        &&& contains_match(
                            #[trigger] old(config).rows@[scan_row(len, start, fwd, k0)].render@,
                            query@,
                        )
                        &&& forall|k2: nat|
                            k2 < k0 ==> !contains_match(
                                #[trigger] old(config).rows@[scan_row(
                                    len,
                                    start,
                                    fwd,
                                    k2,
                                )].render@,
                                query@,
                            )
                        &&& final(config).cy == scan_row(len, start, fwd, k0)
                        &&& final(state).last_match == Some(final(config).cy)
                        &&& exists|pos: int|
                            {
                                &&& #[trigger] is_match_at(
                                    old(config).rows@[final(config).cy as int].render@,
                                    query@,
                                    pos,
                                )
                                &&& forall|j: int|
                                    0 <= j < pos ==> !is_match_at(
                                        old(config).rows@[final(config).cy as int].render@,
                                        query@,
                                        j,
                                    )
                                &&& final(config).cx == rx_to_cx_spec(
                                    old(config).rows@[final(config).cy as int].content@,
                                    pos,
                                )
                            }
                        &&& final(config).row_off == len
                        &&& *final(config) == (EditorConfig {
                            cx: final(config).cx,
                            cy: final(config).cy,
                            row_off: final(config).row_off,
                            ..*old(config)
                        })
                    }
            } else {
                &&& final(state).last_match == lm0
                &&& *final(config) == *old(config)
            }
        },
{
    match key {
        SearchKey::Confirm => {
            state.last_match = None;
            state.forward = true;
            return ;
        },
        SearchKey::Forward => {
            state.forward = true;
        },
        SearchKey::Backward => {
            state.forward = false;
        },
        SearchKey::Other => {
            state.last_match = None;
            state.forward = true;
        },
    }
    if state.last_match.is_none() {
        state.forward = true;
    }
    let len = config.rows.len();
    if len == 0 {
        return ;
    }
    let ghost lm0 = keyed_last_match(*old(state), key);
    let ghost fwd = keyed_forward(*old(state), key);
    let ghost start = scan_start(lm0);
    let forward = state.forward;
    let mut cur: usize = match state.last_match {
        Some(i) => {
            if forward {
                if i + 1 >= len {
                    0
                } else {
                    i + 1
                }
            } else {
                if i == 0 {
                    len - 1
                } else {
                    i - 1
                }
            }
        },
        None => 0,
    };
    let mut k: usize = 0;
    while k < len
        invariant
            config_wf(*config),
            *config == *old(config),
            state.last_match == lm0,
            state.forward == fwd,
            lm0 == keyed_last_match(*old(state), key),
            fwd == keyed_forward(*old(state), key),
            start == scan_start(lm0),
            forward == fwd,
            key != SearchKey::Confirm,
            len == config.rows@.len(),
            len > 0,
            k <= len,
            cur as int == scan_row(len as int, start, fwd, k as nat),
            0 <= cur < len,
            forall|k2: nat|
                k2 < k ==> !contains_match(
                    #[trigger] config.rows@[scan_row(len as int, start, fwd, k2)].render@,
                    query@,
                ),
        decreases len - k,
    {
        let pos_opt = find_substring(&config.rows[cur].render, query);
        match pos_opt {
            Some(pos) => {
                state.last_match = Some(cur);
                config.cy = cur;
                proof {
                    lemma_rx_to_cx_bounds(config.rows@[cur as int].content@, pos as int);
                }
                let cx = row_rx_to_cx(&config.rows[cur], pos);
                config.cx = cx;
                config.row_off = len;
                proof {
                    let glen = len as int;
                    assert((k as nat) < glen && contains_match(
                        old(config).rows@[scan_row(glen, start, fwd, k as nat)].render@,
                        query@,
                    ));
                }
                return ;
            },
            None => {},
        }
        k = k + 1;
        if forward {
            cur = if cur + 1 >= len {
                0
            } else {
                cur + 1
            };
        } else {
            cur = if cur == 0 {
                len - 1
            } else {
                cur - 1
            };
        }
    }
}

} // verus!
