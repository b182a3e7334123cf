use vstd::prelude::*;

use crate::app::AppState;
use crate::chars::{
    is_whitespace_char, skip_word_back, skip_word_fwd, skip_ws_back, skip_ws_fwd,
};
use crate::clock::local_day_of;
use crate::store::note_of;
use crate::strutil::{chars_of, string_of};
use crate::text_input::word_left_target;
use crate::utils::{selected_goal_id, selected_goal_spec};

verus! {

/// How many newlines `s` holds.
pub open spec fn count_nl(s: Seq<char>) -> int
    decreases s.len(),
{
    if s.len() == 0 {
        0
    } else {
        count_nl(s.drop_last()) + if s.last() == '\n' {
            1int
        } else {
            0int
        }
    }
}

/// The start of the line the position `cur` lies on.
pub open spec fn line_start_of(s: Seq<char>, cur: int) -> int
    decreases cur,
{
    if cur <= 0 {
        0
    } else if s[cur - 1] == '\n' {
        cur
    } else {
        line_start_of(s, cur - 1)
    }
}

/// The line number of position `cur`: the newlines before it.
pub open spec fn line_of(s: Seq<char>, cur: int) -> int {
    count_nl(s.subrange(0, cur))
}

/// The column of position `cur` within its line.
pub open spec fn col_of(s: Seq<char>, cur: int) -> int {
    cur - line_start_of(s, cur)
}

/// The character positions at which lines start: position zero, and the
/// position after every newline.
pub open spec fn nl_starts(s: Seq<char>, i: int) -> Seq<usize>
    decreases s.len() - i,
{
    if i < 0 || i >= s.len() {
        Seq::empty()
    } else if s[i] == '\n' {
        seq![(i + 1) as usize] + nl_starts(s, i + 1)
    } else {
        nl_starts(s, i + 1)
    }
}

pub open spec fn line_starts_spec(s: Seq<char>) -> Seq<usize> {
    seq![0usize] + nl_starts(s, 0)
}

/// The line the position `cur` lies on: the greatest line start at or
/// before it.
pub open spec fn line_index_of(starts: Seq<usize>, cur: int) -> int
    decreases starts.len(),
{
    if starts.len() <= 1 {
        0
    } else if starts.last() <= cur {
        starts.len() - 1
    } else {
        line_index_of(starts.drop_last(), cur)
    }
}

/// Where a vertical cursor motion by `delta` lines lands: the same
/// column on the destination line, clamped to that line's length; out of
/// range, the cursor stays.
pub open spec fn vert_target(s: Seq<char>, cur: int, delta: int) -> int {
    let starts = line_starts_spec(s);
    let l = line_index_of(starts, cur);
    let col = cur - starts[l];
    let nl = l + delta;
    if nl < 0 || nl >= starts.len() {
        cur
    } else {
        let ls = starts[nl] as int;
        let le = if nl + 1 < starts.len() {
            starts[nl + 1] - 1
        } else {
            s.len() as int
        };
        if col <= le - ls {
            ls + col
        } else {
            le
        }
    }
}

/// Line starts found after `i` lie in `(i, s.len()]` and increase
/// strictly.
proof fn lemma_nl_starts_sorted(s: Seq<char>, i: int)
    requires
        s.len() <= usize::MAX,
    ensures
        forall|k: int|
            0 <= k < nl_starts(s, i).len() ==> i < (#[trigger] nl_starts(s, i)[k]) <= s.len(),
        forall|k1: int, k2: int|
            0 <= k1 < k2 < nl_starts(s, i).len() ==> (#[trigger] nl_starts(s, i)[k1]) < (
            #[trigger] nl_starts(s, i)[k2]),
    decreases s.len() - i,
{
    if 0 <= i < s.len() {
        lemma_nl_starts_sorted(s, i + 1);
        if s[i] == '\n' {
            assert forall|k: int|
                0 <= k < nl_starts(s, i).len() implies i < (#[trigger] nl_starts(s, i)[k])
                <= s.len() by {
                if k > 0 {
                    assert(nl_starts(s, i)[k] == nl_starts(s, i + 1)[k - 1]);
                }
            }
            assert forall|k1: int, k2: int|
                0 <= k1 < k2 < nl_starts(s, i).len() implies (#[trigger] nl_starts(s, i)[k1]) < (
            #[trigger] nl_starts(s, i)[k2]) by {
                assert(nl_starts(s, i)[k2] == nl_starts(s, i + 1)[k2 - 1]);
                if k1 > 0 {
                    assert(nl_starts(s, i)[k1] == nl_starts(s, i + 1)[k1 - 1]);
                }
            }
        }
    }
}

/// The whole line-start table: it begins with zero, its entries never
/// pass the text's length, and they increase strictly.
pub proof fn lemma_line_starts_sorted(s: Seq<char>)
    requires
        s.len() <= usize::MAX,
    ensures
        line_starts_spec(s).len() >= 1,
        line_starts_spec(s)[0] == 0,
        forall|k: int|
            0 <= k < line_starts_spec(s).len() ==> (#[trigger] line_starts_spec(s)[k])
                <= s.len(),
        forall|k1: int, k2: int|
            0 <= k1 < k2 < line_starts_spec(s).len() ==> (#[trigger] line_starts_spec(s)[k1]) < (
            #[trigger] line_starts_spec(s)[k2]),
{
    lemma_nl_starts_sorted(s, 0);
    assert forall|k1: int, k2: int|
        0 <= k1 < k2 < line_starts_spec(s).len() implies (#[trigger] line_starts_spec(s)[k1]) < (
    #[trigger] line_starts_spec(s)[k2]) by {
        if k1 == 0 {
            assert(line_starts_spec(s)[k2] == nl_starts(s, 0)[k2 - 1]);
        } else {
            assert(line_starts_spec(s)[k1] == nl_starts(s, 0)[k1 - 1]);
            assert(line_starts_spec(s)[k2] == nl_starts(s, 0)[k2 - 1]);
        }
    }
}

/// The chosen line index is in range and its start does not pass `cur`.
proof fn lemma_line_index_bounds(starts: Seq<usize>, cur: int)
    requires
        starts.len() >= 1,
        starts[0] == 0,
        0 <= cur,
    ensures
        0 <= line_index_of(starts, cur) < starts.len(),
        starts[line_index_of(starts, cur)] <= cur,
    decreases starts.len(),
{
    if starts.len() > 1 && !(starts.last() <= cur) {
        lemma_line_index_bounds(starts.drop_last(), cur);
        assert(starts.drop_last()[line_index_of(starts.drop_last(), cur)] == starts[line_index_of(
            starts.drop_last(),
            cur,
        )]);
    }
}

/// Moves the notes cursor one line up or down, keeping the column and
/// clamping it to the destination line's length.
#[verifier::rlimit(50)]
pub fn move_notes_cursor_vert(state: &mut AppState, delta: isize)
    requires
        old(state).inv(),
        delta == 1 || delta == -1isize,
    ensures
        final(state).inv(),
        final(state).notes_cursor == vert_target(
            old(state).notes@,
            old(state).notes_cursor as int,
            delta as int,
        ),
        *final(state) == (AppState { notes_cursor: final(state).notes_cursor, ..*old(state) }),
{
    let ghost s = state.notes@;
    proof {
        assert(s.len() == state.notes.len());
    }
    let cur = state.notes_cursor;
    let starts = line_starts(&state.notes);
    proof {
        lemma_line_starts_sorted(s);
    }
    let mut l: usize = starts.len() - 1;
    proof {
        assert(starts@.subrange(0, starts@.len() as int) =~= starts@);
    }
    while l > 0 && starts[l] > cur
        invariant
            state.inv(),
            state.notes@ == s,
            state.notes_cursor == cur,
            starts@ == line_starts_spec(s),
            l < starts@.len(),
            line_index_of(starts@, cur as int) == line_index_of(
                starts@.subrange(0, l + 1),
                cur as int,
            ),
        decreases l,
    {
        proof {
            assert(starts@.subrange(0, l + 1).drop_last() =~= starts@.subrange(0, l as int));
            assert(starts@.subrange(0, l + 1).last() == starts@[l as int]);
        }
        l = l - 1;
    }
    proof {
        assert(starts@.subrange(0, l + 1).len() == l + 1);
        if l > 0 {
            assert(starts@.subrange(0, l + 1).last() == starts@[l as int]);
        }
        assert(line_index_of(starts@, cur as int) == l as int);
        lemma_line_index_bounds(starts@, cur as int);
    }
    let col = cur - starts[l];
    if delta < 0 {
        if l == 0 {
            return ;
        }
        let nl = l - 1;
        let ls = starts[nl];
        let le = starts[nl + 1] - 1;
        if col <= le - ls {
            state.notes_cursor = ls + col;
        } else {
            state.notes_cursor = le;
        }
    } else {
        let nl = l + 1;
        if nl >= starts.len() {
            return ;
        }
        let ls = starts[nl];
        let le = if nl + 1 < starts.len() {
            starts[nl + 1] - 1
        } else {
            state.notes.len()
        };
        if col <= le - ls {
            state.notes_cursor = ls + col;
        } else {
            state.notes_cursor = le;
        }
    }
}

/// Loads the note of the goal the selection resolves to into the editing
/// buffer, cursor at the end; with no resolvable goal the buffer clears.
pub fn refresh_notes_for_selection(state: &mut AppState, now: i64)
    requires
        old(state).base_inv(),
        crate::app::valid_now(now as int),
    ensures
        final(state).base_inv(),
        old(state).inv() ==> final(state).inv(),
        final(state).notes@ == match selected_goal_spec(
            old(state),
            local_day_of(now as int, old(state).tz_offset as int),
        ) {
            Some(gid) => note_of(old(state).store.notes@, gid),
            None => Seq::<char>::empty(),
        },
        final(state).notes_cursor == final(state).notes@.len(),
        *final(state) == (AppState {
            notes: final(state).notes,
            notes_cursor: final(state).notes_cursor,
            ..*old(state)
        }),
{
    match selected_goal_id(state, now) {
        Some(gid) => {
            let text = state.store.get_note(gid);
            state.notes = chars_of(text.as_str());
            state.notes_cursor = state.notes.len();
        },
        None => {
            state.notes.clear();
            state.notes_cursor = 0;
        },
    }
}

/// Writes the editing buffer back to the store as the note of the goal
/// the selection resolves to; with no resolvable goal nothing happens.
pub fn save_notes_for_selection(state: &mut AppState, now: i64)
    requires
        old(state).base_inv(),
        crate::app::valid_now(now as int),
    ensures
        final(state).base_inv(),
        old(state).inv() ==> final(state).inv(),
        match selected_goal_spec(
            old(state),
            local_day_of(now as int, old(state).tz_offset as int),
        ) {
            Some(gid) => {
                &&& note_of(final(state).store.notes@, gid) == old(state).notes@
                &&& forall|other: u64|
                    other != gid ==> #[trigger] note_of(final(state).store.notes@, other)
                        == note_of(old(state).store.notes@, other)
            },
            None => final(state).store.notes@ == old(state).store.notes@,
        },
        final(state).store.goals@ == old(state).store.goals@,
        final(state).store.sessions@ == old(state).store.sessions@,
        final(state).store.next_goal_id == old(state).store.next_goal_id,
        *final(state) == (AppState { store: final(state).store, ..*old(state) }),
{
    match selected_goal_id(state, now) {
        Some(gid) => {
            let text = string_of(&state.notes);
            state.store.edit_note(gid, text);
        },
        None => {},
    }
}

/// The line and column of the notes cursor.
pub fn notes_cursor_line_col(state: &AppState) -> (r: (usize, usize))
    requires
        state.inv(),
    ensures
        r.0 == line_of(state.notes@, state.notes_cursor as int),
        r.1 == col_of(state.notes@, state.notes_cursor as int),
{
    let ghost s = state.notes@;
    let n = state.notes_cursor;
    let mut line: usize = 0;
    let mut col: usize = 0;
    let mut i: usize = 0;
    proof {
        assert(s.subrange(0, 0) =~= Seq::<char>::empty());
    }
    while i < n
        invariant
            state.inv(),
            s == state.notes@,
            n == state.notes_cursor,
            i <= n,
            n <= s.len(),
            line == line_of(s, i as int),
            col == col_of(s, i as int),
            col <= i,
            line <= i,
        decreases n - i,
    {
        proof {
            assert(s.subrange(0, i + 1).drop_last() =~= s.subrange(0, i as int));
            assert(s.subrange(0, i + 1).last() == s[i as int]);
        }
        if state.notes[i] == '\n' {
            line = line + 1;
            col = 0;
        } else {
            col = col + 1;
        }
        i = i + 1;
    }
    (line, col)
}

/// The start positions of the lines of a note.
pub fn line_starts(notes: &Vec<char>) -> (r: Vec<usize>)
    ensures
        r@ == line_starts_spec(notes@),
{
    let ghost s = notes@;
    let n = notes.len();
    let mut r: Vec<usize> = Vec::new();
    r.push(0);
    let mut i: usize = 0;
    while i < n
        invariant
            n == s.len(),
            notes@ == s,
            i <= n,
            r@ == seq![0usize] + nl_starts_prefix(s, 0, i as int),
        decreases n - i,
    {
        if notes[i] == '\n' {
            r.push(i + 1);
        }
        proof {
            lemma_nl_starts_prefix_step(s, 0, i as int);
        }
        i = i + 1;
    }
    proof {
        lemma_nl_starts_prefix_all(s, 0);
    }
    r
}

/// The line starts after `i` found up to position `j`.
pub open spec fn nl_starts_prefix(s: Seq<char>, i: int, j: int) -> Seq<usize>
    decreases j - i,
{
    if i < 0 || i >= j || i >= s.len() {
        Seq::empty()
    } else if s[i] == '\n' {
        seq![(i + 1) as usize] + nl_starts_prefix(s, i + 1, j)
    } else {
        nl_starts_prefix(s, i + 1, j)
    }
}

proof fn lemma_nl_starts_prefix_step(s: Seq<char>, i: int, j: int)
    requires
        0 <= i <= j < s.len(),
    ensures
        nl_starts_prefix(s, i, j + 1) == nl_starts_prefix(s, i, j) + if s[j] == '\n' {
            seq![(j + 1) as usize]
        } else {
            Seq::<usize>::empty()
        },
    decreases j - i,
{
    if i < j {
        lemma_nl_starts_prefix_step(s, i + 1, j);
        if s[i] == '\n' {
            assert(nl_starts_prefix(s, i, j + 1) =~= nl_starts_prefix(s, i, j) + if s[j] == '\n' {
                seq![(j + 1) as usize]
            } else {
                Seq::<usize>::empty()
            });
        }
    } else {
        assert(nl_starts_prefix(s, i, j) =~= Seq::<usize>::empty());
        assert(nl_starts_prefix(s, j + 1, j + 1) =~= Seq::<usize>::empty());
        if s[j] == '\n' {
            assert(nl_starts_prefix(s, j, j + 1) =~= seq![(j + 1) as usize]);
        } else {
            assert(nl_starts_prefix(s, j, j + 1) =~= Seq::<usize>::empty());
        }
    }
}

proof fn lemma_nl_starts_prefix_all(s: Seq<char>, i: int)
    ensures
        nl_starts_prefix(s, i, s.len() as int) == nl_starts(s, i),
    decreases s.len() - i,
{
    if 0 <= i < s.len() {
        lemma_nl_starts_prefix_all(s, i + 1);
    }
}

/// Moves the notes cursor one character left, stopping at the start.
pub fn move_notes_cursor_left(state: &mut AppState)
    requires
        old(state).inv(),
    ensures
        final(state).inv(),
        final(state).notes_cursor == if old(state).notes_cursor > 0 {
            old(state).notes_cursor - 1
        } else {
            0int
        },
        *final(state) == (AppState { notes_cursor: final(state).notes_cursor, ..*old(state) }),
{
    if state.notes_cursor > 0 {
        state.notes_cursor = state.notes_cursor - 1;
    }
}

/// Moves the notes cursor one character right, stopping at the end.
pub fn move_notes_cursor_right(state: &mut AppState)
    requires
        old(state).inv(),
    ensures
        final(state).inv(),
        final(state).notes_cursor == if old(state).notes_cursor < old(state).notes@.len() {
            old(state).notes_cursor + 1
        } else {
            old(state).notes_cursor as int
        },
        *final(state) == (AppState { notes_cursor: final(state).notes_cursor, ..*old(state) }),
{
    if state.notes_cursor < state.notes.len() {
        state.notes_cursor = state.notes_cursor + 1;
    }
}

/// Moves the notes cursor a word left: over whitespace, then over the
/// word.
pub fn move_notes_cursor_word_left(state: &mut AppState)
    requires
        old(state).inv(),
    ensures
        final(state).inv(),
        final(state).notes_cursor == word_left_target(
            old(state).notes@,
            old(state).notes_cursor as int,
        ),
        *final(state) == (AppState { notes_cursor: final(state).notes_cursor, ..*old(state) }),
{
    let ghost s = state.notes@;
    let ghost c0 = state.notes_cursor as int;
    let mut idx: usize = state.notes_cursor;
    while idx > 0 && is_whitespace_char(state.notes[idx - 1])
        invariant
            state.inv(),
            state.notes@ == s,
            state.notes_cursor == c0,
            idx <= s.len(),
            skip_ws_back(s, c0) == skip_ws_back(s, idx as int),
        decreases idx,
    {
        idx = idx - 1;
    }
    assert(skip_ws_back(s, idx as int) == idx as int);
    while idx > 0 && !is_whitespace_char(state.notes[idx - 1])
        invariant
            state.inv(),
            state.notes@ == s,
            state.notes_cursor == c0,
            idx <= s.len(),
            skip_word_back(s, skip_ws_back(s, c0)) == skip_word_back(s, idx as int),
        decreases idx,
    {
        idx = idx - 1;
    }
    assert(skip_word_back(s, idx as int) == idx as int);
    state.notes_cursor = idx;
}

/// Where a word-right motion in the notes lands: over whitespace first,
/// then over the word.
pub open spec fn notes_word_right_target(s: Seq<char>, i: int) -> int {
    skip_word_fwd(s, skip_ws_fwd(s, i))
}

/// Moves the notes cursor a word right: over whitespace, then over the
/// word.
pub fn move_notes_cursor_word_right(state: &mut AppState)
    requires
        old(state).inv(),
    ensures
        final(state).inv(),
        final(state).notes_cursor == notes_word_right_target(
            old(state).notes@,
            old(state).notes_cursor as int,
        ),
        *final(state) == (AppState { notes_cursor: final(state).notes_cursor, ..*old(state) }),
{
    let ghost s = state.notes@;
    let ghost c0 = state.notes_cursor as int;
    let len = state.notes.len();
    let mut idx: usize = state.notes_cursor;
    while idx < len && is_whitespace_char(state.notes[idx])
        invariant
            state.inv(),
            state.notes@ == s,
            state.notes_cursor == c0,
            len == s.len(),
            idx <= len,
            skip_ws_fwd(s, c0) == skip_ws_fwd(s, idx as int),
        decreases len - idx,
    {
        idx = idx + 1;
    }
    assert(skip_ws_fwd(s, idx as int) == idx as int);
    while idx < len && !is_whitespace_char(state.notes[idx])
        invariant
            state.inv(),
            state.notes@ == s,
            state.notes_cursor == c0,
            len == s.len(),
            idx <= len,
            skip_word_fwd(s, skip_ws_fwd(s, c0)) == skip_word_fwd(s, idx as int),
        decreases len - idx,
    {
        idx = idx + 1;
    }
    assert(skip_word_fwd(s, idx as int) == idx as int);
    state.notes_cursor = idx;
}

} // verus!
