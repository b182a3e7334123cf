use vstd::prelude::*;

use crate::app::{valid_now, AppState};
use crate::clock::{div_floor_i64, local_day_of, DAY_SECS};
use crate::key_event::{AppKeyCode, AppKeyEvent};
use crate::notes::{
    move_notes_cursor_left, move_notes_cursor_right, move_notes_cursor_vert,
    move_notes_cursor_word_left, move_notes_cursor_word_right, notes_word_right_target,
    refresh_notes_for_selection, save_notes_for_selection, vert_target,
};
use crate::search::{candidate_indices, recency_key, search_goals};
use crate::store::{day_indices, latest_index_of, note_of};
use crate::strutil::{chars_of, string_of};
use crate::text_input::{input_stepped, word_left_target, TextInput};
use crate::timer::{finalize_session, finalized_record, start_timer, started_timer_post};
use crate::types::{FocusedBlock, FormField, FormState, Mode, PendingSession, SearchResult};
use crate::ui::{build_view_items, view_count, view_item_spec, ViewItemKind};
use crate::utils::{
    dec_digits, duration_secs_of, notes_refreshed, opt_u32_of, parse_duration, parse_optional_u32,
    selected_goal_spec, suggestion_of, trim_spec,
};

verus! {

/// The query the picker searches for: the trimmed buffer text.
pub open spec fn query_of(state: &AppState) -> Seq<char> {
    trim_spec(state.search_input.value@)
}

/// The name the synthetic create row proposes: the query, or a default
/// name for an empty one.
pub open spec fn create_name_of(q: Seq<char>, want_reward: bool) -> Seq<char> {
    if q.len() == 0 {
        if want_reward {
            "New reward"@
        } else {
            "New goal"@
        }
    } else {
        q
    }
}

/// The label of an existing-goal row in the picker.
pub open spec fn goal_row_label(g: crate::store::Goal) -> Seq<char> {
    g.name@ + " (id "@ + dec_digits(g.id as int) + ")"@
}

/// How the existing-goal rows of the picker relate to the store: `idxs`
/// lists exactly the matching goals, ordered by descending recency, and
/// each row carries that goal's label and id.
pub open spec fn picker_rows_match(
    state: &AppState,
    r: Seq<(String, SearchResult)>,
    idxs: Seq<usize>,
) -> bool {
    let q = query_of(state);
    let want = state.mode is AddReward;
    &&& idxs.to_multiset() == candidate_indices(state.store.goals@, q, want).to_multiset()
    &&& forall|k: int| 0 <= k < idxs.len() ==> (#[trigger] idxs[k]) < state.store.goals@.len()
    &&& forall|a: int, b: int|
        0 <= a < b < idxs.len() ==> recency_key(
            state.store.sessions@,
            state.store.goals@[(#[trigger] idxs[a]) as int].id,
        ) >= recency_key(state.store.sessions@, state.store.goals@[(#[trigger] idxs[b]) as int].id)
    &&& r.len() == idxs.len() + 1
    &&& forall|k: int|
        0 <= k < idxs.len() ==> (#[trigger] r[k]).0@ == goal_row_label(
            state.store.goals@[idxs[k] as int],
        ) && r[k].1 == SearchResult::Existing(state.store.goals@[idxs[k] as int].id)
}

/// The rows of the goal picker: the matching goals, most recently worked
/// first, and an always-present create row for the typed query.
pub fn search_results(state: &AppState, now: i64) -> (r: Vec<(String, SearchResult)>)
    requires
        state.inv(),
        valid_now(now as int),
    ensures
        r@.len() >= 1,
        ({
            let q = query_of(state);
            let want = state.mode is AddReward;
            &&& r@.last().0@ == "Create: "@ + q
            &&& r@.last().1 matches SearchResult::Create { name, is_reward } && name@
                == create_name_of(q, want) && is_reward == want
            &&& exists|idxs: Seq<usize>| #[trigger] picker_rows_match(state, r@, idxs)
        }),
{
    let q = crate::utils::trim_chars(&state.search_input.value);
    let want = matches!(state.mode, Mode::AddReward);
    let idxs = search_goals(&state.store, &q, want);
    let mut r: Vec<(String, SearchResult)> = Vec::new();
    let n = idxs.len();
    let mut k: usize = 0;
    while k < n
        invariant
            state.inv(),
            n == idxs@.len(),
            k <= n,
            forall|j: int| 0 <= j < n ==> (#[trigger] idxs@[j]) < state.store.goals@.len(),
            r@.len() == k,
            forall|j: int|
                0 <= j < k ==> (#[trigger] r@[j]).0@ == goal_row_label(
                    state.store.goals@[idxs@[j] as int],
                ) && r@[j].1 == SearchResult::Existing(state.store.goals@[idxs@[j] as int].id),
        decreases n - k,
    {
        let gi = idxs[k];
        let g = &state.store.goals[gi];
        let mut v: Vec<char> = Vec::new();
        let mut name = chars_of(g.name.as_str());
        v.append(&mut name);
        let mut sep = chars_of(" (id ");
        v.append(&mut sep);
        let mut idc = crate::utils::u64_to_chars(g.id);
        v.append(&mut idc);
        let mut close = chars_of(")");
        v.append(&mut close);
        proof {
            assert(v@ =~= goal_row_label(state.store.goals@[gi as int]));
        }
        let label = string_of(&v);
        r.push((label, SearchResult::Existing(g.id)));
        k = k + 1;
    }
    let mut cv: Vec<char> = Vec::new();
    let mut cpre = chars_of("Create: ");
    cv.append(&mut cpre);
    let mut qc = q.clone();
    cv.append(&mut qc);
    proof {
        assert(cv@ =~= "Create: "@ + query_of(state));
    }
    let create_label = string_of(&cv);
    let name: String = if q.len() == 0 {
        if want {
            let s = String::from_str("New reward");
            s
        } else {
            let s = String::from_str("New goal");
            s
        }
    } else {
        string_of(&q)
    };
    r.push((create_label, SearchResult::Create { name, is_reward: want }));
    proof {
        let ghost idxs_g = idxs@;
        assert(r@.last().1 matches SearchResult::Create { name, is_reward } && name@
            == create_name_of(query_of(state), want) && is_reward == want);
        assert forall|j: int|
            0 <= j < idxs_g.len() implies (#[trigger] r@[j]).0@ == goal_row_label(
            state.store.goals@[idxs_g[j] as int],
        ) && r@[j].1 == SearchResult::Existing(state.store.goals@[idxs_g[j] as int].id) by {
            assert(r@[j] == r@.drop_last()[j]);
        }
        assert(picker_rows_match(state, r@, idxs_g));
    }
    r
}

/// Shifts the viewed day, never past today; after a change the list is
/// reloaded, the newest entry selected and the notes panel refreshed.
pub fn shift_day(state: &mut AppState, delta: i64, now: i64)
    requires
        old(state).inv(),
        valid_now(now as int),
        -2 <= delta <= 2,
        i64::MIN + 2 < old(state).current_day < i64::MAX - 2,
    ensures
        final(state).inv(),
        delta == 0 ==> *final(state) == *old(state),
        delta != 0 ==> shifted_day_post(
            old(state),
            final(state),
            delta as int,
            local_day_of(now as int, old(state).tz_offset as int),
        ),
{
    if delta == 0 {
        return ;
    }
    let today = div_floor_i64(now + state.tz_offset, DAY_SECS);
    let new_day = state.current_day + delta;
    if new_day > today {
        return ;
    }
    state.current_day = new_day;
    state.nodes = state.store.day_sessions(new_day);
    let slen = state.store.sessions.len();
    proof {
        assert(state.store.sessions@.len() == slen);
        assert forall|i: int| 0 <= i < state.nodes@.len() implies (#[trigger] state.nodes@[i])
            < state.store.sessions@.len() by {
            crate::store::lemma_day_indices_bounds(state.store.sessions@, new_day, i);
        }
    }
    let items = build_view_items(state, 20, now);
    if items.len() > 0 {
        state.selected = items.len() - 1;
    } else {
        state.selected = 0;
    }
    refresh_notes_for_selection(state, now);
}

/// Where the selection lands on a move up.
pub open spec fn sel_up(sel: int) -> int {
    if sel > 0 {
        sel - 1
    } else {
        0
    }
}

/// Where the selection lands on a move down: clamped to the last row.
pub open spec fn sel_down(sel: int, count: int) -> int {
    let m = if count > 0 {
        count - 1
    } else {
        0
    };
    if sel >= m {
        m
    } else {
        sel + 1
    }
}

/// What a day shift leaves behind: the view never moves past today; a
/// real change reloads the day's session list, selects the newest row
/// and refreshes the notes panel, touching nothing else.
pub open spec fn shifted_day_post(pre: &AppState, post: &AppState, delta: int, today: int) -> bool {
    if pre.current_day + delta > today {
        *post == *pre
    } else {
        &&& post.current_day == pre.current_day + delta
        &&& post.nodes@ == day_indices(pre.store.sessions@, (pre.current_day + delta) as i64)
        &&& *post == (AppState {
            current_day: post.current_day,
            nodes: post.nodes,
            selected: post.selected,
            notes: post.notes,
            notes_cursor: post.notes_cursor,
            ..*pre
        })
        &&& (post.selected + 1 == view_count(post, today) || (post.selected == 0 && view_count(
            post,
            today,
        ) == 0))
        &&& notes_refreshed(post, today)
    }
}

/// What a selection move up leaves behind: one row up, stopping at the
/// first; a real move refreshes the notes panel and touches nothing
/// else.
pub open spec fn moved_up_post(pre: &AppState, post: &AppState, today: int) -> bool {
    &&& post.selected == sel_up(pre.selected as int)
    &&& pre.selected == 0 ==> *post == *pre
    &&& pre.selected > 0 ==> (*post == (AppState {
        selected: post.selected,
        notes: post.notes,
        notes_cursor: post.notes_cursor,
        ..*pre
    }) && notes_refreshed(post, today))
}

/// What a selection move down leaves behind: one row down, clamped to
/// the last; a real move refreshes the notes panel and touches nothing
/// else.
pub open spec fn moved_down_post(pre: &AppState, post: &AppState, today: int) -> bool {
    let target = sel_down(pre.selected as int, view_count(pre, today));
    &&& post.selected == target
    &&& target == pre.selected as int ==> *post == *pre
    &&& target != pre.selected as int ==> (*post == (AppState {
        selected: post.selected,
        notes: post.notes,
        notes_cursor: post.notes_cursor,
        ..*pre
    }) && notes_refreshed(post, today))
}

/// What opening the goal picker leaves behind: the picker mode for the
/// wanted pool over an empty query, and nothing else touched.
pub open spec fn picker_opened_post(pre: &AppState, post: &AppState, reward: bool) -> bool {
    &&& post.mode == (if reward {
        Mode::AddReward
    } else {
        Mode::AddSession
    })
    &&& post.search_input.value@ == Seq::<char>::empty()
    &&& post.search_input.cursor == 0
    &&& *post == (AppState {
        mode: post.mode,
        search_input: post.search_input,
        search_selected: 0,
        ..*pre
    })
}

/// What Enter in the base view leaves behind: an add row opens the
/// matching picker, but never while a timer runs; an existing row, the
/// timer row, or an out-of-range selection changes nothing.
pub open spec fn enter_view_post(pre: &AppState, post: &AppState, today: int) -> bool {
    let cnt = view_count(pre, today);
    &&& pre.timer is Some ==> *post == *pre
    &&& pre.selected as int >= cnt ==> *post == *pre
    &&& (pre.timer is None && (pre.selected as int) < cnt) ==> ({
        let k = view_item_spec(pre, today, pre.selected as int).1;
        if k == ViewItemKind::AddSession {
            picker_opened_post(pre, post, false)
        } else if k == ViewItemKind::AddReward {
            picker_opened_post(pre, post, true)
        } else {
            *post == *pre
        }
    })
}

/// What entering note editing leaves behind: with a resolvable goal the
/// notes panel takes focus with that goal's note loaded; otherwise
/// nothing changes.
pub open spec fn notes_opened_post(pre: &AppState, post: &AppState, today: int) -> bool {
    if selected_goal_spec(pre, today) is Some {
        &&& post.mode is NotesEdit
        &&& *post == (AppState {
            mode: post.mode,
            focused_block: FocusedBlock::Notes,
            notes: post.notes,
            notes_cursor: post.notes_cursor,
            ..*pre
        })
        &&& notes_refreshed(post, today)
    } else {
        *post == *pre
    }
}

/// Everything a key does in the base view (and, via delegation, while
/// the timer runs).
pub open spec fn view_key_post(pre: &AppState, post: &AppState, key: AppKeyEvent, now: int) -> bool {
    let today = local_day_of(now, pre.tz_offset as int);
    match key.code {
        AppKeyCode::Up => moved_up_post(pre, post, today),
        AppKeyCode::Down => moved_down_post(pre, post, today),
        AppKeyCode::Left => shifted_day_post(pre, post, -1, today),
        AppKeyCode::Right => shifted_day_post(pre, post, 1, today),
        AppKeyCode::Enter => enter_view_post(pre, post, today),
        AppKeyCode::Char(c) => {
            if c == 'k' {
                moved_up_post(pre, post, today)
            } else if c == 'j' {
                moved_down_post(pre, post, today)
            } else if c == 'h' {
                shifted_day_post(pre, post, -1, today)
            } else if c == 'l' {
                shifted_day_post(pre, post, 1, today)
            } else if c == 'e' {
                notes_opened_post(pre, post, today)
            } else {
                *post == *pre
            }
        },
        _ => *post == *pre,
    }
}

/// Handles a key in the base view: list and day navigation, entering
/// note editing, and opening the goal picker from an add row, which is
/// refused while a timer runs.
pub fn handle_view_key(state: &mut AppState, key: &AppKeyEvent, now: i64)
    requires
        old(state).inv(),
        valid_now(now as int),
        old(state).mode is View || old(state).mode is Timer,
        i64::MIN + 2 < old(state).current_day < i64::MAX - 2,
    ensures
        final(state).inv(),
        view_key_post(old(state), final(state), *key, now as int),
{
    match key.code {
        AppKeyCode::Char(c) => {
            if c == 'q' {
                // quitting is the caller's concern
            } else if c == 'k' {
                view_move_up(state, now);
            } else if c == 'j' {
                view_move_down(state, now);
            } else if c == 'h' {
                shift_day(state, -1, now);
            } else if c == 'l' {
                shift_day(state, 1, now);
            } else if c == 'e' {
                if crate::utils::selected_goal_id(state, now).is_some() {
                    refresh_notes_for_selection(state, now);
                    state.mode = Mode::NotesEdit;
                    state.focused_block = FocusedBlock::Notes;
                }
            }
        },
        AppKeyCode::Up => {
            view_move_up(state, now);
        },
        AppKeyCode::Down => {
            view_move_down(state, now);
        },
        AppKeyCode::Left => {
            shift_day(state, -1, now);
        },
        AppKeyCode::Right => {
            shift_day(state, 1, now);
        },
        AppKeyCode::Enter => {
            let items = build_view_items(state, 20, now);
            if state.selected < items.len() {
                match items[state.selected].kind {
                    ViewItemKind::AddSession => {
                        if state.timer.is_none() {
                            state.mode = Mode::AddSession;
                            state.search_input.clear();
                            state.search_selected = 0;
                        }
                    },
                    ViewItemKind::AddReward => {
                        if state.timer.is_none() {
                            state.mode = Mode::AddReward;
                            state.search_input.clear();
                            state.search_selected = 0;
                        }
                    },
                    ViewItemKind::RunningTimer => {},
                    ViewItemKind::Existing(_, _) => {},
                }
            }
        },
        _ => {},
    }
}

/// Moves the selection one row up; a real move refreshes the notes.
fn view_move_up(state: &mut AppState, now: i64)
    requires
        old(state).inv(),
        valid_now(now as int),
    ensures
        final(state).inv(),
        moved_up_post(
            old(state),
            final(state),
            local_day_of(now as int, old(state).tz_offset as int),
        ),
{
    let prev = state.selected;
    if state.selected > 0 {
        state.selected = state.selected - 1;
    }
    if state.selected != prev {
        refresh_notes_for_selection(state, now);
    }
}

/// Moves the selection one row down, clamped to the last row; a real
/// move refreshes the notes.
fn view_move_down(state: &mut AppState, now: i64)
    requires
        old(state).inv(),
        valid_now(now as int),
    ensures
        final(state).inv(),
        moved_down_post(
            old(state),
            final(state),
            local_day_of(now as int, old(state).tz_offset as int),
        ),
{
    let items = build_view_items(state, 20, now);
    let max_idx = if items.len() > 0 {
        items.len() - 1
    } else {
        0
    };
    let prev = state.selected;
    let clamped = if state.selected < max_idx {
        state.selected + 1
    } else {
        max_idx
    };
    state.selected = clamped;
    if state.selected != prev {
        refresh_notes_for_selection(state, now);
    }
}

/// What Enter in the picker leaves behind. On an existing row: the
/// duration prompt for that goal, prefilled from its most recent
/// session's length (or the default with no history). On the create
/// row: the goal form prefilled with the query. Past the end: nothing.
pub open spec fn search_enter_post(pre: &AppState, post: &AppState) -> bool {
    let q = query_of(pre);
    let want = pre.mode is AddReward;
    let cnt = candidate_indices(pre.store.goals@, q, want).len();
    &&& pre.search_selected > cnt ==> *post == *pre
    &&& pre.search_selected == cnt ==> ({
        &&& post.mode is GoalForm
        &&& post.form_state matches Some(f) && f.goal_name.value@ == create_name_of(q, want)
            && f.goal_name.cursor == f.goal_name.value@.len() && f.is_reward == want
            && f.current_field == FormField::GoalName && f.quantity_name.value@ == Seq::<
            char,
        >::empty() && f.commands.value@ == Seq::<char>::empty()
        &&& post.search_input.value@ == Seq::<char>::empty()
        &&& *post == (AppState {
            mode: post.mode,
            form_state: post.form_state,
            search_input: post.search_input,
            search_selected: 0,
            ..*pre
        })
    })
    &&& (pre.search_selected as int) < cnt ==> (exists|gi: int|
        0 <= gi < pre.store.goals@.len() && crate::search::is_candidate(
            #[trigger] pre.store.goals@[gi],
            q,
            want,
        ) && ({
            let g = pre.store.goals@[gi];
            &&& post.mode matches Mode::DurationInput { is_reward, goal_name, goal_id }
                && is_reward == want && goal_id == g.id && goal_name@ == g.name@
            &&& post.duration_input.value@ == (match latest_index_of(pre.store.sessions@, g.id) {
                Some(j) => suggestion_of(
                    (pre.store.sessions@[j].end_at - pre.store.sessions@[j].start_at) / 60,
                ),
                None => "25m"@,
            })
            &&& post.search_input.value@ == Seq::<char>::empty()
            &&& *post == (AppState {
                mode: post.mode,
                duration_input: post.duration_input,
                search_input: post.search_input,
                search_selected: 0,
                ..*pre
            })
        }))
}

/// Everything a key does in the goal picker.
pub open spec fn search_key_post(pre: &AppState, post: &AppState, key: AppKeyEvent, now: int) -> bool {
    if TextInput::consumes(key) {
        &&& input_stepped(pre.search_input, post.search_input, key)
        &&& *post == (AppState {
            search_input: post.search_input,
            search_selected: 0,
            ..*pre
        })
    } else {
        match key.code {
            AppKeyCode::Esc => {
                &&& post.mode is View
                &&& post.search_input.value@ == Seq::<char>::empty()
                &&& post.search_input.cursor == 0
                &&& *post == (AppState {
                    mode: post.mode,
                    search_input: post.search_input,
                    search_selected: 0,
                    ..*pre
                })
            },
            AppKeyCode::Enter => search_enter_post(pre, post),
            AppKeyCode::Up => {
                &&& post.search_selected == (if pre.search_selected > 0 {
                    pre.search_selected - 1
                } else {
                    0int
                })
                &&& *post == (AppState { search_selected: post.search_selected, ..*pre })
            },
            AppKeyCode::Down => ({
                let cnt = candidate_indices(
                    pre.store.goals@,
                    query_of(pre),
                    pre.mode is AddReward,
                ).len();
                &&& post.search_selected == (if (pre.search_selected as int) < cnt {
                    pre.search_selected + 1
                } else {
                    cnt as int
                })
                &&& *post == (AppState { search_selected: post.search_selected, ..*pre })
            }),
            _ => *post == *pre,
        }
    }
}

/// Handles a key in the goal picker: buffer edits narrow the search,
/// arrows move the highlighted row, Enter picks an existing goal (moving
/// on to the duration prompt with a suggestion from its most recent
/// session) or the create row (opening the goal form pre-filled with the
/// query), and Esc cancels back to the view.
pub fn handle_search_key(state: &mut AppState, key: &AppKeyEvent, now: i64)
    requires
        old(state).inv(),
        valid_now(now as int),
        old(state).mode is AddSession || old(state).mode is AddReward,
        old(state).search_input.value@.len() < usize::MAX,
    ensures
        final(state).inv(),
        search_key_post(old(state), final(state), *key, now as int),
{
    let consumed = state.search_input.handle_key(key);
    if consumed {
        state.search_selected = 0;
        return ;
    }
    match key.code {
        AppKeyCode::Esc => {
            state.mode = Mode::View;
            state.search_input.clear();
            state.search_selected = 0;
        },
        AppKeyCode::Enter => {
            let results = search_results(state, now);
            let ghost idxs = choose|idxs: Seq<usize>| picker_rows_match(state, results@, idxs);
            proof {
                vstd::seq_lib::to_multiset_len(idxs);
                vstd::seq_lib::to_multiset_len(
                    candidate_indices(
                        state.store.goals@,
                        query_of(state),
                        state.mode is AddReward,
                    ),
                );
                assert(idxs.len() == candidate_indices(
                    state.store.goals@,
                    query_of(state),
                    state.mode is AddReward,
                ).len());
            }
            if state.search_selected < results.len() {
                let ghost sel_g = state.search_selected as int;
                state.search_input.clear();
                let sel = state.search_selected;
                state.search_selected = 0;
                match &results[sel].1 {
                    SearchResult::Create { name, is_reward } => {
                        state.form_state = Some(
                            FormState {
                                current_field: FormField::GoalName,
                                goal_name: TextInput::from_string(chars_of(name.as_str())),
                                quantity_name: TextInput::new(Vec::new()),
                                commands: TextInput::new(Vec::new()),
                                is_reward: *is_reward,
                            },
                        );
                        state.mode = Mode::GoalForm;
                    },
                    SearchResult::Existing(gid) => {
                        let glen = state.store.goals.len();
                        proof {
                            assert(old(state).store.goals@.len() == glen);
                            let gi = idxs[sel_g];
                            let cand = candidate_indices(
                                old(state).store.goals@,
                                query_of(old(state)),
                                old(state).mode is AddReward,
                            );
                            assert(idxs.contains(gi)) by {
                                assert(idxs[sel_g] == gi);
                            }
                            vstd::seq_lib::to_multiset_contains(idxs, gi);
                            vstd::seq_lib::to_multiset_contains(cand, gi);
                            assert(cand.contains(gi));
                            crate::search::lemma_candidate_member(
                                old(state).store.goals@,
                                query_of(old(state)),
                                old(state).mode is AddReward,
                                gi,
                            );
                            assert(*gid == old(state).store.goals@[gi as int].id);
                        }
                        let goal_id = *gid;
                        let goal_name = match state.store.find_goal(goal_id) {
                            Some(i) => state.store.goals[i].name.clone(),
                            None => {
                                proof {
                                    crate::store::lemma_goal_index_some(
                                        old(state).store.goals@,
                                        goal_id,
                                        idxs[sel_g] as int,
                                    );
                                }
                                String::new()
                            },
                        };
                        proof {
                            let gi = idxs[sel_g];
                            let goals = old(state).store.goals@;
                            match crate::store::goal_index_of(goals, goal_id) {
                                Some(fi) => {
                                    assert(goals[fi].id == goal_id);
                                    assert(goals[gi as int].id == goal_id);
                                    if fi != gi as int {
                                        assert(goals[fi].id != goals[gi as int].id);
                                    }
                                    assert(goal_name@ == goals[gi as int].name@);
                                },
                                None => {
                                    assert(false);
                                },
                            }
                        }
                        let suggestion: String = match state.store.latest_session(goal_id) {
                            Some(si) => {
                                proof {
                                    crate::store::lemma_latest_index_bounds(
                                        state.store.sessions@,
                                        goal_id,
                                    );
                                }
                                let s = &state.store.sessions[si];
                                let mins = (s.end_at - s.start_at) / 60;
                                crate::utils::format_duration_suggestion(mins)
                            },
                            None => {
                                let s = String::from_str("25m");
                                s
                            },
                        };
                        state.duration_input = TextInput::from_string(
                            chars_of(suggestion.as_str()),
                        );
                        let is_reward = matches!(state.mode, Mode::AddReward);
                        state.mode = Mode::DurationInput { is_reward, goal_name, goal_id };
                    },
                }
            }
        },
        AppKeyCode::Up => {
            if state.search_selected > 0 {
                state.search_selected = state.search_selected - 1;
            }
        },
        AppKeyCode::Down => {
            let results = search_results(state, now);
            let ghost idxs = choose|idxs: Seq<usize>| picker_rows_match(state, results@, idxs);
            proof {
                vstd::seq_lib::to_multiset_len(idxs);
                vstd::seq_lib::to_multiset_len(
                    candidate_indices(
                        state.store.goals@,
                        query_of(state),
                        state.mode is AddReward,
                    ),
                );
            }
            let len = results.len();
            if len > 0 {
                if state.search_selected < len - 1 {
                    state.search_selected = state.search_selected + 1;
                } else {
                    state.search_selected = len - 1;
                }
            }
        },
        _ => {},
    }
}

/// The field after `f` in the circular Tab order.
pub open spec fn field_after(f: FormField) -> FormField {
    match f {
        FormField::GoalName => FormField::Quantity,
        FormField::Quantity => FormField::Commands,
        FormField::Commands => FormField::GoalName,
    }
}

/// The field before `f` in the circular Tab order.
pub open spec fn field_before(f: FormField) -> FormField {
    match f {
        FormField::GoalName => FormField::Commands,
        FormField::Quantity => FormField::GoalName,
        FormField::Commands => FormField::Quantity,
    }
}

/// What one circular field move leaves behind: only the focused-field
/// marker changes.
pub open spec fn form_cycled_post(pre: &AppState, post: &AppState, f: FormState, to: FormField) -> bool {
    *post == (AppState {
        form_state: Some((FormState { current_field: to, ..f })),
        ..*pre
    })
}

/// What Enter in the goal form leaves behind: nothing for an empty
/// trimmed name; otherwise the goal is created from the form's fields
/// under a fresh id and the duration prompt opens with the default
/// suggestion.
pub open spec fn form_enter_post(pre: &AppState, post: &AppState, f: FormState) -> bool {
    let name = trim_spec(f.goal_name.value@);
    &&& name.len() == 0 ==> *post == *pre
    &&& name.len() > 0 ==> ({
        let qn = trim_spec(f.quantity_name.value@);
        &&& post.store.goals@.len() == pre.store.goals@.len() + 1
        &&& post.store.goals@.subrange(0, pre.store.goals@.len() as int) == pre.store.goals@
        &&& ({
            let g = post.store.goals@.last();
            &&& g.id == pre.store.next_goal_id
            &&& g.name@ == name
            &&& g.is_reward == f.is_reward
            &&& g.quantity_name is Some <==> qn.len() > 0
            &&& qn.len() > 0 ==> g.quantity_name->0@ == qn
            &&& g.commands@.map_values(|s: String| s@) == crate::utils::commands_of(
                f.commands.value@,
            )
        })
        &&& post.store.next_goal_id == pre.store.next_goal_id + 1
        &&& post.store.sessions@ == pre.store.sessions@
        &&& post.store.notes@ == pre.store.notes@
        &&& post.mode matches Mode::DurationInput { is_reward, goal_name, goal_id } && is_reward
            == f.is_reward && goal_name@ == name && goal_id == pre.store.next_goal_id
        &&& post.duration_input.value@ == "25m"@
        &&& *post == (AppState {
            store: post.store,
            mode: post.mode,
            duration_input: post.duration_input,
            form_state: None,
            ..*pre
        })
    })
}

/// Everything a key does in the goal form.
pub open spec fn form_key_post(pre: &AppState, post: &AppState, key: AppKeyEvent, now: int) -> bool {
    match pre.form_state {
        None => *post == (AppState { mode: Mode::View, ..*pre }),
        Some(f) => {
            if TextInput::consumes(key) {
                &&& post.form_state matches Some(nf) && nf.current_field == f.current_field
                    && nf.is_reward == f.is_reward && (match f.current_field {
                    FormField::GoalName => input_stepped(f.goal_name, nf.goal_name, key)
                        && nf.quantity_name == f.quantity_name && nf.commands == f.commands,
                    FormField::Quantity => input_stepped(f.quantity_name, nf.quantity_name, key)
                        && nf.goal_name == f.goal_name && nf.commands == f.commands,
                    FormField::Commands => input_stepped(f.commands, nf.commands, key)
                        && nf.goal_name == f.goal_name && nf.quantity_name == f.quantity_name,
                })
                &&& *post == (AppState { form_state: post.form_state, ..*pre })
            } else {
                match key.code {
                    AppKeyCode::Esc => *post == (AppState {
                        mode: Mode::View,
                        form_state: None,
                        ..*pre
                    }),
                    AppKeyCode::Up => form_cycled_post(pre, post, f, field_before(f.current_field)),
                    AppKeyCode::BackTab => form_cycled_post(
                        pre,
                        post,
                        f,
                        field_before(f.current_field),
                    ),
                    AppKeyCode::Down => form_cycled_post(pre, post, f, field_after(f.current_field)),
                    AppKeyCode::Tab => form_cycled_post(pre, post, f, field_after(f.current_field)),
                    AppKeyCode::Enter => form_enter_post(pre, post, f),
                    _ => *post == *pre,
                }
            }
        },
    }
}

/// Handles a key in the goal form: field edits, circular Tab and arrow
/// motion over the three fields, Esc discarding the form, and Enter
/// creating the goal once the trimmed name is non-empty, then moving on
/// to the duration prompt with the default suggestion.
pub fn handle_form_key(state: &mut AppState, key: &AppKeyEvent, now: i64)
    requires
        old(state).inv(),
        valid_now(now as int),
        old(state).mode is GoalForm,
        old(state).timer is None,
        old(state).store.next_goal_id < u64::MAX,
        old(state).form_state matches Some(f) ==> f.goal_name.value@.len() < usize::MAX
            && f.quantity_name.value@.len() < usize::MAX && f.commands.value@.len() < usize::MAX,
    ensures
        final(state).inv(),
        form_key_post(old(state), final(state), *key, now as int),
{
    if state.form_state.is_none() {
        state.mode = Mode::View;
        return ;
    }
    let consumed: bool;
    match &mut state.form_state {
        Some(form) => {
            let field = match form.current_field {
                FormField::GoalName => &mut form.goal_name,
                FormField::Quantity => &mut form.quantity_name,
                FormField::Commands => &mut form.commands,
            };
            consumed = field.handle_key(key);
        },
        None => {
            consumed = false;
        },
    }
    if consumed {
        return ;
    }
    match key.code {
        AppKeyCode::Esc => {
            state.form_state = None;
            state.mode = Mode::View;
        },
        AppKeyCode::Up | AppKeyCode::BackTab => {
            match &mut state.form_state {
                Some(form) => {
                    form.current_field = match form.current_field {
                        FormField::GoalName => FormField::Commands,
                        FormField::Quantity => FormField::GoalName,
                        FormField::Commands => FormField::Quantity,
                    };
                },
                None => {},
            }
        },
        AppKeyCode::Down | AppKeyCode::Tab => {
            match &mut state.form_state {
                Some(form) => {
                    form.current_field = match form.current_field {
                        FormField::GoalName => FormField::Quantity,
                        FormField::Quantity => FormField::Commands,
                        FormField::Commands => FormField::GoalName,
                    };
                },
                None => {},
            }
        },
        AppKeyCode::Enter => {
            form_submit(state, now);
        },
        _ => {},
    }
}

/// Creates the goal described by the form, if its trimmed name is
/// non-empty, and moves on to the duration prompt.
fn form_submit(state: &mut AppState, now: i64)
    requires
        old(state).inv(),
        valid_now(now as int),
        old(state).mode is GoalForm,
        old(state).timer is None,
        old(state).form_state is Some,
        old(state).store.next_goal_id < u64::MAX,
    ensures
        final(state).inv(),
        form_enter_post(old(state), final(state), old(state).form_state->0),
{
    let (name_t, qn_t, commands_text, is_reward) = match &state.form_state {
        Some(form) => {
            let name_t = crate::utils::trim_chars(&form.goal_name.value);
            let qn_t = crate::utils::trim_chars(&form.quantity_name.value);
            let commands_text = string_of(&form.commands.value);
            (name_t, qn_t, commands_text, form.is_reward)
        },
        None => {
            return ;
        },
    };
    if name_t.len() == 0 {
        return ;
    }
    let name = string_of(&name_t);
    let quantity_name: Option<String> = if qn_t.len() == 0 {
        None
    } else {
        Some(string_of(&qn_t))
    };
    let commands = crate::utils::parse_commands_input(commands_text.as_str());
    let goal_name_for_mode = string_of(&name_t);
    let goal_id = state.store.add_goal(name, is_reward, commands, quantity_name);
    state.form_state = None;
    state.duration_input = TextInput::from_string(chars_of("25m"));
    state.mode = Mode::DurationInput { is_reward, goal_name: goal_name_for_mode, goal_id };
    proof {
        assert(state.store.goals@.subrange(0, old(state).store.goals@.len() as int) =~= old(
            state,
        ).store.goals@);
    }
}

/// The seconds Enter in the duration prompt starts the timer with: the
/// parsed value, clamped to what a record can hold, with 25 minutes
/// standing in for anything unparseable or zero.
pub open spec fn prompt_seconds(text: Seq<char>) -> int {
    match duration_secs_of(text) {
        Some(v) => if v > u64::MAX {
            1500int
        } else if v > u32::MAX {
            u32::MAX as int
        } else if v == 0 {
            1500int
        } else {
            v
        },
        None => 1500int,
    }
}

/// Everything a key does in the duration prompt.
pub open spec fn duration_key_post(pre: &AppState, post: &AppState, key: AppKeyEvent, now: int) -> bool {
    if TextInput::consumes(key) {
        &&& input_stepped(pre.duration_input, post.duration_input, key)
        &&& *post == (AppState { duration_input: post.duration_input, ..*pre })
    } else {
        match key.code {
            AppKeyCode::Esc => {
                &&& post.duration_input.value@ == Seq::<char>::empty()
                &&& post.duration_input.cursor == 0
                &&& *post == (AppState {
                    mode: Mode::View,
                    duration_input: post.duration_input,
                    ..*pre
                })
            },
            AppKeyCode::Enter => (pre.mode matches Mode::DurationInput {
                is_reward,
                goal_name,
                goal_id,
            } ==> started_timer_post(
                pre,
                post,
                goal_name@,
                goal_id,
                prompt_seconds(pre.duration_input.value@) as u32,
                is_reward,
                now,
            )),
            _ => *post == *pre,
        }
    }
}

/// Handles a key in the duration prompt: buffer edits, Esc cancelling
/// back to the view, and Enter starting the timer, falling back to 25
/// minutes on unparseable input so the flow never rejects.
#[verifier::rlimit(60)]
pub fn handle_duration_key(state: &mut AppState, key: &AppKeyEvent, now: i64)
    requires
        old(state).inv(),
        valid_now(now as int),
        old(state).mode is DurationInput,
        old(state).timer is None,
        old(state).pending_session is None,
        old(state).duration_input.value@.len() < usize::MAX,
    ensures
        final(state).inv(),
        duration_key_post(old(state), final(state), *key, now as int),
{
    let consumed = state.duration_input.handle_key(key);
    if consumed {
        return ;
    }
    match key.code {
        AppKeyCode::Esc => {
            state.duration_input.clear();
            state.mode = Mode::View;
        },
        AppKeyCode::Enter => {
            let (is_reward, goal_name, goal_id) = match &state.mode {
                Mode::DurationInput { is_reward, goal_name, goal_id } => {
                    (*is_reward, goal_name.clone(), *goal_id)
                },
                _ => {
                    return ;
                },
            };
            let text = string_of(&state.duration_input.value);
            let parsed = parse_duration(text.as_str());
            proof {
                assert(text@ == old(state).duration_input.value@);
                let sv = duration_secs_of(old(state).duration_input.value@);
                match sv {
                    Some(v) => {
                        if v <= u64::MAX {
                            assert(parsed == Some(v as u64));
                        } else {
                            assert(parsed is None);
                        }
                    },
                    None => {
                        assert(parsed is None);
                    },
                }
            }
            let secs: u32 = match parsed {
                Some(v) => {
                    if v > 0xffff_ffff {
                        0xffff_ffff
                    } else if v == 0 {
                        1500
                    } else {
                        v as u32
                    }
                },
                None => 1500,
            };
            proof {
                crate::utils::lemma_duration_secs_positive(old(state).duration_input.value@);
                let specsecs: int = match duration_secs_of(old(state).duration_input.value@) {
                    Some(v) => if v > u64::MAX {
                        1500int
                    } else if v > u32::MAX {
                        u32::MAX as int
                    } else if v == 0 {
                        1500int
                    } else {
                        v
                    },
                    None => 1500int,
                };
                assert(secs as int == specsecs);
            }
            start_timer(state, goal_name, goal_id, secs, is_reward, now);
        },
        _ => {},
    }
}

/// What finalizing from the quantity prompt leaves behind: exactly one
/// new session record, the pending value consumed, the base view
/// restored with the prompt buffer cleared, and, when the record lands
/// on the viewed day, the day list reloaded with the newest row
/// selected and its note shown.
pub open spec fn prompt_finalized_post(
    pre: &AppState,
    post: &AppState,
    p: PendingSession,
    qty: Option<u32>,
    now: int,
) -> bool {
    let tz = pre.tz_offset as int;
    let today_now = local_day_of(now, tz);
    let day = local_day_of(p.started_at as int, tz);
    &&& post.mode is View
    &&& post.focused_block == FocusedBlock::SessionsList
    &&& post.timer is None
    &&& post.pending_session is None
    &&& post.store.sessions@ == pre.store.sessions@.push(finalized_record(p, qty, tz))
    &&& post.store.goals@ == pre.store.goals@
    &&& post.store.notes@ == pre.store.notes@
    &&& post.store.next_goal_id == pre.store.next_goal_id
    &&& post.quantity_input.value@ == Seq::<char>::empty()
    &&& post.current_day == pre.current_day
    &&& post.tz_offset == pre.tz_offset
    &&& post.search_input == pre.search_input
    &&& post.duration_input == pre.duration_input
    &&& post.search_selected == pre.search_selected
    &&& post.form_state == pre.form_state
    &&& post.spawn_requests@ == pre.spawn_requests@
    &&& post.teardown_requests@ == pre.teardown_requests@
    &&& pre.current_day == day ==> post.nodes@ == day_indices(post.store.sessions@, day as i64)
        && (post.selected + 1 == view_count(post, today_now)) && notes_refreshed(post, today_now)
    &&& pre.current_day != day ==> post.nodes@ == pre.nodes@ && post.selected == pre.selected
        && post.notes@ == pre.notes@ && post.notes_cursor == pre.notes_cursor
}

/// Everything a key does in the quantity prompt.
pub open spec fn quantity_key_post(pre: &AppState, post: &AppState, key: AppKeyEvent, now: int) -> bool {
    if TextInput::consumes(key) {
        &&& input_stepped(pre.quantity_input, post.quantity_input, key)
        &&& *post == (AppState { quantity_input: post.quantity_input, ..*pre })
    } else {
        match key.code {
            AppKeyCode::Esc => {
                &&& pre.pending_session matches Some(p) ==> prompt_finalized_post(
                    pre,
                    post,
                    p,
                    None::<u32>,
                    now,
                )
                &&& pre.pending_session is None ==> (post.quantity_input.value@ == Seq::<
                    char,
                >::empty() && post.quantity_input.cursor == 0 && *post == (AppState {
                    mode: Mode::View,
                    quantity_input: post.quantity_input,
                    ..*pre
                }))
            },
            AppKeyCode::Enter => ({
                let qty = opt_u32_of(pre.quantity_input.value@);
                &&& pre.pending_session matches Some(p) ==> prompt_finalized_post(
                    pre,
                    post,
                    p,
                    qty,
                    now,
                )
                &&& pre.pending_session is None ==> (post.quantity_input.value@ == Seq::<
                    char,
                >::empty() && post.quantity_input.cursor == 0 && *post == (AppState {
                    quantity_input: post.quantity_input,
                    ..*pre
                }))
            }),
            _ => *post == *pre,
        }
    }
}

/// Handles a key in the quantity prompt: buffer edits, Enter finalizing
/// the pending session with the parsed quantity, and Esc finalizing it
/// with none, since the session already happened.
pub fn handle_quantity_done_key(state: &mut AppState, key: &AppKeyEvent, now: i64)
    requires
        old(state).inv(),
        valid_now(now as int),
        old(state).mode is QuantityDoneInput,
        old(state).quantity_input.value@.len() < usize::MAX,
    ensures
        final(state).inv(),
        quantity_key_post(old(state), final(state), *key, now as int),
{
    let consumed = state.quantity_input.handle_key(key);
    if consumed {
        return ;
    }
    match key.code {
        AppKeyCode::Esc => {
            state.quantity_input.clear();
            let pending = state.pending_session.take();
            match pending {
                Some(p) => {
                    finalize_session(state, p, None, now);
                },
                None => {
                    state.mode = Mode::View;
                },
            }
        },
        AppKeyCode::Enter => {
            let text = string_of(&state.quantity_input.value);
            let qty = parse_optional_u32(text.as_str());
            let pending = state.pending_session.take();
            match pending {
                Some(p) => {
                    finalize_session(state, p, qty, now);
                },
                None => {},
            }
            state.quantity_input.clear();
        },
        _ => {},
    }
}

/// While the timer runs, keys behave as in the base view, so the user
/// can keep browsing days and editing notes; the add rows are hidden by
/// the view model itself.
pub fn handle_timer_key(state: &mut AppState, key: &AppKeyEvent, now: i64)
    requires
        old(state).inv(),
        valid_now(now as int),
        old(state).mode is Timer,
        i64::MIN + 2 < old(state).current_day < i64::MAX - 2,
    ensures
        final(state).inv(),
        view_key_post(old(state), final(state), *key, now as int),
{
    handle_view_key(state, key, now);
}

/// The store holds the edited buffer as the selected goal's note, other
/// notes and everything else in the store untouched; with no resolvable
/// goal the store is untouched.
pub open spec fn notes_saved(pre: &AppState, post: &AppState, sel: Option<u64>) -> bool {
    &&& sel matches Some(g) ==> note_of(post.store.notes@, g) == post.notes@ && (forall|o: u64|
        o != g ==> #[trigger] note_of(post.store.notes@, o) == note_of(pre.store.notes@, o))
    &&& sel is None ==> post.store.notes@ == pre.store.notes@
    &&& post.store.sessions@ == pre.store.sessions@
    &&& post.store.goals@ == pre.store.goals@
    &&& post.store.next_goal_id == pre.store.next_goal_id
}

/// Everything a key does while editing notes. Every mutation is written
/// back to the store at once.
pub open spec fn notes_key_post(pre: &AppState, post: &AppState, key: AppKeyEvent, now: int) -> bool {
    let today = local_day_of(now, pre.tz_offset as int);
    let sel = selected_goal_spec(pre, today);
    if key.ctrl {
        match key.code {
            AppKeyCode::Left => post.notes_cursor == word_left_target(
                pre.notes@,
                pre.notes_cursor as int,
            ) && *post == (AppState { notes_cursor: post.notes_cursor, ..*pre }),
            AppKeyCode::Right => post.notes_cursor == notes_word_right_target(
                pre.notes@,
                pre.notes_cursor as int,
            ) && *post == (AppState { notes_cursor: post.notes_cursor, ..*pre }),
            _ => *post == *pre,
        }
    } else {
        match key.code {
            AppKeyCode::Esc => {
                &&& post.mode is View
                &&& post.notes@ == pre.notes@
                &&& notes_saved(pre, post, sel)
                &&& *post == (AppState {
                    mode: post.mode,
                    focused_block: FocusedBlock::SessionsList,
                    store: post.store,
                    ..*pre
                })
            },
            AppKeyCode::Backspace => {
                if pre.notes_cursor > 0 {
                    &&& post.notes@ == pre.notes@.remove(pre.notes_cursor - 1)
                    &&& post.notes_cursor == pre.notes_cursor - 1
                    &&& notes_saved(pre, post, sel)
                    &&& *post == (AppState {
                        notes: post.notes,
                        notes_cursor: post.notes_cursor,
                        store: post.store,
                        ..*pre
                    })
                } else {
                    *post == *pre
                }
            },
            AppKeyCode::Enter => {
                &&& post.notes@ == pre.notes@.insert(pre.notes_cursor as int, '\n')
                &&& post.notes_cursor == pre.notes_cursor + 1
                &&& notes_saved(pre, post, sel)
                &&& *post == (AppState {
                    notes: post.notes,
                    notes_cursor: post.notes_cursor,
                    store: post.store,
                    ..*pre
                })
            },
            AppKeyCode::Tab => {
                &&& post.notes@ == pre.notes@.subrange(0, pre.notes_cursor as int)
                    + seq![' ', ' ', ' ', ' '] + pre.notes@.subrange(
                    pre.notes_cursor as int,
                    pre.notes@.len() as int,
                )
                &&& post.notes_cursor == pre.notes_cursor + 4
                &&& notes_saved(pre, post, sel)
                &&& *post == (AppState {
                    notes: post.notes,
                    notes_cursor: post.notes_cursor,
                    store: post.store,
                    ..*pre
                })
            },
            AppKeyCode::Char(c) => {
                &&& post.notes@ == pre.notes@.insert(pre.notes_cursor as int, c)
                &&& post.notes_cursor == pre.notes_cursor + 1
                &&& notes_saved(pre, post, sel)
                &&& *post == (AppState {
                    notes: post.notes,
                    notes_cursor: post.notes_cursor,
                    store: post.store,
                    ..*pre
                })
            },
            AppKeyCode::Left => post.notes_cursor == (if pre.notes_cursor > 0 {
                pre.notes_cursor - 1
            } else {
                0int
            }) && *post == (AppState { notes_cursor: post.notes_cursor, ..*pre }),
            AppKeyCode::Right => post.notes_cursor == (if pre.notes_cursor < pre.notes@.len() {
                pre.notes_cursor + 1
            } else {
                pre.notes_cursor as int
            }) && *post == (AppState { notes_cursor: post.notes_cursor, ..*pre }),
            AppKeyCode::Up => post.notes_cursor == vert_target(
                pre.notes@,
                pre.notes_cursor as int,
                -1,
            ) && *post == (AppState { notes_cursor: post.notes_cursor, ..*pre }),
            AppKeyCode::Down => post.notes_cursor == vert_target(
                pre.notes@,
                pre.notes_cursor as int,
                1,
            ) && *post == (AppState { notes_cursor: post.notes_cursor, ..*pre }),
            _ => *post == *pre,
        }
    }
}

/// Handles a key while editing notes: character edits go straight into
/// the buffer and every mutation is written back to the store at once;
/// cursor keys move by character, word or line; Esc saves and leaves.
#[verifier::rlimit(80)]
pub fn handle_notes_key(state: &mut AppState, key: &AppKeyEvent, now: i64)
    requires
        old(state).inv(),
        valid_now(now as int),
        old(state).mode is NotesEdit,
        old(state).notes@.len() + 8 < usize::MAX,
    ensures
        final(state).inv(),
        notes_key_post(old(state), final(state), *key, now as int),
{
    if key.ctrl {
        match key.code {
            AppKeyCode::Left => move_notes_cursor_word_left(state),
            AppKeyCode::Right => move_notes_cursor_word_right(state),
            _ => {},
        }
        return ;
    }
    match key.code {
        AppKeyCode::Esc => {
            save_notes_for_selection(state, now);
            state.mode = Mode::View;
            state.focused_block = FocusedBlock::SessionsList;
        },
        AppKeyCode::Backspace => {
            if state.notes_cursor > 0 {
                state.notes.remove(state.notes_cursor - 1);
                state.notes_cursor = state.notes_cursor - 1;
                save_notes_for_selection(state, now);
            }
        },
        AppKeyCode::Enter => {
            state.notes.insert(state.notes_cursor, '\n');
            state.notes_cursor = state.notes_cursor + 1;
            save_notes_for_selection(state, now);
        },
        AppKeyCode::Tab => {
            state.notes.insert(state.notes_cursor, ' ');
            state.notes.insert(state.notes_cursor + 1, ' ');
            state.notes.insert(state.notes_cursor + 2, ' ');
            state.notes.insert(state.notes_cursor + 3, ' ');
            state.notes_cursor = state.notes_cursor + 4;
            proof {
                let pre = old(state).notes@;
                let cur = old(state).notes_cursor as int;
                assert(state.notes@ =~= pre.subrange(0, cur) + seq![' ', ' ', ' ', ' ']
                    + pre.subrange(cur, pre.len() as int));
            }
            save_notes_for_selection(state, now);
        },
        AppKeyCode::Char(c) => {
            state.notes.insert(state.notes_cursor, c);
            state.notes_cursor = state.notes_cursor + 1;
            save_notes_for_selection(state, now);
        },
        AppKeyCode::Left => {
            move_notes_cursor_left(state);
        },
        AppKeyCode::Right => {
            move_notes_cursor_right(state);
        },
        AppKeyCode::Up => {
            move_notes_cursor_vert(state, -1);
        },
        AppKeyCode::Down => {
            move_notes_cursor_vert(state, 1);
        },
        _ => {},
    }
}

} // verus!
