use vstd::prelude::*;

use crate::app::{valid_now, AppState, MAX_TIMESTAMP};
use crate::clock::{civil_ymd, date_chars, div_floor_i64, format_hm, hm_chars, local_day_of,
    ymd_of_day, DAY_SECS};
use crate::notes::{refresh_notes_for_selection, save_notes_for_selection};
use crate::store::{day_indices, note_of, SessionKind, SessionView};
use crate::strutil::{chars_of, string_of};
use crate::types::{FocusedBlock, Mode, PendingSession, TimerState};
use crate::ui::{build_view_items, quantity_name_of, view_count};
use crate::utils::{goal_quantity_name, selected_goal_spec};

verus! {

/// The session record that finalizing `pending` with `quantity` creates:
/// the duration is clamped to what the record can hold, and the session
/// is filed under the local day of its start.
pub open spec fn finalized_record(
    pending: PendingSession,
    quantity: Option<u32>,
    tz: int,
) -> SessionView {
    let dur = if pending.total > u32::MAX {
        u32::MAX as int
    } else {
        pending.total as int
    };
    SessionView {
        goal_id: pending.goal_id,
        name: pending.label,
        kind: if pending.is_reward {
            SessionKind::Reward
        } else {
            SessionKind::Goal
        },
        start_at: pending.started_at,
        end_at: (pending.started_at + dur) as i64,
        day: local_day_of(pending.started_at as int, tz) as i64,
        quantity,
    }
}

/// Converts an elapsed timer into a persisted session record: saves the
/// note buffer if note editing was active, returns to the base view,
/// stores the record, and, when the record lands on the day being
/// viewed, reloads that day's list, selects the newest entry and
/// refreshes the notes panel.
pub fn finalize_session(state: &mut AppState, pending: PendingSession, quantity: Option<u32>, now: i64)
    requires
        old(state).inv(),
        valid_now(now as int),
        old(state).timer is None,
        old(state).pending_session is None,
        0 <= pending.started_at <= MAX_TIMESTAMP,
    ensures
        final(state).inv(),
        final(state).mode is View,
        final(state).focused_block == FocusedBlock::SessionsList,
        final(state).timer is None,
        final(state).pending_session is None,
        final(state).store.goals@ == old(state).store.goals@,
        final(state).store.sessions@ == old(state).store.sessions@.push(
            finalized_record(pending, quantity, old(state).tz_offset as int),
        ),
        final(state).current_day == old(state).current_day,
        final(state).tz_offset == old(state).tz_offset,
        final(state).spawn_requests@ == old(state).spawn_requests@,
        final(state).teardown_requests@ == old(state).teardown_requests@,
        final(state).search_input == old(state).search_input,
        final(state).duration_input == old(state).duration_input,
        final(state).quantity_input == old(state).quantity_input,
        final(state).search_selected == old(state).search_selected,
        final(state).form_state == old(state).form_state,
        final(state).store.next_goal_id == old(state).store.next_goal_id,
        ({
            let sel = selected_goal_spec(
                old(state),
                local_day_of(now as int, old(state).tz_offset as int),
            );
            if old(state).mode is NotesEdit && sel is Some {
                &&& note_of(final(state).store.notes@, sel->0) == old(state).notes@
                &&& forall|other: u64|
                    other != sel->0 ==> #[trigger] note_of(final(state).store.notes@, other)
                        == note_of(old(state).store.notes@, other)
            } else {
                final(state).store.notes@ == old(state).store.notes@
            }
        }),
        ({
            let day = local_day_of(pending.started_at as int, old(state).tz_offset as int);
            &&& old(state).current_day == day ==> {
                &&& final(state).nodes@ == day_indices(final(state).store.sessions@, day as i64)
                &&& final(state).selected + 1 == view_count(
                    final(state),
                    local_day_of(now as int, old(state).tz_offset as int),
                )
                &&& crate::utils::notes_refreshed(
                    final(state),
                    local_day_of(now as int, old(state).tz_offset as int),
                )
            }
            &&& old(state).current_day != day ==> final(state).nodes@ == old(state).nodes@
                && final(state).selected == old(state).selected && final(state).notes@ == old(
                state,
            ).notes@ && final(state).notes_cursor == old(state).notes_cursor
        }),
{
    if matches!(state.mode, Mode::NotesEdit) {
        save_notes_for_selection(state, now);
    }
    state.mode = Mode::View;
    state.focused_block = FocusedBlock::SessionsList;
    let dur: u32 = if pending.total > 0xffff_ffff {
        0xffff_ffff
    } else {
        pending.total as u32
    };
    let day = div_floor_i64(pending.started_at + state.tz_offset, DAY_SECS);
    let kind = if pending.is_reward {
        SessionKind::Reward
    } else {
        SessionKind::Goal
    };
    let started_at = pending.started_at;
    let goal_id = pending.goal_id;
    let _ = state.store.add_session(goal_id, pending.label, started_at, dur, kind, quantity, day);
    if state.current_day == day {
        state.nodes = state.store.day_sessions(day);
        let slen = state.store.sessions.len();
        proof {
            assert(state.store.sessions@.len() == slen);
            assert forall|i: int| 0 <= i < state.nodes@.len() implies (#[trigger] state.nodes@[i])
                < state.store.sessions@.len() by {
                crate::store::lemma_day_indices_bounds(state.store.sessions@, day, i);
            }
        }
        let items = build_view_items(state, 20, now);
        if items.len() > 0 {
            state.selected = items.len() - 1;
        } else {
            state.selected = 0;
        }
        proof {
            assert(items@.len() > 0) by {
                assert(state.nodes@.len() > 0) by {
                    assert(day_indices(state.store.sessions@, day).len() > 0) by {
                        let ss = state.store.sessions@;
                        assert(ss.last().day == day);
                    }
                }
            }
        }
        refresh_notes_for_selection(state, now);
    }
}

/// Hands an elapsed timer to the session finalizer: with a quantity unit
/// configured on the goal, the quantity prompt opens and the session
/// waits; otherwise it is persisted at once. Completing a reward timer
/// queues its helpers for teardown.
pub fn finish_timer(state: &mut AppState, now: i64)
    requires
        old(state).inv(),
        valid_now(now as int),
    ensures
        final(state).inv(),
        old(state).timer is None ==> *final(state) == *old(state),
        final(state).timer is None,
        old(state).timer is Some ==> ({
            let t = old(state).timer->0;
            let pend = PendingSession {
                label: t.label,
                goal_id: t.goal_id,
                total: t.total,
                is_reward: t.is_reward,
                started_at: t.started_at,
            };
            &&& (if t.is_reward {
                final(state).teardown_requests@ == old(state).teardown_requests@ + t.spawned@
            } else {
                final(state).teardown_requests@ == old(state).teardown_requests@
            })
            &&& (if quantity_name_of(old(state).store.goals@, t.goal_id) is Some {
                &&& final(state).pending_session == Some(pend)
                &&& final(state).mode matches Mode::QuantityDoneInput {
                    goal_name,
                    quantity_name,
                } && goal_name@ == t.label@ && crate::ui::opt_text(quantity_name)
                    == quantity_name_of(old(state).store.goals@, t.goal_id)
                &&& final(state).quantity_input.value@ == Seq::<char>::empty()
                &&& final(state).store.sessions@ == old(state).store.sessions@
                &&& final(state).store.goals@ == old(state).store.goals@
            } else {
                &&& final(state).pending_session is None
                &&& final(state).mode is View
                &&& final(state).store.sessions@ == old(state).store.sessions@.push(
                    finalized_record(pend, None, old(state).tz_offset as int),
                )
            })
        }),
{
    let timer = state.timer.take();
    match timer {
        None => {},
        Some(t) => {
            if matches!(state.mode, Mode::NotesEdit) {
                save_notes_for_selection(state, now);
            }
            if t.is_reward {
                let mut procs = t.spawned;
                state.teardown_requests.append(&mut procs);
            }
            let label_for_prompt = t.label.clone();
            let pending = PendingSession {
                label: t.label,
                goal_id: t.goal_id,
                total: t.total,
                is_reward: t.is_reward,
                started_at: t.started_at,
            };
            let quantity_name = goal_quantity_name(state, t.goal_id);
            match quantity_name {
                Some(qn) => {
                    state.pending_session = Some(pending);
                    state.quantity_input.clear();
                    state.mode = Mode::QuantityDoneInput {
                        goal_name: label_for_prompt,
                        quantity_name: Some(qn),
                    };
                    state.focused_block = FocusedBlock::SessionsList;
                },
                None => {
                    state.mode = Mode::View;
                    finalize_session(state, pending, None, now);
                },
            }
        },
    }
}

/// Recomputes the remaining time of the active countdown from the wall
/// clock: ticks from before the start are ignored, and the moment the
/// remainder reaches zero the timer is removed and finalized, so a
/// second tick finds nothing to do.
pub fn tick_timer(state: &mut AppState, now: i64)
    requires
        old(state).inv(),
        valid_now(now as int),
    ensures
        final(state).inv(),
        old(state).timer is None ==> *final(state) == *old(state),
        old(state).timer matches Some(t) ==> {
            &&& now < t.started_at ==> *final(state) == *old(state)
            &&& t.started_at <= now < t.started_at + t.total ==> *final(state) == (AppState {
                timer: Some(
                    (TimerState { remaining: (t.started_at + t.total - now) as u64, ..t }),
                ),
                ..*old(state)
            })
            &&& now >= t.started_at + t.total ==> ({
                let pend = PendingSession {
                    label: t.label,
                    goal_id: t.goal_id,
                    total: t.total,
                    is_reward: t.is_reward,
                    started_at: t.started_at,
                };
                &&& final(state).timer is None
                &&& (if quantity_name_of(old(state).store.goals@, t.goal_id) is Some {
                    &&& final(state).mode is QuantityDoneInput
                    &&& final(state).pending_session == Some(pend)
                    &&& final(state).store.sessions@ == old(state).store.sessions@
                } else {
                    &&& final(state).mode is View
                    &&& final(state).pending_session is None
                    &&& final(state).store.sessions@ == old(state).store.sessions@.push(
                        finalized_record(pend, None, old(state).tz_offset as int),
                    )
                })
            })
        },
{
    let expired: bool;
    match &mut state.timer {
        None => {
            return ;
        },
        Some(t) => {
            if now < t.started_at {
                return ;
            }
            let elapsed = (now - t.started_at) as u64;
            if elapsed >= t.total {
                t.remaining = 0;
                expired = true;
            } else {
                t.remaining = t.total - elapsed;
                expired = false;
            }
        },
    }
    if expired {
        finish_timer(state, now);
    }
}

/// The note header stamped when a session starts: a separator line and
/// the local date and time.
pub open spec fn session_header(ts: int, tz: int) -> Seq<char> {
    let shifted = ts + tz;
    let ymd = ymd_of_day(shifted / 86400);
    "---\n"@ + date_chars(ymd.0, ymd.1, ymd.2) + " "@ + hm_chars(shifted % 86400) + "\n"@
}

/// What starting a timer leaves behind: the countdown installed with
/// the given label and length, the timer mode entered on today's view,
/// a session header appended to the goal's note, the goal's helper
/// commands queued for spawning, and the newest row selected with its
/// note shown.
pub open spec fn started_timer_post(
    pre: &AppState,
    post: &AppState,
    goal_name: Seq<char>,
    goal_id: u64,
    seconds: u32,
    is_reward: bool,
    now: int,
) -> bool {
    let today = local_day_of(now, pre.tz_offset as int);
    &&& post.timer matches Some(nt) && nt.label@ == goal_name && nt.goal_id == goal_id
        && nt.remaining == seconds && nt.total == seconds && nt.is_reward == is_reward
        && nt.started_at == now && nt.spawned@ == Seq::<crate::types::SpawnedProcess>::empty()
    &&& post.mode is Timer
    &&& post.current_day == today
    &&& note_of(post.store.notes@, goal_id) == note_of(pre.store.notes@, goal_id)
        + session_header(now, pre.tz_offset as int)
    &&& forall|other: u64|
        other != goal_id ==> #[trigger] note_of(post.store.notes@, other) == note_of(
            pre.store.notes@,
            other,
        )
    &&& post.store.sessions@ == pre.store.sessions@
    &&& post.store.goals@ == pre.store.goals@
    &&& post.store.next_goal_id == pre.store.next_goal_id
    &&& post.spawn_requests@.len() == pre.spawn_requests@.len() + crate::utils::goal_commands_of(
        pre.store.goals@,
        goal_id,
    ).len()
    &&& post.spawn_requests@.subrange(0, pre.spawn_requests@.len() as int)
        == pre.spawn_requests@
    &&& forall|j: int|
        pre.spawn_requests@.len() <= j < post.spawn_requests@.len() ==> (
        #[trigger] post.spawn_requests@[j])@ == crate::utils::goal_commands_of(
            pre.store.goals@,
            goal_id,
        )[j - pre.spawn_requests@.len()]
    &&& post.teardown_requests@ == pre.teardown_requests@
    &&& post.pending_session is None
    &&& post.tz_offset == pre.tz_offset
    &&& post.focused_block == pre.focused_block
    &&& post.search_input == pre.search_input
    &&& post.duration_input == pre.duration_input
    &&& post.quantity_input == pre.quantity_input
    &&& post.form_state == pre.form_state
    &&& post.selected + 1 == view_count(post, today)
    &&& crate::utils::notes_refreshed(post, today)
}

/// Starts a countdown on a goal: a second timer is never started. The
/// view jumps back to today if needed, a session header is appended to
/// the goal's note, the goal's helper commands are queued for spawning,
/// and the timer mode is entered with the newest row selected.
pub fn start_timer(
    state: &mut AppState,
    goal_name: String,
    goal_id: u64,
    seconds: u32,
    is_reward: bool,
    now: i64,
)
    requires
        old(state).inv(),
        valid_now(now as int),
        old(state).pending_session is None,
    ensures
        final(state).inv(),
        old(state).timer is Some ==> *final(state) == *old(state),
        old(state).timer is None ==> started_timer_post(
            old(state),
            final(state),
            goal_name@,
            goal_id,
            seconds,
            is_reward,
            now as int,
        ),
{
    if state.timer.is_some() {
        return ;
    }
    let today = div_floor_i64(now + state.tz_offset, DAY_SECS);
    if state.current_day != today {
        state.current_day = today;
        state.nodes = state.store.day_sessions(today);
        let slen = state.store.sessions.len();
        proof {
            assert(state.store.sessions@.len() == slen);
            assert forall|i: int| 0 <= i < state.nodes@.len() implies (#[trigger] state.nodes@[i])
                < state.store.sessions@.len() by {
                crate::store::lemma_day_indices_bounds(state.store.sessions@, today, i);
            }
        }
        let items = build_view_items(state, 20, now);
        if items.len() > 0 {
            state.selected = items.len() - 1;
        } else {
            state.selected = 0;
        }
        refresh_notes_for_selection(state, now);
    }
    let started_at = now;
    let mut note = state.store.get_note(goal_id);
    let header = session_header_text(started_at, state.tz_offset);
    note.append(header.as_str());
    state.store.edit_note(goal_id, note);
    let mut commands = crate::utils::commands_for_goal(state, goal_id);
    state.spawn_requests.append(&mut commands);
    proof {
        assert(state.spawn_requests@.subrange(0, old(state).spawn_requests@.len() as int)
            =~= old(state).spawn_requests@);
    }
    state.mode = Mode::Timer;
    state.timer = Some(
        TimerState {
            label: goal_name,
            goal_id,
            remaining: seconds as u64,
            total: seconds as u64,
            is_reward,
            started_at,
            spawned: Vec::new(),
        },
    );
    let items = build_view_items(state, 20, now);
    proof {
        assert(crate::ui::shows_timer(state, local_day_of(now as int, state.tz_offset as int)));
        assert(items@.len() >= 1);
    }
    if items.len() > 0 {
        state.selected = items.len() - 1;
    } else {
        state.selected = 0;
    }
    refresh_notes_for_selection(state, now);
}

/// Builds the session header appended to a goal's note at timer start.
fn session_header_text(ts: i64, tz: i64) -> (r: String)
    requires
        86400 <= ts,
        ts + 86400 <= MAX_TIMESTAMP,
        -86400 < tz < 86400,
    ensures
        r@ == session_header(ts as int, tz as int),
{
    let shifted = ts + tz;
    let ymd = civil_ymd(shifted);
    let mut v: Vec<char> = Vec::new();
    let mut piece = chars_of("---\n");
    v.append(&mut piece);
    let mut date = crate::clock::format_date(ymd.0, ymd.1, ymd.2);
    v.append(&mut date);
    let mut sp = chars_of(" ");
    v.append(&mut sp);
    let sec = shifted % 86400;
    let mut hm = format_hm(sec);
    v.append(&mut hm);
    let mut nl = chars_of("\n");
    v.append(&mut nl);
    proof {
        let ymds = ymd_of_day((ts + tz) as int / 86400);
        assert(ymd.0 as int == ymds.0 && ymd.1 as int == ymds.1 && ymd.2 as int == ymds.2);
        assert(sec as int == (ts + tz) as int % 86400);
        assert(v@ =~= session_header(ts as int, tz as int));
    }
    string_of(&v)
}

} // verus!
