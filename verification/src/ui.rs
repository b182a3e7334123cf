use vstd::prelude::*;

use crate::app::AppState;
use crate::clock::{div_floor_i64, format_hm, hm_chars, local_day_of, local_second_of, DAY_SECS};
use crate::store::{goal_index_of, Goal, SessionKind, SessionView};
use crate::strutil::{chars_of, string_of};
use crate::types::{Mode, TimerState};
use crate::utils::{dec_digits, u64_to_chars};

verus! {

/// One row of the render-agnostic view model.
#[derive(Debug)]
pub struct ViewItem {
    pub label: String,
    pub kind: ViewItemKind,
}

/// What a view row stands for; `Existing` carries the position of the
/// session in the day list.
#[derive(Debug, Clone, Copy, PartialEq, Eq, Structural)]
pub enum ViewItemKind {
    RunningTimer,
    Existing(SessionKind, usize),
    AddSession,
    AddReward,
}

/// The quantity-unit name of the goal `gid`, if that goal exists and has
/// one.
pub open spec fn quantity_name_of(goals: Seq<Goal>, gid: u64) -> Option<Seq<char>> {
    match goal_index_of(goals, gid) {
        Some(j) => match goals[j].quantity_name {
            Some(u) => Some(u@),
            None => None,
        },
        None => None,
    }
}

/// The text of an optional string.
pub open spec fn opt_text(o: Option<String>) -> Option<Seq<char>> {
    match o {
        Some(s) => Some(s@),
        None => None,
    }
}

pub open spec fn unit_suffix(unit: Option<Seq<char>>) -> Seq<char> {
    match unit {
        Some(u) => " "@ + u,
        None => Seq::empty(),
    }
}

/// The `12 pages in ` part of a session row, present when a quantity was
/// recorded.
pub open spec fn qty_label_spec(quantity: Option<u32>, unit: Option<Seq<char>>) -> Seq<char> {
    match quantity {
        Some(q) => dec_digits(q as int) + unit_suffix(unit) + " in "@,
        None => Seq::empty(),
    }
}

pub open spec fn kind_prefix(k: SessionKind) -> Seq<char> {
    match k {
        SessionKind::Goal => "[S]"@,
        SessionKind::Reward => "[R]"@,
    }
}

/// The label of a session row: kind tag, goal name, quantity, length in
/// minutes and the local start and end times.
pub open spec fn session_label_spec(s: SessionView, unit: Option<Seq<char>>, tz: int) -> Seq<
    char,
> {
    kind_prefix(s.kind) + " "@ + s.name@ + " ("@ + qty_label_spec(s.quantity, unit) + dec_digits(
        (s.end_at - s.start_at) / 60,
    ) + "m) ["@ + hm_chars(local_second_of(s.start_at as int, tz)) + "-"@ + hm_chars(
        local_second_of(s.end_at as int, tz),
    ) + "]"@
}

/// The label of the running-timer row.
pub open spec fn timer_label_spec(t: TimerState, tz: int) -> Seq<char> {
    "[*] "@ + t.label@ + " ("@ + dec_digits(t.remaining as int) + "s left) [started "@ + hm_chars(
        local_second_of(t.started_at as int, tz),
    ) + "]"@
}

/// Whether the running timer is shown: only while viewing today.
pub open spec fn shows_timer(state: &AppState, today: int) -> bool {
    state.timer is Some && state.current_day == today
}

/// Whether an add row is shown: only while viewing today with no active
/// timer.
pub open spec fn shows_add(state: &AppState, today: int) -> bool {
    state.timer is None && state.current_day == today
}

/// Which add row appears: the quantity hint while the prompt is open, a
/// reward offer right after a work session, a work offer otherwise.
pub open spec fn add_row_kind(state: &AppState) -> ViewItemKind {
    match state.mode {
        Mode::QuantityDoneInput { .. } => ViewItemKind::AddSession,
        _ => {
            if state.nodes@.len() > 0 && state.store.sessions@[state.nodes@.last() as int].kind
                == SessionKind::Goal {
                ViewItemKind::AddReward
            } else {
                ViewItemKind::AddSession
            }
        },
    }
}

pub open spec fn add_row_label(state: &AppState) -> Seq<char> {
    match state.mode {
        Mode::QuantityDoneInput { goal_name, quantity_name } => {
            let qn = match quantity_name {
                Some(q) => q@,
                None => "quantity"@,
            };
            "[+] Insert "@ + qn + " for "@ + goal_name@
        },
        _ => {
            if add_row_kind(state) == ViewItemKind::AddReward {
                "[+] Receive reward"@
            } else {
                "[+] Work on new goal"@
            }
        },
    }
}

/// How many rows the view model has.
pub open spec fn view_count(state: &AppState, today: int) -> int {
    state.nodes@.len() + (if shows_timer(state, today) {
        1int
    } else {
        0int
    }) + (if shows_add(state, today) {
        1int
    } else {
        0int
    })
}

/// Row `k` of the view model: the day's sessions in order, then the
/// running timer, then the add row.
pub open spec fn view_item_spec(state: &AppState, today: int, k: int) -> (Seq<char>, ViewItemKind) {
    if 0 <= k < state.nodes@.len() {
        let si = state.nodes@[k];
        let s = state.store.sessions@[si as int];
        (
            session_label_spec(s, quantity_name_of(state.store.goals@, s.goal_id), state.tz_offset as int),
            ViewItemKind::Existing(s.kind, k as usize),
        )
    } else if k == state.nodes@.len() && shows_timer(state, today) {
        (timer_label_spec(state.timer->0, state.tz_offset as int), ViewItemKind::RunningTimer)
    } else {
        (add_row_label(state), add_row_kind(state))
    }
}

/// Appends the characters of a literal piece.
fn push_piece(v: &mut Vec<char>, piece: &str)
    ensures
        final(v)@ == old(v)@ + piece@,
{
    let mut c = chars_of(piece);
    v.append(&mut c);
}

/// The second of the local day of `ts`, computed with the shifted
/// remainder so the sum may be one day below zero.
fn second_of_day(ts: i64, tz: i64) -> (r: i64)
    requires
        0 <= ts <= crate::store::MAX_SESSION_END,
        -86400 < tz < 86400,
    ensures
        r == local_second_of(ts as int, tz as int),
        0 <= r < 86400,
{
    let shifted = ts + tz + 86400;
    let r = shifted % 86400;
    proof {
        assert(shifted as int % 86400 == (ts + tz) as int % 86400) by (nonlinear_arith)
            requires
                shifted == ts + tz + 86400,
        ;
    }
    r
}

/// Builds the label of one session row.
fn session_label(s: &SessionView, unit: &Option<String>, tz: i64) -> (r: String)
    requires
        0 <= s.start_at <= s.end_at <= crate::store::MAX_SESSION_END,
        -86400 < tz < 86400,
    ensures
        r@ == session_label_spec(*s, opt_text(*unit), tz as int),
{
    let mut v: Vec<char> = Vec::new();
    match s.kind {
        SessionKind::Goal => push_piece(&mut v, "[S]"),
        SessionKind::Reward => push_piece(&mut v, "[R]"),
    }
    push_piece(&mut v, " ");
    push_piece(&mut v, s.name.as_str());
    push_piece(&mut v, " (");
    match &s.quantity {
        Some(q) => {
            let mut qd = u64_to_chars(*q as u64);
            v.append(&mut qd);
            match unit {
                Some(u) => {
                    push_piece(&mut v, " ");
                    push_piece(&mut v, u.as_str());
                },
                None => {},
            }
            push_piece(&mut v, " in ");
        },
        None => {},
    }
    let mins = ((s.end_at - s.start_at) / 60) as u64;
    let mut md = u64_to_chars(mins);
    v.append(&mut md);
    push_piece(&mut v, "m) [");
    let mut t1 = format_hm(second_of_day(s.start_at, tz));
    v.append(&mut t1);
    push_piece(&mut v, "-");
    let mut t2 = format_hm(second_of_day(s.end_at, tz));
    v.append(&mut t2);
    push_piece(&mut v, "]");
    proof {
        assert(v@ =~= session_label_spec(*s, opt_text(*unit), tz as int));
    }
    string_of(&v)
}

/// Builds the label of the running-timer row.
fn timer_label(t: &TimerState, tz: i64) -> (r: String)
    requires
        0 <= t.started_at <= crate::store::MAX_SESSION_END,
        -86400 < tz < 86400,
    ensures
        r@ == timer_label_spec(*t, tz as int),
{
    let mut v: Vec<char> = Vec::new();
    push_piece(&mut v, "[*] ");
    push_piece(&mut v, t.label.as_str());
    push_piece(&mut v, " (");
    let mut rd = u64_to_chars(t.remaining);
    v.append(&mut rd);
    push_piece(&mut v, "s left) [started ");
    let mut ts = format_hm(second_of_day(t.started_at, tz));
    v.append(&mut ts);
    push_piece(&mut v, "]");
    proof {
        assert(v@ =~= timer_label_spec(*t, tz as int));
    }
    string_of(&v)
}

/// Builds the render-agnostic view model for the day being viewed: the
/// day's sessions, the running timer while viewing today, and the add
/// row when no timer runs.
pub fn build_view_items(state: &AppState, _width: usize, now: i64) -> (r: Vec<ViewItem>)
    requires
        state.inv(),
        crate::app::valid_now(now as int),
    ensures
        r@.len() == view_count(state, local_day_of(now as int, state.tz_offset as int)),
        forall|k: int|
            0 <= k < r@.len() ==> {
                let it = view_item_spec(
                    state,
                    local_day_of(now as int, state.tz_offset as int),
                    k,
                );
                (#[trigger] r@[k]).label@ == it.0 && r@[k].kind == it.1
            },
{
    let ghost today_s = local_day_of(now as int, state.tz_offset as int);
    let today = div_floor_i64(now + state.tz_offset, DAY_SECS);
    let mut items: Vec<ViewItem> = Vec::new();
    let n = state.nodes.len();
    let mut i: usize = 0;
    while i < n
        invariant
            state.inv(),
            n == state.nodes@.len(),
            i <= n,
            items@.len() == i,
            forall|k: int|
                0 <= k < i ==> {
                    let it = view_item_spec(state, today_s, k);
                    (#[trigger] items@[k]).label@ == it.0 && items@[k].kind == it.1
                },
        decreases n - i,
    {
        let si = state.nodes[i];
        let s = &state.store.sessions[si];
        let unit = crate::utils::goal_quantity_name(state, s.goal_id);
        let label = session_label(s, &unit, state.tz_offset);
        items.push(ViewItem { label, kind: ViewItemKind::Existing(s.kind, i) });
        i = i + 1;
    }
    match &state.timer {
        Some(t) => {
            if today == state.current_day {
                let label = timer_label(t, state.tz_offset);
                items.push(ViewItem { label, kind: ViewItemKind::RunningTimer });
            }
        },
        None => {
            if today == state.current_day {
                match &state.mode {
                    Mode::QuantityDoneInput { goal_name, quantity_name } => {
                        let mut v: Vec<char> = Vec::new();
                        push_piece(&mut v, "[+] Insert ");
                        match quantity_name {
                            Some(q) => push_piece(&mut v, q.as_str()),
                            None => push_piece(&mut v, "quantity"),
                        }
                        push_piece(&mut v, " for ");
                        push_piece(&mut v, goal_name.as_str());
                        proof {
                            assert(v@ =~= add_row_label(state));
                        }
                        let label = string_of(&v);
                        items.push(ViewItem { label, kind: ViewItemKind::AddSession });
                    },
                    _ => {
                        let offer_reward = if state.nodes.len() > 0 {
                            let last = state.nodes[state.nodes.len() - 1];
                            match state.store.sessions[last].kind {
                                SessionKind::Goal => true,
                                SessionKind::Reward => false,
                            }
                        } else {
                            false
                        };
                        if offer_reward {
                            let label = String::from_str("[+] Receive reward");
                            items.push(ViewItem { label, kind: ViewItemKind::AddReward });
                        } else {
                            let label = String::from_str("[+] Work on new goal");
                            items.push(ViewItem { label, kind: ViewItemKind::AddSession });
                        }
                    },
                }
            }
        },
    }
    items
}

} // verus!
