use vstd::prelude::*;

use crate::key_event::{AppKeyCode, AppKeyEvent};
use crate::store::Store;
use crate::text_input::TextInput;
use crate::types::{FocusedBlock, FormState, Mode, PendingSession, SpawnedProcess, TimerState};
use crate::utils::blocking_dialog_open;

verus! {

/// The latest timestamp the core accepts: the last second it can still
/// format with a four-digit year.
pub const MAX_TIMESTAMP: i64 = 253402300799;

/// A wall-clock reading the core accepts: at least one day past the
/// epoch, and early enough that a day ahead still formats with a
/// four-digit year.
pub open spec fn valid_now(now: int) -> bool {
    86400 <= now && now + 86400 < 253402300799
}

/// Central application state: the store, the per-day session list, the
/// interaction mode with its input buffers, the active timer and the
/// pending session awaiting a quantity.
pub struct AppState {
    pub store: Store,
    /// Indices into `store.sessions` of the sessions shown for
    /// `current_day`.
    pub nodes: Vec<usize>,
    /// Local calendar day being viewed, in days since the Unix epoch.
    pub current_day: i64,
    /// Offset of the machine's time zone from UTC, in seconds, fixed at
    /// construction.
    pub tz_offset: i64,
    pub selected: usize,
    pub mode: Mode,
    pub search_input: TextInput,
    pub search_selected: usize,
    pub duration_input: TextInput,
    pub quantity_input: TextInput,
    pub timer: Option<TimerState>,
    pub pending_session: Option<PendingSession>,
    /// Note text of the selected goal, character-indexed.
    pub notes: Vec<char>,
    pub notes_cursor: usize,
    pub focused_block: FocusedBlock,
    pub form_state: Option<FormState>,
    /// Helper commands the frontend still has to spawn for the running
    /// timer.
    pub spawn_requests: Vec<String>,
    /// Spawned helpers the frontend still has to tear down.
    pub teardown_requests: Vec<SpawnedProcess>,
}

impl AppState {
    /// The part of the invariant that storage and note helpers need: a
    /// well-formed store, cached session indices in range, and a sane
    /// time zone offset.
    pub open spec fn base_inv(&self) -> bool {
        &&& self.store.wf()
        &&& forall|i: int|
            0 <= i < self.nodes@.len() ==> (#[trigger] self.nodes@[i]) < self.store.sessions@.len()
        &&& -86400 < self.tz_offset < 86400
    }

    /// The state invariant: the store is well formed, cached session
    /// indices are in range, cursors sit inside their buffers, a timer
    /// exists whenever the timer mode is active, no dialog is open while
    /// a timer runs, and a pending session exists only under the
    /// quantity prompt.
    pub open spec fn inv(&self) -> bool {
        &&& self.base_inv()
        &&& self.search_input.wf()
        &&& self.duration_input.wf()
        &&& self.quantity_input.wf()
        &&& self.notes_cursor <= self.notes@.len()
        &&& match self.form_state {
            Some(f) => f.goal_name.wf() && f.quantity_name.wf() && f.commands.wf(),
            None => true,
        }
        &&& self.mode is Timer ==> self.timer is Some
        &&& blocking_dialog_open(&self.mode) ==> self.timer is None
        &&& self.pending_session is Some ==> self.mode is QuantityDoneInput && self.timer is None
        &&& match self.pending_session {
            Some(p) => 0 <= p.started_at <= MAX_TIMESTAMP,
            None => true,
        }
        &&& match self.timer {
            Some(t) => {
                &&& t.remaining <= t.total
                &&& t.total <= u32::MAX
                &&& 0 <= t.started_at <= MAX_TIMESTAMP
            },
            None => true,
        }
    }

    /// Machine limits the embedding frontend has to respect before
    /// handing the core an event: buffers that can still grow, a day
    /// counter away from its ends, and room for one more goal id.
    pub open spec fn limits_ok(&self) -> bool {
        &&& self.search_input.value@.len() < usize::MAX
        &&& self.duration_input.value@.len() < usize::MAX
        &&& self.quantity_input.value@.len() < usize::MAX
        &&& self.notes@.len() + 8 < usize::MAX
        &&& match self.form_state {
            Some(f) => f.goal_name.value@.len() < usize::MAX && f.quantity_name.value@.len()
                < usize::MAX && f.commands.value@.len() < usize::MAX,
            None => true,
        }
        &&& i64::MIN + 2 < self.current_day < i64::MAX - 2
        &&& self.store.next_goal_id < u64::MAX
    }

    /// Builds the application state over a loaded store: today's sessions
    /// are listed, the newest row is selected, and its note is shown.
    pub fn new(store: Store, now: i64, tz_offset: i64) -> (r: AppState)
        requires
            store.wf(),
            valid_now(now as int),
            -86400 < tz_offset < 86400,
        ensures
            r.inv(),
            r.mode is View,
            r.timer is None,
            r.pending_session is None,
            r.form_state is None,
            r.focused_block == FocusedBlock::SessionsList,
            r.store == store,
            r.current_day == crate::clock::local_day_of(now as int, tz_offset as int),
            r.nodes@ == crate::store::day_indices(store.sessions@, r.current_day),
            r.tz_offset == tz_offset,
            r.search_input.value@ == Seq::<char>::empty(),
            r.duration_input.value@ == Seq::<char>::empty(),
            r.quantity_input.value@ == Seq::<char>::empty(),
            r.search_selected == 0,
            r.spawn_requests@ == Seq::<String>::empty(),
            r.teardown_requests@ == Seq::<SpawnedProcess>::empty(),
            r.selected + 1 == crate::ui::view_count(
                &r,
                crate::clock::local_day_of(now as int, tz_offset as int),
            ) || (r.selected == 0 && crate::ui::view_count(
                &r,
                crate::clock::local_day_of(now as int, tz_offset as int),
            ) == 0),
            crate::utils::notes_refreshed(
                &r,
                crate::clock::local_day_of(now as int, tz_offset as int),
            ),
    {
        let today = crate::clock::div_floor_i64(now + tz_offset, crate::clock::DAY_SECS);
        let nodes = store.day_sessions(today);
        let slen = store.sessions.len();
        proof {
            assert(store.sessions@.len() == slen);
            assert forall|i: int| 0 <= i < nodes@.len() implies (#[trigger] nodes@[i])
                < store.sessions@.len() by {
                crate::store::lemma_day_indices_bounds(store.sessions@, today, i);
            }
        }
        let mut state = AppState {
            store,
            nodes,
            current_day: today,
            tz_offset,
            selected: 0,
            mode: Mode::View,
            search_input: TextInput::new(Vec::new()),
            search_selected: 0,
            duration_input: TextInput::new(Vec::new()),
            quantity_input: TextInput::new(Vec::new()),
            timer: None,
            pending_session: None,
            notes: Vec::new(),
            notes_cursor: 0,
            focused_block: FocusedBlock::SessionsList,
            form_state: None,
            spawn_requests: Vec::new(),
            teardown_requests: Vec::new(),
        };
        let items = crate::ui::build_view_items(&state, 20, now);
        if items.len() > 0 {
            state.selected = items.len() - 1;
        } else {
            state.selected = 0;
        }
        crate::notes::refresh_notes_for_selection(&mut state, now);
        state
    }

    /// Routes a key event to the handler of the current mode; quitting
    /// is signalled for Ctrl-C and otherwise left to the frontend. The
    /// postcondition hands the caller the full per-mode contract.
    pub fn handle_key(&mut self, key: AppKeyEvent, now: i64) -> (quit: bool)
        requires
            old(self).inv(),
            old(self).limits_ok(),
            valid_now(now as int),
        ensures
            final(self).inv(),
            quit == (key.ctrl && key.code == AppKeyCode::Char('c')),
            quit ==> *final(self) == *old(self),
            !quit ==> match old(self).mode {
                Mode::View => crate::handlers::view_key_post(old(self), final(self), key, now as int),
                Mode::AddSession => crate::handlers::search_key_post(
                    old(self),
                    final(self),
                    key,
                    now as int,
                ),
                Mode::AddReward => crate::handlers::search_key_post(
                    old(self),
                    final(self),
                    key,
                    now as int,
                ),
                Mode::GoalForm => crate::handlers::form_key_post(
                    old(self),
                    final(self),
                    key,
                    now as int,
                ),
                Mode::QuantityDoneInput { .. } => crate::handlers::quantity_key_post(
                    old(self),
                    final(self),
                    key,
                    now as int,
                ),
                Mode::DurationInput { .. } => crate::handlers::duration_key_post(
                    old(self),
                    final(self),
                    key,
                    now as int,
                ),
                Mode::Timer => crate::handlers::view_key_post(old(self), final(self), key, now as int),
                Mode::NotesEdit => crate::handlers::notes_key_post(
                    old(self),
                    final(self),
                    key,
                    now as int,
                ),
            },
    {
        if key.is_ctrl_c() {
            return true;
        }
        match &self.mode {
            Mode::View => crate::handlers::handle_view_key(self, &key, now),
            Mode::AddSession => crate::handlers::handle_search_key(self, &key, now),
            Mode::AddReward => crate::handlers::handle_search_key(self, &key, now),
            Mode::GoalForm => crate::handlers::handle_form_key(self, &key, now),
            Mode::QuantityDoneInput { .. } => crate::handlers::handle_quantity_done_key(self, &key, now),
            Mode::DurationInput { .. } => crate::handlers::handle_duration_key(self, &key, now),
            Mode::Timer => crate::handlers::handle_timer_key(self, &key, now),
            Mode::NotesEdit => crate::handlers::handle_notes_key(self, &key, now),
        }
        false
    }

    /// Advances the timer by one wall-clock reading; call once per poll
    /// cycle.
    pub fn tick(&mut self, now: i64)
        requires
            old(self).inv(),
            valid_now(now as int),
        ensures
            final(self).inv(),
            old(self).timer is None ==> *final(self) == *old(self),
            old(self).timer matches Some(t) ==> {
                &&& now < t.started_at ==> *final(self) == *old(self)
                &&& t.started_at <= now < t.started_at + t.total ==> (final(self).timer
                    matches Some(nt) && nt.remaining == t.started_at + t.total - now)
                &&& now >= t.started_at + t.total ==> final(self).timer is None
            },
    {
        crate::timer::tick_timer(self, now);
    }

    /// Records the outcome of spawning one queued helper command on the
    /// running timer; without a timer the report is dropped.
    pub fn record_spawn(&mut self, command: String, has_handle: bool, group_id: i64)
        requires
            old(self).inv(),
        ensures
            final(self).inv(),
            old(self).timer matches Some(t) ==> final(self).timer matches Some(nt)
                && nt.spawned@.len() == t.spawned@.len() + 1 && nt.spawned@.last().command@
                == command@ && nt.spawned@.last().has_handle == has_handle
                && nt.spawned@.last().group_id == group_id && nt.spawned@.subrange(
                0,
                t.spawned@.len() as int,
            ) == t.spawned@,
            old(self).timer is None ==> *final(self) == *old(self),
    {
        match &mut self.timer {
            Some(t) => {
                t.spawned.push(SpawnedProcess { command, has_handle, group_id });
                proof {
                    assert(self.timer->0.spawned@.subrange(
                        0,
                        old(self).timer->0.spawned@.len() as int,
                    ) =~= old(self).timer->0.spawned@);
                }
            },
            None => {},
        }
    }
}

/// Law: the timer mode is only ever active while a timer session
/// exists, and a pending session only ever exists under the quantity
/// prompt, with the timer already gone.
pub proof fn lemma_mode_timer_coupling(state: AppState)
    requires
        state.inv(),
    ensures
        state.mode is Timer ==> state.timer is Some,
        state.pending_session is Some ==> state.mode is QuantityDoneInput && state.timer is None,
{
}

} // verus!
