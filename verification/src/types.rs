use vstd::prelude::*;

verus! {

/// The current interaction mode; exactly one is active at a time. All but
/// `View`, `Timer` and `NotesEdit` are modal dialogs.
#[derive(Debug)]
pub enum Mode {
    View,
    AddSession,
    AddReward,
    GoalForm,
    QuantityDoneInput { goal_name: String, quantity_name: Option<String> },
    DurationInput { is_reward: bool, goal_name: String, goal_id: u64 },
    Timer,
    NotesEdit,
}

/// The field of the goal-creation form that currently has focus.
#[derive(Debug, Clone, Copy, PartialEq, Eq, Structural)]
pub enum FormField {
    GoalName,
    Quantity,
    Commands,
}

/// State of the goal-creation form: three ordered text fields.
#[derive(Debug, Clone)]
pub struct FormState {
    pub current_field: FormField,
    pub goal_name: crate::text_input::TextInput,
    pub quantity_name: crate::text_input::TextInput,
    pub commands: crate::text_input::TextInput,
    pub is_reward: bool,
}

/// Which panel receives navigation focus.
#[derive(Debug, Clone, Copy, PartialEq, Eq, Structural)]
pub enum FocusedBlock {
    SessionsList,
    Notes,
}

/// One row of the goal-picker dialog: an existing goal (by id), or the
/// synthetic row that creates a new one from the typed query.
#[derive(Debug)]
pub enum SearchResult {
    Existing(u64),
    Create { name: String, is_reward: bool },
}

/// A helper process spawned for the duration of a session. When spawning
/// failed the record is kept without a handle so teardown skips it.
#[derive(Debug, Clone)]
pub struct SpawnedProcess {
    pub command: String,
    pub has_handle: bool,
    pub group_id: i64,
}

/// The active countdown, anchored to an absolute start time (seconds since
/// the Unix epoch) so that suspending the machine does not pause it.
#[derive(Debug)]
pub struct TimerState {
    pub label: String,
    pub goal_id: u64,
    pub remaining: u64,
    pub total: u64,
    pub is_reward: bool,
    pub started_at: i64,
    pub spawned: Vec<SpawnedProcess>,
}

/// Snapshot of an expired timer, waiting to be persisted; consumed exactly
/// once by finalization.
#[derive(Debug, Clone)]
pub struct PendingSession {
    pub label: String,
    pub goal_id: u64,
    pub total: u64,
    pub is_reward: bool,
    pub started_at: i64,
}

} // verus!
