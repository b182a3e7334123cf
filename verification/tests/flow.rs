use success_core::app::AppState;
use success_core::key_event::{AppKeyCode, AppKeyEvent};
use success_core::store::{SessionKind, Store};
use success_core::strutil::{chars_of, string_of};
use success_core::types::Mode;
use success_core::ui::{build_view_items, ViewItemKind};

const NOW: i64 = 1_000_000_000;

fn key(code: AppKeyCode) -> AppKeyEvent {
    AppKeyEvent { code, ctrl: false, alt: false, shift: false }
}

fn press(state: &mut AppState, code: AppKeyCode, now: i64) {
    let quit = state.handle_key(key(code), now);
    assert!(!quit);
}

fn type_text(state: &mut AppState, text: &str, now: i64) {
    for c in text.chars() {
        press(state, AppKeyCode::Char(c), now);
    }
}

fn fresh_state() -> AppState {
    AppState::new(Store::new(), NOW, 0)
}

/// Drives the whole create-goal flow: add row, picker create row, form
/// with the given fields, ending in the duration prompt.
fn create_goal_via_form(state: &mut AppState, name: &str, unit: &str, commands: &str) {
    press(state, AppKeyCode::Enter, NOW);
    assert!(matches!(state.mode, Mode::AddSession));
    type_text(state, name, NOW);
    press(state, AppKeyCode::Enter, NOW);
    assert!(matches!(state.mode, Mode::GoalForm));
    press(state, AppKeyCode::Tab, NOW);
    type_text(state, unit, NOW);
    press(state, AppKeyCode::Tab, NOW);
    type_text(state, commands, NOW);
    press(state, AppKeyCode::Enter, NOW);
    assert!(matches!(state.mode, Mode::DurationInput { .. }));
}

fn replace_duration(state: &mut AppState, text: &str) {
    for _ in 0..8 {
        press(state, AppKeyCode::Backspace, NOW);
    }
    type_text(state, text, NOW);
}

#[test]
fn goal_with_quantity_full_flow() {
    let mut state = fresh_state();
    let items = build_view_items(&state, 20, NOW);
    assert_eq!(items.len(), 1);
    assert_eq!(items[0].kind, ViewItemKind::AddSession);
    assert_eq!(items[0].label, "[+] Work on new goal");

    create_goal_via_form(&mut state, "Read", "pages", "");
    assert_eq!(string_of(&state.duration_input.value), "25m");
    replace_duration(&mut state, "1m");
    press(&mut state, AppKeyCode::Enter, NOW);
    assert!(matches!(state.mode, Mode::Timer));
    let timer = state.timer.as_ref().unwrap();
    assert_eq!(timer.total, 60);
    assert_eq!(timer.remaining, 60);
    assert_eq!(timer.started_at, NOW);
    assert!(!timer.is_reward);

    // The goal's note gets a session-start header stamped with the
    // local date and time of the start.
    let gid = timer.goal_id;
    assert_eq!(state.store.get_note(gid), "---\n2001-09-09 01:46\n");

    state.tick(NOW + 59);
    assert_eq!(state.timer.as_ref().unwrap().remaining, 1);
    let items = build_view_items(&state, 20, NOW + 59);
    assert_eq!(items.last().unwrap().kind, ViewItemKind::RunningTimer);
    assert_eq!(items.last().unwrap().label, "[*] Read (1s left) [started 01:46]");

    state.tick(NOW + 61);
    assert!(state.timer.is_none());
    match &state.mode {
        Mode::QuantityDoneInput { goal_name, quantity_name } => {
            assert_eq!(goal_name, "Read");
            assert_eq!(quantity_name.as_deref(), Some("pages"));
        },
        other => panic!("expected quantity prompt, got {:?}", other),
    }
    assert!(state.pending_session.is_some());
    let items = build_view_items(&state, 20, NOW + 61);
    assert_eq!(items.last().unwrap().label, "[+] Insert pages for Read");

    type_text(&mut state, "12", NOW + 61);
    press(&mut state, AppKeyCode::Enter, NOW + 61);
    assert!(matches!(state.mode, Mode::View));
    assert!(state.pending_session.is_none());
    assert_eq!(state.store.sessions.len(), 1);
    let rec = &state.store.sessions[0];
    assert_eq!(rec.quantity, Some(12));
    assert_eq!(rec.end_at - rec.start_at, 60);
    assert_eq!(rec.kind, SessionKind::Goal);
    assert_eq!(rec.name, "Read");

    // A further tick finds no timer and changes nothing.
    state.tick(NOW + 62);
    assert_eq!(state.store.sessions.len(), 1);

    // The finished work session turns the add row into a reward offer.
    let items = build_view_items(&state, 20, NOW + 62);
    assert_eq!(items.len(), 2);
    assert_eq!(items[1].kind, ViewItemKind::AddReward);
    assert_eq!(items[1].label, "[+] Receive reward");
    assert_eq!(items[0].label, "[S] Read (12 pages in 1m) [01:46-01:47]");
}

#[test]
fn goal_without_quantity_persists_immediately() {
    let mut state = fresh_state();
    create_goal_via_form(&mut state, "Walk", "", "");
    replace_duration(&mut state, "30s");
    press(&mut state, AppKeyCode::Enter, NOW);
    assert!(matches!(state.mode, Mode::Timer));
    state.tick(NOW + 31);
    assert!(state.timer.is_none());
    assert!(matches!(state.mode, Mode::View));
    assert!(state.pending_session.is_none());
    assert_eq!(state.store.sessions.len(), 1);
    let rec = &state.store.sessions[0];
    assert_eq!(rec.quantity, None);
    assert_eq!(rec.end_at - rec.start_at, 30);
}

#[test]
fn unparseable_duration_falls_back_to_25_minutes() {
    let mut state = fresh_state();
    create_goal_via_form(&mut state, "Fuzz", "", "");
    replace_duration(&mut state, "wat");
    press(&mut state, AppKeyCode::Enter, NOW);
    assert_eq!(state.timer.as_ref().unwrap().total, 25 * 60);
}

#[test]
fn quantity_escape_finalizes_with_none() {
    let mut state = fresh_state();
    create_goal_via_form(&mut state, "Read", "pages", "");
    replace_duration(&mut state, "1m");
    press(&mut state, AppKeyCode::Enter, NOW);
    state.tick(NOW + 61);
    assert!(matches!(state.mode, Mode::QuantityDoneInput { .. }));
    press(&mut state, AppKeyCode::Esc, NOW + 61);
    assert!(matches!(state.mode, Mode::View));
    assert_eq!(state.store.sessions.len(), 1);
    assert_eq!(state.store.sessions[0].quantity, None);
    assert!(state.pending_session.is_none());
}

#[test]
fn timer_ticks_twice_finalize_once() {
    let mut state = fresh_state();
    create_goal_via_form(&mut state, "Once", "", "");
    replace_duration(&mut state, "1m");
    press(&mut state, AppKeyCode::Enter, NOW);
    state.tick(NOW + 61);
    state.tick(NOW + 61);
    assert_eq!(state.store.sessions.len(), 1);
}

#[test]
fn clock_skew_tick_is_ignored() {
    let mut state = fresh_state();
    create_goal_via_form(&mut state, "Skew", "", "");
    replace_duration(&mut state, "1m");
    press(&mut state, AppKeyCode::Enter, NOW);
    state.tick(NOW - 100_000);
    let timer = state.timer.as_ref().unwrap();
    assert_eq!(timer.remaining, 60);
}

#[test]
fn no_second_timer_while_one_runs() {
    let mut state = fresh_state();
    create_goal_via_form(&mut state, "Busy", "", "");
    replace_duration(&mut state, "10m");
    press(&mut state, AppKeyCode::Enter, NOW);
    let started = state.timer.as_ref().unwrap().started_at;
    success_core::timer::start_timer(&mut state, "Other".to_string(), 999, 30, false, NOW + 5);
    let timer = state.timer.as_ref().unwrap();
    assert_eq!(timer.started_at, started);
    assert_eq!(timer.total, 600);
    // While a timer runs the view offers no add row.
    let items = build_view_items(&state, 20, NOW + 5);
    assert!(items.iter().all(|it| it.kind != ViewItemKind::AddSession));
    assert!(items.iter().all(|it| it.kind != ViewItemKind::AddReward));
    assert_eq!(items.last().unwrap().kind, ViewItemKind::RunningTimer);
}

#[test]
fn spawn_and_reward_teardown() {
    let mut state = fresh_state();
    let gid = state.store.add_goal(
        "Movie".to_string(),
        true,
        vec!["mpv film.mkv".to_string(), "dim lights".to_string()],
        None,
    );
    success_core::timer::start_timer(&mut state, "Movie".to_string(), gid, 30, true, NOW);
    assert_eq!(state.spawn_requests, vec!["mpv film.mkv".to_string(), "dim lights".to_string()]);
    state.record_spawn("mpv film.mkv".to_string(), true, 4242);
    state.record_spawn("dim lights".to_string(), false, 0);
    assert_eq!(state.timer.as_ref().unwrap().spawned.len(), 2);

    state.tick(NOW + 31);
    assert!(state.timer.is_none());
    assert_eq!(state.teardown_requests.len(), 2);
    assert_eq!(state.teardown_requests[0].command, "mpv film.mkv");
    assert!(state.teardown_requests[0].has_handle);
    assert_eq!(state.teardown_requests[0].group_id, 4242);
    assert!(!state.teardown_requests[1].has_handle);
    assert_eq!(state.store.sessions.len(), 1);
    assert_eq!(state.store.sessions[0].kind, SessionKind::Reward);
}

#[test]
fn work_session_keeps_helpers_running() {
    let mut state = fresh_state();
    let gid = state.store.add_goal(
        "Code".to_string(),
        false,
        vec!["editor .".to_string()],
        None,
    );
    success_core::timer::start_timer(&mut state, "Code".to_string(), gid, 30, false, NOW);
    state.record_spawn("editor .".to_string(), true, 77);
    state.tick(NOW + 31);
    assert!(state.teardown_requests.is_empty());
}

#[test]
fn notes_stay_editable_while_timer_runs() {
    let mut state = fresh_state();
    create_goal_via_form(&mut state, "Deep", "", "");
    replace_duration(&mut state, "2m");
    press(&mut state, AppKeyCode::Enter, NOW);
    assert!(matches!(state.mode, Mode::Timer));
    let gid = state.timer.as_ref().unwrap().goal_id;
    // Day browsing still works during the timer.
    press(&mut state, AppKeyCode::Left, NOW + 1);
    assert_eq!(state.current_day, NOW / 86400 - 1);
    press(&mut state, AppKeyCode::Right, NOW + 1);
    // The timer row resolves to the goal, so note editing opens.
    press(&mut state, AppKeyCode::Char('e'), NOW + 1);
    assert!(matches!(state.mode, Mode::NotesEdit));
    press(&mut state, AppKeyCode::Char('x'), NOW + 1);
    assert!(state.store.get_note(gid).ends_with('x'));
    press(&mut state, AppKeyCode::Esc, NOW + 1);
    assert!(matches!(state.mode, Mode::View));
    assert!(state.timer.is_some());
    state.tick(NOW + 121);
    assert!(state.timer.is_none());
    assert_eq!(state.store.sessions.len(), 1);
}

#[test]
fn escape_closes_picker_and_form() {
    let mut state = fresh_state();
    press(&mut state, AppKeyCode::Enter, NOW);
    assert!(matches!(state.mode, Mode::AddSession));
    press(&mut state, AppKeyCode::Esc, NOW);
    assert!(matches!(state.mode, Mode::View));

    press(&mut state, AppKeyCode::Enter, NOW);
    type_text(&mut state, "Zed", NOW);
    press(&mut state, AppKeyCode::Enter, NOW);
    assert!(matches!(state.mode, Mode::GoalForm));
    press(&mut state, AppKeyCode::Esc, NOW);
    assert!(matches!(state.mode, Mode::View));
    assert!(state.store.goals.is_empty());
}

#[test]
fn empty_form_name_does_not_create() {
    let mut state = fresh_state();
    press(&mut state, AppKeyCode::Enter, NOW);
    press(&mut state, AppKeyCode::Enter, NOW);
    assert!(matches!(state.mode, Mode::GoalForm));
    // The picker pre-filled "New goal"; wipe it to spaces.
    for _ in 0..16 {
        press(&mut state, AppKeyCode::Backspace, NOW);
    }
    type_text(&mut state, "   ", NOW);
    press(&mut state, AppKeyCode::Enter, NOW);
    assert!(matches!(state.mode, Mode::GoalForm));
    assert!(state.store.goals.is_empty());
}

#[test]
fn picker_suggests_recent_duration() {
    let mut state = fresh_state();
    let gid = state.store.add_goal("Read".to_string(), false, Vec::new(), None);
    let day = NOW / 86400;
    state.store.add_session(
        gid,
        "Read".to_string(),
        NOW - 10_000,
        5400,
        SessionKind::Goal,
        None,
        day,
    );
    press(&mut state, AppKeyCode::Enter, NOW);
    assert!(matches!(state.mode, Mode::AddSession));
    type_text(&mut state, "rea", NOW);
    press(&mut state, AppKeyCode::Enter, NOW);
    match &state.mode {
        Mode::DurationInput { goal_name, goal_id, is_reward } => {
            assert_eq!(goal_name, "Read");
            assert_eq!(*goal_id, gid);
            assert!(!is_reward);
        },
        other => panic!("expected duration prompt, got {:?}", other),
    }
    assert_eq!(string_of(&state.duration_input.value), "1h 30m");
}

#[test]
fn day_navigation_clamps_to_today() {
    let mut state = fresh_state();
    let today = state.current_day;
    press(&mut state, AppKeyCode::Right, NOW);
    assert_eq!(state.current_day, today);
    press(&mut state, AppKeyCode::Left, NOW);
    assert_eq!(state.current_day, today - 1);
    press(&mut state, AppKeyCode::Right, NOW);
    assert_eq!(state.current_day, today);
}
