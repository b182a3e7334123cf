use success_core::process::{teardown_steps, KillStep};
use success_core::search::{fuzzy_match, search_goals};
use success_core::store::{SessionKind, Store};
use success_core::strutil::chars_of;
use success_core::types::{Mode, SpawnedProcess};
use success_core::utils::is_dialog_open;

#[test]
fn goals_get_fresh_ids() {
    let mut store = Store::new();
    let a = store.add_goal("A".to_string(), false, Vec::new(), None);
    let b = store.add_goal("B".to_string(), true, Vec::new(), Some("pages".to_string()));
    assert_ne!(a, b);
    let ai = store.find_goal(a).unwrap();
    let bi = store.find_goal(b).unwrap();
    assert_eq!(store.goals[ai].name, "A");
    assert!(store.goals[bi].is_reward);
    assert_eq!(store.goals[bi].quantity_name.as_deref(), Some("pages"));
    assert!(store.find_goal(999).is_none());
}

#[test]
fn day_sessions_filters_by_day() {
    let mut store = Store::new();
    let g = store.add_goal("G".to_string(), false, Vec::new(), None);
    store.add_session(g, "G".to_string(), 1000, 60, SessionKind::Goal, None, 5);
    store.add_session(g, "G".to_string(), 2000, 60, SessionKind::Goal, None, 6);
    store.add_session(g, "G".to_string(), 3000, 60, SessionKind::Goal, None, 5);
    assert_eq!(store.day_sessions(5), vec![0, 2]);
    assert_eq!(store.day_sessions(6), vec![1]);
    assert!(store.day_sessions(7).is_empty());
}

#[test]
fn latest_session_picks_greatest_start() {
    let mut store = Store::new();
    let g = store.add_goal("G".to_string(), false, Vec::new(), None);
    let h = store.add_goal("H".to_string(), false, Vec::new(), None);
    store.add_session(g, "G".to_string(), 1000, 60, SessionKind::Goal, None, 0);
    store.add_session(g, "G".to_string(), 5000, 60, SessionKind::Goal, None, 0);
    store.add_session(g, "G".to_string(), 3000, 60, SessionKind::Goal, None, 0);
    assert_eq!(store.latest_session(g), Some(1));
    assert_eq!(store.latest_session(h), None);
}

#[test]
fn notes_roundtrip_and_overwrite() {
    let mut store = Store::new();
    let g = store.add_goal("G".to_string(), false, Vec::new(), None);
    assert_eq!(store.get_note(g), "");
    store.edit_note(g, "first".to_string());
    assert_eq!(store.get_note(g), "first");
    store.edit_note(g, "second".to_string());
    assert_eq!(store.get_note(g), "second");
    store.edit_note(42, "other".to_string());
    assert_eq!(store.get_note(g), "second");
    assert_eq!(store.get_note(42), "other");
}

#[test]
fn fuzzy_is_case_insensitive_subsequence() {
    let q = chars_of("rd");
    assert!(fuzzy_match(&q, &chars_of("Read")));
    assert!(fuzzy_match(&chars_of("READ"), &chars_of("read a book")));
    assert!(!fuzzy_match(&chars_of("xyz"), &chars_of("Read")));
    assert!(fuzzy_match(&chars_of(""), &chars_of("anything")));
    assert!(!fuzzy_match(&chars_of("a"), &chars_of("")));
}

#[test]
fn search_filters_pool_and_ranks_by_recency() {
    let mut store = Store::new();
    let old_goal = store.add_goal("Alpha".to_string(), false, Vec::new(), None);
    let recent = store.add_goal("Alps".to_string(), false, Vec::new(), None);
    let reward = store.add_goal("Almonds".to_string(), true, Vec::new(), None);
    store.add_session(old_goal, "Alpha".to_string(), 1000, 60, SessionKind::Goal, None, 0);
    store.add_session(recent, "Alps".to_string(), 9000, 60, SessionKind::Goal, None, 0);
    let hits = search_goals(&store, &chars_of("al"), false);
    assert_eq!(hits.len(), 2);
    assert_eq!(store.goals[hits[0]].id, recent);
    assert_eq!(store.goals[hits[1]].id, old_goal);
    let reward_hits = search_goals(&store, &chars_of("al"), true);
    assert_eq!(reward_hits.len(), 1);
    assert_eq!(store.goals[reward_hits[0]].id, reward);
    assert!(search_goals(&store, &chars_of("zz"), false).is_empty());
}

#[test]
fn every_mode_but_view_and_timer_is_modal() {
    assert!(!is_dialog_open(&Mode::View));
    assert!(!is_dialog_open(&Mode::Timer));
    assert!(is_dialog_open(&Mode::AddSession));
    assert!(is_dialog_open(&Mode::AddReward));
    assert!(is_dialog_open(&Mode::GoalForm));
    assert!(is_dialog_open(&Mode::NotesEdit));
    assert!(is_dialog_open(&Mode::QuantityDoneInput {
        goal_name: "g".to_string(),
        quantity_name: None,
    }));
    assert!(is_dialog_open(&Mode::DurationInput {
        is_reward: false,
        goal_name: "g".to_string(),
        goal_id: 1,
    }));
}

#[test]
fn teardown_plan_escalates() {
    let p = SpawnedProcess { command: "mpv x".to_string(), has_handle: true, group_id: 321 };
    let steps = teardown_steps(&p);
    assert_eq!(steps.len(), 6);
    assert!(matches!(steps[0], KillStep::SignalGroupTerm(321)));
    assert!(matches!(steps[1], KillStep::WaitMillis(150)));
    assert!(matches!(steps[2], KillStep::SignalGroupKill(321)));
    assert!(matches!(steps[3], KillStep::KillHandle));
    assert!(matches!(steps[4], KillStep::WaitHandle));
    match &steps[5] {
        KillStep::SweepPattern(pat) => assert_eq!(pat, "mpv x"),
        other => panic!("expected sweep, got {:?}", other),
    }
}

#[test]
fn teardown_skips_handleless_records() {
    let p = SpawnedProcess { command: "x".to_string(), has_handle: false, group_id: 0 };
    assert!(teardown_steps(&p).is_empty());
}
