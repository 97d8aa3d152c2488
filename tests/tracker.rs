use netupi_core::{
    day_of_timestamp, project_totals, sessions_for_project, NetupiCore, PersistenceManager,
    TimerConfig, TimerEngine, TimerEvent, TimerState, TimerType, WorkSession, DAY_MS, MINUTE_MS,
};

fn session(id: u128, kind: TimerType, end: Option<i64>, duration: i64, tags: &[&str]) -> WorkSession {
    WorkSession {
        id,
        session_type: kind,
        start_time: 1_000,
        end_time: end,
        duration,
        paused_duration: 0,
        description: None,
        tags: tags.iter().map(|t| t.to_string()).collect(),
    }
}

fn store_of(sessions: Vec<WorkSession>) -> PersistenceManager {
    PersistenceManager::from_stored(sessions, Some(TimerConfig::default()))
}

#[test]
fn stop_records_duration_as_end_less_start_less_paused() {
    let mut store = PersistenceManager::new();
    let mut engine = TimerEngine::new(&mut store);
    engine.start_work_session_at(TimerType::Stopwatch, Some("Docs".to_string()), None, 10_000, 7);
    let mid = engine.get_current_state_at(40_000);
    assert_eq!(mid.elapsed, 30_000);
    engine.stop_timer_at(&mut store, 70_000);
    let saved = store.load_sessions();
    assert_eq!(saved.len(), 1);
    let s = &saved[0];
    assert_eq!(s.id, 7);
    assert_eq!(s.start_time, 10_000);
    assert_eq!(s.end_time, Some(70_000));
    assert_eq!(s.paused_duration, 0);
    assert_eq!(s.duration, 60_000);
    assert_eq!(s.duration, s.end_time.unwrap() - s.start_time - s.paused_duration);
    let after = engine.get_current_state_at(80_000);
    assert_eq!(after.state, TimerState::Idle);
    assert_eq!(after.elapsed, 0);
}

#[test]
fn restart_discards_the_session_in_flight() {
    let mut store = PersistenceManager::new();
    let mut engine = TimerEngine::new(&mut store);
    engine.start_work_session_at(TimerType::Stopwatch, Some("A".to_string()), None, 1_000, 1);
    engine.start_work_session_at(TimerType::Stopwatch, Some("B".to_string()), None, 2_000, 2);
    assert!(!store.sessions_changed());
    engine.stop_timer_at(&mut store, 5_000);
    let saved = store.load_sessions();
    assert_eq!(saved.len(), 1);
    assert_eq!(saved[0].id, 2);
    assert_eq!(saved[0].tags, vec!["B".to_string()]);
    assert_eq!(saved[0].duration, 3_000);
}

#[test]
fn fresh_store_loads_nothing_and_default_config() {
    let mut store = PersistenceManager::new();
    assert!(store.load_sessions().is_empty());
    assert_eq!(store.stored_config(), None);
    let c = store.load_config();
    assert_eq!(c.pomodoro_work_duration, 25 * MINUTE_MS);
    assert_eq!(c.pomodoro_short_break_duration, 5 * MINUTE_MS);
    assert_eq!(c.pomodoro_long_break_duration, 15 * MINUTE_MS);
    assert_eq!(c.long_break_interval, 4);
    assert!(!c.auto_start_breaks);
    assert!(!c.auto_start_work);
    assert!(store.config_changed());
    assert_eq!(store.stored_config(), Some(c));
    assert!(!store.sessions_changed());
}

#[test]
fn stored_config_is_loaded_unchanged() {
    let custom = TimerConfig {
        pomodoro_work_duration: 50 * MINUTE_MS,
        pomodoro_short_break_duration: 10 * MINUTE_MS,
        pomodoro_long_break_duration: 30 * MINUTE_MS,
        long_break_interval: 2,
        auto_start_breaks: true,
        auto_start_work: false,
    };
    let mut store = PersistenceManager::from_stored(Vec::new(), Some(custom));
    assert_eq!(store.load_config(), custom);
    assert!(!store.config_changed());
}

#[test]
fn save_session_twice_keeps_one_record_with_second_payload() {
    let mut store = store_of(vec![session(9, TimerType::Stopwatch, Some(5), 5, &["x"])]);
    store.save_session(session(3, TimerType::Stopwatch, None, 0, &["first"]));
    store.save_session(session(3, TimerType::Stopwatch, Some(9_000), 8_000, &["second"]));
    let saved = store.load_sessions();
    assert_eq!(saved.len(), 2);
    assert_eq!(saved.iter().filter(|s| s.id == 3).count(), 1);
    assert_eq!(saved[1].id, 3);
    assert_eq!(saved[1].tags, vec!["second".to_string()]);
    assert_eq!(saved[1].duration, 8_000);
    assert_eq!(saved[0].id, 9);
}

#[test]
fn projects_count_only_finished_tagged_stopwatch_sessions() {
    let store = store_of(vec![
        session(1, TimerType::Stopwatch, Some(10), 100, &["beta"]),
        session(2, TimerType::Stopwatch, Some(20), 40, &["alpha", "extra"]),
        session(3, TimerType::Stopwatch, Some(30), 7, &[]),
        session(4, TimerType::PomodoroWork, Some(40), 1_000, &["alpha"]),
        session(5, TimerType::Stopwatch, None, 2_000, &["gamma"]),
        session(6, TimerType::Stopwatch, Some(50), 60, &["beta"]),
        session(7, TimerType::Stopwatch, Some(60), 5, &["ab"]),
    ]);
    let mut s2 = PersistenceManager::new();
    let core = NetupiCore::new(&mut s2);
    let projects = core.get_projects(&store);
    assert_eq!(
        projects,
        vec![("ab".to_string(), 5), ("alpha".to_string(), 40), ("beta".to_string(), 160)]
    );
}

#[test]
fn project_names_follow_code_point_order() {
    let sessions = vec![
        session(1, TimerType::Stopwatch, Some(1), 1, &["b"]),
        session(2, TimerType::Stopwatch, Some(1), 2, &["B"]),
        session(3, TimerType::Stopwatch, Some(1), 3, &["é"]),
        session(4, TimerType::Stopwatch, Some(1), 4, &[""]),
        session(5, TimerType::Stopwatch, Some(1), 5, &["ba"]),
    ];
    let totals = project_totals(&sessions, None);
    let names: Vec<&str> = totals.iter().map(|(n, _)| n.as_str()).collect();
    assert_eq!(names, vec!["", "B", "b", "ba", "é"]);
}

#[test]
fn totals_do_not_overflow_the_duration_range() {
    let sessions = vec![
        session(1, TimerType::Stopwatch, Some(1), i64::MAX, &["big"]),
        session(2, TimerType::Stopwatch, Some(1), i64::MAX, &["big"]),
        session(3, TimerType::Stopwatch, Some(1), i64::MIN, &["small"]),
        session(4, TimerType::Stopwatch, Some(1), i64::MIN, &["small"]),
    ];
    let totals = project_totals(&sessions, None);
    assert_eq!(totals[0], ("big".to_string(), 2 * i64::MAX as i128));
    assert_eq!(totals[1], ("small".to_string(), 2 * i64::MIN as i128));
}

#[test]
fn day_summary_counts_sessions_ended_that_day() {
    let day = 19_000i64;
    let start_of_day = day * DAY_MS;
    let store = store_of(vec![
        session(1, TimerType::Stopwatch, Some(start_of_day), 10, &["p"]),
        session(2, TimerType::Stopwatch, Some(start_of_day + DAY_MS - 1), 20, &["p"]),
        session(3, TimerType::Stopwatch, Some(start_of_day - 1), 40, &["p"]),
        session(4, TimerType::Stopwatch, Some(start_of_day + DAY_MS), 80, &["q"]),
        session(5, TimerType::Stopwatch, Some(start_of_day + 5), 160, &[]),
    ]);
    let mut s2 = PersistenceManager::new();
    let core = NetupiCore::new(&mut s2);
    assert_eq!(core.get_summary_for_day(&store, day), vec![("p".to_string(), 30)]);
    assert_eq!(core.get_summary_for_day(&store, day + 1), vec![("q".to_string(), 80)]);
    assert!(core.get_summary_for_day(&store, day + 2).is_empty());
}

#[test]
fn today_summary_includes_a_session_stopped_now() {
    let mut store = PersistenceManager::new();
    let mut core = NetupiCore::new(&mut store);
    core.start_work_session("Today".to_string(), None);
    core.stop_timer(&mut store);
    core.start_timer(TimerType::Stopwatch);
    core.stop_timer(&mut store);
    let summary = core.get_today_summary(&store);
    assert_eq!(summary.len(), 1);
    assert_eq!(summary[0].0, "Today");
}

#[test]
fn day_of_timestamp_floors_to_whole_days() {
    assert_eq!(day_of_timestamp(0), 0);
    assert_eq!(day_of_timestamp(DAY_MS - 1), 0);
    assert_eq!(day_of_timestamp(DAY_MS), 1);
    assert_eq!(day_of_timestamp(-1), -1);
    assert_eq!(day_of_timestamp(-DAY_MS), -1);
    assert_eq!(day_of_timestamp(-DAY_MS - 1), -2);
    assert_eq!(day_of_timestamp(1_700_000_000_000), 19_675);
}

#[test]
fn delete_project_removes_its_finished_stopwatch_sessions_once() {
    let mut store = store_of(vec![
        session(1, TimerType::Stopwatch, Some(10), 1, &["X"]),
        session(2, TimerType::Stopwatch, None, 1, &["X"]),
        session(3, TimerType::PomodoroWork, Some(10), 1, &["X"]),
        session(4, TimerType::Stopwatch, Some(10), 1, &["Y", "X"]),
        session(5, TimerType::Stopwatch, Some(20), 1, &["X", "Z"]),
    ]);
    let mut s2 = PersistenceManager::new();
    let core = NetupiCore::new(&mut s2);
    assert_eq!(core.delete_project_sessions(&mut store, "X"), 2);
    assert!(store.sessions_changed());
    let ids: Vec<u128> = store.load_sessions().iter().map(|s| s.id).collect();
    assert_eq!(ids, vec![2, 3, 4]);

    let mut again = store_of(store.load_sessions());
    assert_eq!(core.delete_project_sessions(&mut again, "X"), 0);
    assert!(!again.sessions_changed());
    assert_eq!(again.load_sessions().len(), 3);
}

#[test]
fn sessions_for_project_newest_first() {
    let sessions = vec![
        session(1, TimerType::Stopwatch, Some(30), 1, &["P"]),
        session(2, TimerType::Stopwatch, Some(50), 1, &["P"]),
        session(3, TimerType::Stopwatch, Some(10), 1, &["Q"]),
        session(4, TimerType::Stopwatch, Some(30), 1, &["P"]),
        session(5, TimerType::Stopwatch, None, 1, &["P"]),
        session(6, TimerType::Stopwatch, Some(40), 1, &["P"]),
    ];
    let listed = sessions_for_project(&sessions, "P");
    let ids: Vec<u128> = listed.iter().map(|s| s.id).collect();
    assert_eq!(ids, vec![2, 6, 1, 4]);
    let store = store_of(sessions);
    let mut s2 = PersistenceManager::new();
    let core = NetupiCore::new(&mut s2);
    assert_eq!(core.get_sessions_for_project(&store, "P").len(), 4);
    assert!(core.get_sessions_for_project(&store, "R").is_empty());
}

#[test]
fn stopwatch_for_mobile_app_is_saved_with_its_project() {
    let mut store = PersistenceManager::new();
    let mut core = NetupiCore::new(&mut store);
    core.start_work_session("Mobile App".to_string(), Some("login screen".to_string()));
    let started = core.get_current_state();
    assert_eq!(started.state, TimerState::Running);
    assert_eq!(started.target_duration, None);
    let mut waited = 0;
    while core.get_current_state().elapsed == 0 {
        waited += 1;
        assert!(waited < 100_000_000);
    }
    core.stop_timer(&mut store);
    let saved = core.get_sessions(&store);
    assert_eq!(saved.len(), 1);
    assert_eq!(saved[0].session_type, TimerType::Stopwatch);
    assert_eq!(saved[0].tags, vec!["Mobile App".to_string()]);
    assert_eq!(saved[0].description, Some("login screen".to_string()));
    assert!(saved[0].duration > 0);
    assert_eq!(core.get_current_state().state, TimerState::Idle);
}

#[test]
fn pomodoro_without_project_has_target_and_no_tags() {
    let mut store = PersistenceManager::new();
    let mut core = NetupiCore::new(&mut store);
    core.start_timer(TimerType::PomodoroWork);
    let state = core.get_current_state();
    assert_eq!(state.target_duration, Some(25 * MINUTE_MS));
    core.stop_timer(&mut store);
    let saved = store.load_sessions();
    assert_eq!(saved.len(), 1);
    assert!(saved[0].tags.is_empty());
    assert_eq!(saved[0].session_type, TimerType::PomodoroWork);
}

#[test]
fn break_targets_follow_the_config() {
    let mut store = PersistenceManager::new();
    let mut engine = TimerEngine::new(&mut store);
    engine.start_work_session_at(TimerType::PomodoroShortBreak, None, None, 0, 1);
    assert_eq!(engine.get_current_state_at(0).target_duration, Some(5 * MINUTE_MS));
    engine.start_work_session_at(TimerType::PomodoroLongBreak, None, None, 0, 2);
    assert_eq!(engine.get_current_state_at(0).target_duration, Some(15 * MINUTE_MS));
    engine.start_work_session_at(TimerType::CustomTimer, None, None, 0, 3);
    assert_eq!(engine.get_current_state_at(0).target_duration, None);
}

#[test]
fn timer_completes_when_target_is_reached() {
    let mut store = PersistenceManager::new();
    let mut engine = TimerEngine::new(&mut store);
    engine.subscribe_events();
    engine.start_work_session_at(TimerType::PomodoroShortBreak, None, None, 1_000, 1);
    let before = engine.get_current_state_at(1_000 + 5 * MINUTE_MS - 1);
    assert_eq!(before.state, TimerState::Running);
    let at = engine.get_current_state_at(1_000 + 5 * MINUTE_MS);
    assert_eq!(at.state, TimerState::Completed);
    assert_eq!(at.elapsed, 5 * MINUTE_MS);
    let later = engine.get_current_state_at(1_000 + 9 * MINUTE_MS);
    assert_eq!(later.elapsed, 5 * MINUTE_MS);
    engine.stop_timer_at(&mut store, 1_000 + 9 * MINUTE_MS);
    assert_eq!(store.load_sessions()[0].duration, 9 * MINUTE_MS);
    assert_eq!(
        engine.take_events(),
        vec![TimerEvent::Started, TimerEvent::Completed, TimerEvent::Stopped]
    );
    assert!(engine.take_events().is_empty());
}

#[test]
fn events_are_kept_only_with_a_subscriber() {
    let mut store = PersistenceManager::new();
    let mut core = NetupiCore::new(&mut store);
    core.start_timer(TimerType::Stopwatch);
    core.stop_timer(&mut store);
    assert!(core.take_events().is_empty());
    core.subscribe_events();
    core.start_timer(TimerType::Stopwatch);
    core.stop_timer(&mut store);
    core.stop_timer(&mut store);
    assert_eq!(
        core.take_events(),
        vec![TimerEvent::Started, TimerEvent::Stopped, TimerEvent::Stopped]
    );
}

#[test]
fn stopping_an_idle_timer_saves_nothing() {
    let mut store = PersistenceManager::new();
    let mut core = NetupiCore::new(&mut store);
    core.stop_timer(&mut store);
    assert!(!store.sessions_changed());
    assert!(store.load_sessions().is_empty());
}

#[test]
fn engine_uses_the_stored_config() {
    let custom = TimerConfig {
        pomodoro_work_duration: 40 * MINUTE_MS,
        ..TimerConfig::default()
    };
    let mut store = PersistenceManager::from_stored(Vec::new(), Some(custom));
    let mut core = NetupiCore::new(&mut store);
    assert_eq!(core.timer().config(), custom);
    core.start_timer(TimerType::PomodoroWork);
    assert_eq!(core.get_current_state().target_duration, Some(40 * MINUTE_MS));
}

#[test]
fn new_sessions_get_distinct_version_four_ids() {
    let mut store = PersistenceManager::new();
    let mut core = NetupiCore::new(&mut store);
    core.start_timer(TimerType::Stopwatch);
    core.stop_timer(&mut store);
    core.start_timer(TimerType::Stopwatch);
    core.stop_timer(&mut store);
    let saved = store.load_sessions();
    assert_eq!(saved.len(), 2);
    assert_ne!(saved[0].id, saved[1].id);
    for s in &saved {
        assert_eq!((s.id >> 76) & 0xF, 4);
        assert_eq!((s.id >> 62) & 0b11, 0b10);
        assert!(s.start_time > 1_600_000_000_000);
    }
}
