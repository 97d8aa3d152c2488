use netupi_core::{NetupiCore, PersistenceManager, TimerConfig, TimerState, TimerType, WorkSession};

#[test]
fn test_core_creation() {
    let mut store = PersistenceManager::new();
    let mut core = NetupiCore::new(&mut store);
    let state = core.get_current_state();
    assert_eq!(state.state, TimerState::Idle, "Core creation should succeed");
}

#[test]
fn test_timer_start() {
    let mut store = PersistenceManager::new();
    let mut core = NetupiCore::new(&mut store);
    core.start_timer(TimerType::PomodoroWork);

    let state = core.get_current_state();
    assert_eq!(state.state, TimerState::Running);
    assert_eq!(state.timer_type, TimerType::PomodoroWork);
}

#[test]
fn test_persistence_manager() {
    let mut pm = PersistenceManager::new();
    let config = TimerConfig::default();

    pm.save_config(config);
    assert!(pm.config_changed(), "Config save should succeed");

    let loaded_config = pm.load_config();
    assert_eq!(config.pomodoro_work_duration, loaded_config.pomodoro_work_duration);
}

#[test]
fn test_session_persistence() {
    let mut persistence = PersistenceManager::new();

    let session = WorkSession {
        id: 0x1234_5678_9abc_4def_8123_4567_89ab_cdef,
        session_type: TimerType::PomodoroWork,
        start_time: 1_700_000_000_000,
        end_time: None,
        duration: 25 * 60_000,
        paused_duration: 0,
        description: Some("Test session".to_string()),
        tags: vec!["test".to_string()],
    };
    let id = session.id;

    persistence.save_session(session);
    assert!(persistence.sessions_changed(), "Session save should succeed");

    let sessions = persistence.load_sessions();
    assert!(!sessions.is_empty(), "Should have at least one session");
    assert_eq!(sessions.last().unwrap().id, id);
}
