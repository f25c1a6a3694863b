use langcon::config::AppConfig;
use langcon::ime::ImeStatus;
use langcon::monitor::{
    evaluate_tick, finish_tick, SwitchAttempt, AUTO_SWITCH_MESSAGE_KEY, MOUSE_MOVE_MESSAGE_KEY,
};
use langcon::process::ProcessInfo;
use langcon::state::AppState;

fn config() -> AppConfig {
    AppConfig {
        selected_processes: vec!["notepad.exe".to_string()],
        use_auto_to_en: true,
        use_mouse_move_event: true,
        detect_interval_ms: 500,
        mouse_sensitivity: 100,
        in_english: false,
        start_with_windows: false,
        language: "en".to_string(),
    }
}

fn notepad() -> ProcessInfo {
    ProcessInfo { pid: 7, name: "notepad.exe".to_string(), title: "Untitled".to_string() }
}

/// One decision pass plus its commit, the way the polling loop runs it.
fn tick(
    state: &mut AppState,
    process: &ProcessInfo,
    ime: ImeStatus,
    cursor: Option<(i32, i32)>,
    attempt_if_switching: SwitchAttempt,
    now_ms: i64,
) -> (bool, Option<langcon::state::StatusMessage>) {
    let cfg = state.active_config().duplicate();
    let prev = state.focus.clone();
    let prior = state.manual_override_for(&process.name);
    let last_cursor = state.last_cursor_pos;
    let decision = evaluate_tick(&cfg, &prev, prior, last_cursor, &process.name, ime, cursor);
    let attempt = if decision.should_switch {
        attempt_if_switching
    } else {
        SwitchAttempt::NotAttempted
    };
    let emitted = finish_tick(state, process, ime, &decision, attempt, now_ms);
    (decision.should_switch, emitted)
}

#[test]
fn first_sight_in_original_mode_switches_and_notifies() {
    let mut state = AppState::new(config());
    let (switched, emitted) = tick(
        &mut state,
        &notepad(),
        ImeStatus::Original,
        None,
        SwitchAttempt::Completed { toggled: true },
        1000,
    );
    assert!(switched);
    let message = emitted.expect("the auto-switch notice is emitted");
    assert_eq!(message.key, AUTO_SWITCH_MESSAGE_KEY);
    assert_eq!(message.values[0].1, "notepad.exe");
    let focus = state.focus.clone().expect("a snapshot is committed");
    assert_eq!(focus.process.unwrap().name, "notepad.exe");
    assert_eq!(focus.ime_status, ImeStatus::English);
    assert!(!focus.manual_override);
}

#[test]
fn second_tick_in_target_mode_is_silent() {
    let mut state = AppState::new(config());
    tick(
        &mut state,
        &notepad(),
        ImeStatus::Original,
        None,
        SwitchAttempt::Completed { toggled: true },
        1000,
    );
    let (switched, emitted) = tick(
        &mut state,
        &notepad(),
        ImeStatus::English,
        None,
        SwitchAttempt::NotAttempted,
        1500,
    );
    assert!(!switched);
    assert!(emitted.is_none());
}

#[test]
fn manual_switch_away_is_respected() {
    let mut state = AppState::new(config());
    tick(
        &mut state,
        &notepad(),
        ImeStatus::Original,
        None,
        SwitchAttempt::Completed { toggled: true },
        1000,
    );
    tick(
        &mut state,
        &notepad(),
        ImeStatus::English,
        None,
        SwitchAttempt::NotAttempted,
        1500,
    );
    // The user flips the mode back by hand while still focused: the engine
    // reads that as deliberate and must not fight it.
    let (switched, emitted) = tick(
        &mut state,
        &notepad(),
        ImeStatus::Original,
        None,
        SwitchAttempt::Failed,
        2000,
    );
    assert!(!switched);
    assert!(emitted.is_none());
    assert!(state.manual_override_for("notepad.exe"));
    let focus = state.focus.clone().unwrap();
    assert!(focus.manual_override);
    assert_eq!(focus.ime_status, ImeStatus::Original);
}

#[test]
fn identical_notification_is_debounced_across_ticks() {
    let mut state = AppState::new(config());
    // First tick only seeds the cursor memory; the failed attempt leaves the
    // mode as read and queues nothing.
    let (_, first) = tick(
        &mut state,
        &notepad(),
        ImeStatus::Original,
        Some((0, 0)),
        SwitchAttempt::Failed,
        1000,
    );
    assert!(first.is_none());
    // Steady pointer movement keeps forcing the switch; the first mouse-move
    // notice goes out.
    let (_, second) = tick(
        &mut state,
        &notepad(),
        ImeStatus::Original,
        Some((200, 0)),
        SwitchAttempt::Failed,
        1200,
    );
    assert_eq!(second.expect("first notice passes").key, MOUSE_MOVE_MESSAGE_KEY);
    // The identical notice inside the cooldown window is suppressed, though
    // the switch decision itself still stands.
    let (switched, third) = tick(
        &mut state,
        &notepad(),
        ImeStatus::Original,
        Some((400, 0)),
        SwitchAttempt::Failed,
        1500,
    );
    assert!(switched);
    assert!(third.is_none());
    // Once the window has passed, the same notice goes through again.
    let (_, fourth) = tick(
        &mut state,
        &notepad(),
        ImeStatus::Original,
        Some((600, 0)),
        SwitchAttempt::Failed,
        2500,
    );
    assert!(fourth.is_some());
}

#[test]
fn no_focus_tick_clears_snapshot_and_keeps_overrides() {
    let mut state = AppState::new(config());
    state.set_manual_override("notepad.exe", true);
    tick(
        &mut state,
        &notepad(),
        ImeStatus::Original,
        None,
        SwitchAttempt::NotAttempted,
        1000,
    );
    assert!(state.manual_override_for("notepad.exe"));
    // No window has focus: the snapshot empties, nothing else moves.
    state.set_focus(None);
    assert!(state.focus.is_none());
    assert!(state.manual_override_for("notepad.exe"));
}
