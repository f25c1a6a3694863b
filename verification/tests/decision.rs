use langcon::config::AppConfig;
use langcon::ime::ImeStatus;
use langcon::monitor::{
    evaluate_tick, moved_at_least, resulting_mode, tick_message, SwitchAttempt,
    AUTO_SWITCH_MESSAGE_KEY, MOUSE_MOVE_MESSAGE_KEY,
};
use langcon::process::ProcessInfo;
use langcon::state::FocusSnapshotInternal;

fn config_with(selected: &[&str]) -> AppConfig {
    AppConfig {
        selected_processes: selected.iter().map(|s| s.to_string()).collect(),
        use_auto_to_en: true,
        use_mouse_move_event: true,
        detect_interval_ms: 500,
        mouse_sensitivity: 100,
        in_english: false,
        start_with_windows: false,
        language: "en".to_string(),
    }
}

fn snapshot(name: &str, ime: ImeStatus) -> Option<FocusSnapshotInternal> {
    Some(FocusSnapshotInternal {
        process: Some(ProcessInfo { pid: 7, name: name.to_string(), title: String::new() }),
        ime_status: ime,
        manual_override: false,
        updated_at_ms: 0,
    })
}

#[test]
fn unselected_process_is_left_alone() {
    let cfg = config_with(&["notepad.exe"]);
    let d = evaluate_tick(&cfg, &None, false, None, "word.exe", ImeStatus::Original, None);
    assert!(!d.process_selected);
    assert!(!d.should_switch);
    assert!(!d.manual_override);
    // An override that was already standing stays exactly as it was.
    let d2 = evaluate_tick(&cfg, &None, true, None, "word.exe", ImeStatus::Original, None);
    assert!(!d2.should_switch);
    assert!(d2.manual_override);
}

#[test]
fn target_mode_never_requests_a_switch() {
    let cfg = config_with(&["notepad.exe"]);
    for _ in 0..3 {
        let d = evaluate_tick(&cfg, &None, false, None, "notepad.exe", ImeStatus::English, None);
        assert!(d.process_selected);
        assert!(!d.should_switch);
    }
}

#[test]
fn hysteresis_raises_override_and_blocks_switch() {
    let cfg = config_with(&["notepad.exe"]);
    let prev = snapshot("notepad.exe", ImeStatus::English);
    let d = evaluate_tick(&cfg, &prev, false, None, "notepad.exe", ImeStatus::Original, None);
    assert!(d.manual_override);
    assert!(!d.should_switch);
    assert!(!d.mouse_moved);
}

#[test]
fn hysteresis_needs_target_as_previous_reading() {
    // An Unknown previous reading is never evidence of a manual switch.
    let cfg = config_with(&["notepad.exe"]);
    let prev = snapshot("notepad.exe", ImeStatus::Unknown);
    let d = evaluate_tick(&cfg, &prev, false, None, "notepad.exe", ImeStatus::Original, None);
    assert!(!d.manual_override);
    assert!(d.should_switch);
}

#[test]
fn self_clear_withdraws_override_in_target_mode() {
    let cfg = config_with(&["notepad.exe"]);
    let d = evaluate_tick(&cfg, &None, true, None, "notepad.exe", ImeStatus::English, None);
    assert!(!d.manual_override);
    assert!(!d.should_switch);
}

#[test]
fn cursor_override_fires_at_exact_threshold() {
    // distance((0,0),(60,80)) = 100 = sensitivity; the test is inclusive.
    let cfg = config_with(&["notepad.exe"]);
    let d = evaluate_tick(
        &cfg,
        &None,
        true,
        Some((0, 0)),
        "notepad.exe",
        ImeStatus::Original,
        Some((60, 80)),
    );
    assert!(!d.manual_override);
    assert!(d.should_switch);
    assert!(d.mouse_moved);
    assert_eq!(d.new_cursor, Some((60, 80)));
}

#[test]
fn cursor_below_threshold_changes_nothing() {
    let cfg = config_with(&["notepad.exe"]);
    let d = evaluate_tick(
        &cfg,
        &None,
        true,
        Some((0, 0)),
        "notepad.exe",
        ImeStatus::Original,
        Some((60, 79)),
    );
    assert!(d.manual_override);
    assert!(!d.should_switch);
    assert!(!d.mouse_moved);
    assert_eq!(d.new_cursor, Some((60, 79)));
}

#[test]
fn cursor_memory_updates_only_for_tracked_selected_process() {
    let cfg = config_with(&["notepad.exe"]);
    let d = evaluate_tick(&cfg, &None, false, Some((1, 1)), "word.exe", ImeStatus::Original, Some((9, 9)));
    assert_eq!(d.new_cursor, Some((1, 1)));
    let mut off = config_with(&["notepad.exe"]);
    off.use_mouse_move_event = false;
    let d2 = evaluate_tick(&off, &None, false, Some((1, 1)), "notepad.exe", ImeStatus::Original, Some((9, 9)));
    assert_eq!(d2.new_cursor, Some((1, 1)));
}

#[test]
fn disabled_auto_switch_still_yields_to_cursor_rule() {
    let mut cfg = config_with(&["notepad.exe"]);
    cfg.use_auto_to_en = false;
    let calm = evaluate_tick(&cfg, &None, false, None, "notepad.exe", ImeStatus::Original, None);
    assert!(!calm.should_switch);
    let moved = evaluate_tick(
        &cfg,
        &None,
        false,
        Some((0, 0)),
        "notepad.exe",
        ImeStatus::Original,
        Some((200, 0)),
    );
    assert!(moved.should_switch);
    assert!(moved.mouse_moved);
}

#[test]
fn cursor_distance_handles_extreme_coordinates() {
    assert!(moved_at_least((i32::MIN, i32::MIN), (i32::MAX, i32::MAX), u32::MAX));
    assert!(!moved_at_least((0, 0), (0, 0), 1));
    assert!(moved_at_least((0, 0), (0, 0), 0));
    assert!(moved_at_least((-3, 4), (3, -4), 10));
    assert!(!moved_at_least((-3, 4), (3, -4), 11));
}

#[test]
fn resulting_mode_follows_attempt() {
    assert_eq!(
        resulting_mode(ImeStatus::Original, SwitchAttempt::Completed { toggled: true }),
        ImeStatus::English
    );
    assert_eq!(
        resulting_mode(ImeStatus::Original, SwitchAttempt::Failed),
        ImeStatus::Original
    );
    assert_eq!(
        resulting_mode(ImeStatus::Unknown, SwitchAttempt::NotAttempted),
        ImeStatus::Unknown
    );
}

#[test]
fn auto_switch_message_replaces_mouse_move_message() {
    let cfg = config_with(&["notepad.exe"]);
    let d = evaluate_tick(
        &cfg,
        &None,
        true,
        Some((0, 0)),
        "notepad.exe",
        ImeStatus::Original,
        Some((60, 80)),
    );
    assert!(d.mouse_moved);
    let toggled = tick_message(&d, SwitchAttempt::Completed { toggled: true }, "notepad.exe")
        .expect("a message is queued");
    assert_eq!(toggled.key, AUTO_SWITCH_MESSAGE_KEY);
    assert_eq!(toggled.values[0], ("name".to_string(), "notepad.exe".to_string()));
    let failed = tick_message(&d, SwitchAttempt::Failed, "notepad.exe")
        .expect("the mouse-move message survives a failed attempt");
    assert_eq!(failed.key, MOUSE_MOVE_MESSAGE_KEY);
    let quiet = tick_message(
        &evaluate_tick(&cfg, &None, false, None, "word.exe", ImeStatus::Original, None),
        SwitchAttempt::NotAttempted,
        "word.exe",
    );
    assert!(quiet.is_none());
}
