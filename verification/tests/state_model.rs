use langcon::config::AppConfig;
use langcon::ime::ImeStatus;
use langcon::process::ProcessInfo;
use langcon::state::{AppState, FocusSnapshotInternal, StatusMessage};

fn config() -> AppConfig {
    AppConfig {
        selected_processes: vec!["notepad.exe".to_string(), "code.exe".to_string()],
        use_auto_to_en: true,
        use_mouse_move_event: true,
        detect_interval_ms: 500,
        mouse_sensitivity: 100,
        in_english: false,
        start_with_windows: false,
        language: "en".to_string(),
    }
}

fn message(key: &str, name: &str) -> StatusMessage {
    StatusMessage::with_values(
        key.to_string(),
        vec![("name".to_string(), name.to_string())],
    )
}

#[test]
fn fresh_state_requests_one_process_refresh() {
    let mut state = AppState::new(config());
    assert!(state.take_process_refresh_request());
    assert!(!state.take_process_refresh_request());
    state.request_process_refresh();
    assert!(state.take_process_refresh_request());
}

#[test]
fn draft_edits_become_active_only_on_save() {
    let mut state = AppState::new(config());
    assert!(state.save_changes().is_none());
    state.set_use_auto_to_en(false);
    assert!(state.has_unsaved_changes());
    assert!(state.active_config().use_auto_to_en);
    let persisted = state.save_changes().expect("dirty state saves");
    assert!(!persisted.use_auto_to_en);
    assert!(!state.active_config().use_auto_to_en);
    assert!(!state.has_unsaved_changes());
}

#[test]
fn discard_restores_the_active_configuration() {
    let mut state = AppState::new(config());
    state.set_detect_interval(2000);
    assert!(state.discard_changes());
    assert_eq!(state.to_view_model().draft_config.detect_interval_ms, 500);
    assert!(!state.discard_changes());
}

#[test]
fn setters_clamp_to_safe_minima() {
    let mut state = AppState::new(config());
    state.set_detect_interval(5);
    state.set_mouse_sensitivity(0);
    let vm = state.to_view_model();
    assert_eq!(vm.draft_config.detect_interval_ms, 100);
    assert_eq!(vm.draft_config.mouse_sensitivity, 1);
}

#[test]
fn selection_edits_are_set_like() {
    let mut state = AppState::new(config());
    assert!(!state.add_selected_process("notepad.exe".to_string()));
    assert!(state.add_selected_process("word.exe".to_string()));
    assert!(!state.add_selected_process("word.exe".to_string()));
    assert!(state.remove_selected_process("word.exe"));
    assert!(!state.remove_selected_process("word.exe"));
}

#[test]
fn adding_a_process_keeps_the_selection_ordered() {
    let mut state = AppState::new(config());
    state.add_selected_process("aaa.exe".to_string());
    let vm = state.to_view_model();
    assert_eq!(
        vm.draft_config.selected_processes,
        vec!["aaa.exe".to_string(), "code.exe".to_string(), "notepad.exe".to_string()]
    );
}

#[test]
fn saving_purges_overrides_of_deselected_processes() {
    let mut state = AppState::new(config());
    state.set_manual_override("notepad.exe", true);
    state.set_manual_override("code.exe", true);
    state.remove_selected_process("code.exe");
    assert!(
        !state.manual_override_for("code.exe"),
        "removal clears the override at once"
    );
    state.set_manual_override("code.exe", true);
    state.save_changes().expect("the removal left edits pending");
    assert!(state.manual_override_for("notepad.exe"));
    assert!(
        !state.manual_override_for("code.exe"),
        "saving keeps overrides only for still-selected names"
    );
}

#[test]
fn override_updates_patch_a_matching_snapshot() {
    let mut state = AppState::new(config());
    state.set_focus(Some(FocusSnapshotInternal {
        process: Some(ProcessInfo {
            pid: 1,
            name: "notepad.exe".to_string(),
            title: String::new(),
        }),
        ime_status: ImeStatus::Original,
        manual_override: false,
        updated_at_ms: 0,
    }));
    state.set_manual_override("notepad.exe", true);
    assert!(state.focus.clone().unwrap().manual_override);
    state.set_manual_override("word.exe", true);
    assert!(state.focus.clone().unwrap().manual_override);
    state.set_manual_override("notepad.exe", false);
    assert!(!state.focus.clone().unwrap().manual_override);
}

#[test]
fn set_language_settles_and_reports_changes() {
    let mut state = AppState::new(config());
    assert!(state.set_language("KO"));
    assert_eq!(state.current_language(), "ko");
    assert!(!state.set_language("ko"));
    assert!(state.set_language("klingon"));
    assert_eq!(state.current_language(), "en");
}

#[test]
fn identical_message_within_cooldown_is_suppressed() {
    let mut state = AppState::new(config());
    let notice = message("toast.status.autoSwitch", "notepad.exe");
    assert!(state.should_emit_status_at(&notice, 1000, 500));
    state.record_status_at(&notice, 500);
    assert!(!state.should_emit_status_at(&notice, 1000, 1499));
    assert!(state.should_emit_status_at(&notice, 1000, 1500));
}

#[test]
fn different_message_passes_whatever_the_elapsed_time() {
    let mut state = AppState::new(config());
    let notice = message("toast.status.autoSwitch", "notepad.exe");
    state.record_status_at(&notice, 500);
    let other_name = message("toast.status.autoSwitch", "word.exe");
    let other_key = message("toast.status.mouseMove", "notepad.exe");
    assert!(state.should_emit_status_at(&other_name, 1000, 501));
    assert!(state.should_emit_status_at(&other_key, 1000, 501));
}

#[test]
fn message_equality_ignores_parameter_order() {
    let a = StatusMessage::with_values(
        "toast.status.autoSwitch".to_string(),
        vec![
            ("name".to_string(), "notepad.exe".to_string()),
            ("mode".to_string(), "en".to_string()),
        ],
    );
    let b = StatusMessage::with_values(
        "toast.status.autoSwitch".to_string(),
        vec![
            ("mode".to_string(), "en".to_string()),
            ("name".to_string(), "notepad.exe".to_string()),
        ],
    );
    assert!(a.same_as(&b));
    let c = StatusMessage::with_values(
        "toast.status.autoSwitch".to_string(),
        vec![
            ("mode".to_string(), "ko".to_string()),
            ("name".to_string(), "notepad.exe".to_string()),
        ],
    );
    assert!(!a.same_as(&c));
}

#[test]
fn view_model_copies_the_whole_picture() {
    let mut state = AppState::new(config());
    state.set_use_mouse_move_event(false);
    state.set_available_processes(vec![ProcessInfo {
        pid: 3,
        name: "word.exe".to_string(),
        title: "Report".to_string(),
    }]);
    state.set_focus(Some(FocusSnapshotInternal {
        process: Some(ProcessInfo {
            pid: 3,
            name: "word.exe".to_string(),
            title: "Report".to_string(),
        }),
        ime_status: ImeStatus::English,
        manual_override: false,
        updated_at_ms: 1_700_000_000_000,
    }));
    let vm = state.to_view_model();
    assert!(vm.saved_config.use_mouse_move_event);
    assert!(!vm.draft_config.use_mouse_move_event);
    assert!(vm.has_unsaved_changes);
    assert_eq!(vm.available_processes.len(), 1);
    assert!(vm.status_message.is_none());
    let focus = vm.focus.expect("focus is mirrored");
    assert_eq!(focus.ime_status, ImeStatus::English);
    let shown = focus.updated_at.expect("the instant is rendered");
    assert_eq!(shown.len(), 8, "wall-clock text reads HH:MM:SS");
}
