use langcon::config::{sanitize_language, AppConfig};
use langcon::ime::{ImeStatus, SwitchController, SwitchStep};
use langcon::process::{is_banned, ProcessCollector, ProcessInfo};
use langcon::text::{str_eq, str_eq_nocase, str_le};
use langcon::tray::tray_texts;
use langcon::version::latest_version_in_manifest;

#[test]
fn language_tags_are_folded_before_the_check() {
    // A wrapper handing its argument back unchanged would fall through to
    // the fallback here.
    assert_eq!(sanitize_language("KO"), "ko");
    assert_eq!(sanitize_language("Ja"), "ja");
    assert_eq!(sanitize_language("zh"), "zh");
    assert_eq!(sanitize_language("EN"), "en");
    assert_eq!(sanitize_language("klingon"), "en");
    assert_eq!(sanitize_language(""), "en");
}

#[test]
fn default_configuration_is_ready_to_run() {
    let cfg = AppConfig::default();
    assert!(cfg.use_auto_to_en);
    assert!(cfg.use_mouse_move_event);
    assert_eq!(cfg.detect_interval_ms, 500);
    assert_eq!(cfg.mouse_sensitivity, 100);
    assert_eq!(cfg.language, "en");
    assert!(cfg.selected_processes.is_empty());
    assert!(!cfg.start_with_windows);
}

#[test]
fn normalize_replaces_unusable_values() {
    let mut cfg = AppConfig {
        selected_processes: vec![
            "b.exe".to_string(),
            "a.exe".to_string(),
            "b.exe".to_string(),
        ],
        use_auto_to_en: false,
        use_mouse_move_event: true,
        detect_interval_ms: 0,
        mouse_sensitivity: 0,
        in_english: false,
        start_with_windows: false,
        language: "KO".to_string(),
    };
    cfg.normalize();
    assert_eq!(cfg.detect_interval_ms, 500);
    assert_eq!(cfg.mouse_sensitivity, 100);
    assert_eq!(cfg.language, "ko");
    assert_eq!(cfg.selected_processes, vec!["a.exe".to_string(), "b.exe".to_string()]);
    assert!(!cfg.use_auto_to_en);
}

#[test]
fn banned_names_are_matched_ignoring_case() {
    assert!(is_banned("explorer.exe"));
    assert!(is_banned("Explorer.EXE"));
    assert!(is_banned("NVIDIA Overlay.exe"));
    assert!(!is_banned("notepad.exe"));
    assert!(!is_banned("explorer.ex"));
}

#[test]
fn string_helpers_compare_as_documented() {
    assert!(str_eq("abc", "abc"));
    assert!(!str_eq("abc", "abd"));
    assert!(str_eq_nocase("AbC", "aBc"));
    assert!(!str_eq_nocase("abc", "abd"));
    assert!(str_le("alpha.exe", "beta.exe"));
    assert!(!str_le("beta.exe", "alpha.exe"));
    assert!(str_le("same", "same"));
    assert!(str_le("ab", "abc"));
}

#[test]
fn collector_folds_names_and_sorts_its_report() {
    let mut collector = ProcessCollector::new();
    let entry = |pid: u32, name: &str| ProcessInfo {
        pid,
        name: name.to_string(),
        title: String::new(),
    };
    collector.push(entry(1, "Zed.exe"));
    collector.push(entry(2, "alpha.exe"));
    collector.push(entry(3, "ZED.EXE"));
    collector.push(entry(4, "Beta.exe"));
    let listed = collector.finish();
    let names: Vec<String> = listed.iter().map(|p| p.name.clone()).collect();
    assert_eq!(
        names,
        vec!["Beta.exe".to_string(), "Zed.exe".to_string(), "alpha.exe".to_string()]
    );
}

#[test]
fn tray_texts_follow_the_language() {
    assert_eq!(tray_texts("ko").quit, "종료");
    assert_eq!(tray_texts("ja").quit, "終了");
    assert_eq!(tray_texts("zh").quit, "退出");
    assert_eq!(tray_texts("en").quit, "Quit");
    assert_eq!(tray_texts("fr").quit, "Quit");
}

#[test]
fn manifest_version_is_read_from_the_first_version_line() {
    let body = "[package]\nname = \"langcon\"\nversion = \"0.1.3\"\nedition = \"2021\"\n";
    assert_eq!(latest_version_in_manifest(body), Some("0.1.3".to_string()));
}

#[test]
fn manifest_version_survives_spacing_and_crlf() {
    let body = "[package]\r\n\tversion   =   \"  2.0.0 \"\r\n";
    assert_eq!(latest_version_in_manifest(body), Some("2.0.0".to_string()));
}

#[test]
fn lookalike_keys_and_empty_values_are_passed_over() {
    let body = "versioning = \"9\"\nversion = \"\"\nversion = \"1.2.3\"\n";
    assert_eq!(latest_version_in_manifest(body), Some("1.2.3".to_string()));
    assert_eq!(latest_version_in_manifest("name = \"x\"\n"), None);
    assert_eq!(latest_version_in_manifest(""), None);
    assert_eq!(latest_version_in_manifest("version"), None);
}

#[test]
fn switch_controller_gives_up_after_its_budget() {
    let mut controller = SwitchController::new();
    assert_eq!(controller.observe(ImeStatus::Original), SwitchStep::Toggle);
    assert_eq!(controller.observe(ImeStatus::Unknown), SwitchStep::Toggle);
    assert_eq!(controller.observe(ImeStatus::Original), SwitchStep::Toggle);
    assert_eq!(controller.observe(ImeStatus::Original), SwitchStep::GiveUp);
}

#[test]
fn switch_controller_stops_at_the_target_mode() {
    let mut untouched = SwitchController::new();
    assert_eq!(untouched.observe(ImeStatus::English), SwitchStep::Done(false));
    let mut toggled = SwitchController::new();
    assert_eq!(toggled.observe(ImeStatus::Original), SwitchStep::Toggle);
    assert_eq!(toggled.observe(ImeStatus::English), SwitchStep::Done(true));
}
