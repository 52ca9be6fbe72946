use disk_helper::config::{apply_config_input, mode_change_summary, AiMode, ApiKeyChange, AppSettings, ConfigSaveInput, SoftDeleteTarget};

#[test]
fn defaults_use_data_dir_quarantine() {
    let temp = tempfile::tempdir().expect("temp dir");
    let data_dir = temp.path().to_string_lossy().to_string();
    let settings = AppSettings::defaults(&data_dir);
    assert_eq!(settings.quarantine_root, temp.path().join("quarantine").to_string_lossy().to_string());
    assert!(settings.quarantine_root.ends_with("quarantine"));
    assert_eq!(settings.ollama_model, "deepseek-r1:1.5b");
}

#[test]
fn defaults_values() {
    let s = AppSettings::defaults("/data");
    assert_eq!(s.theme, "system");
    assert_eq!(s.ai_mode, AiMode::Local);
    assert_eq!(s.ollama_base_url, "http://127.0.0.1:11434");
    assert!(!s.has_api_key);
    assert_eq!(s.retention_days, 30);
    assert!(!s.admin_scan_enabled);
    assert_eq!((s.warning_threshold_gb, s.critical_threshold_gb), (10, 2));
    assert_eq!(s.soft_delete_target, SoftDeleteTarget::Quarantine);
}

#[test]
fn save_changes_only_given_fields() {
    let input = ConfigSaveInput {
        theme: Some("dark".to_string()),
        ollama_base_url: Some("http://localhost:11434//".to_string()),
        retention_days: Some(0),
        api_key: Some("  sk-abc  ".to_string()),
        ..ConfigSaveInput::default()
    };
    let (s, change) = apply_config_input(AppSettings::defaults("/data"), input);
    assert_eq!(s.theme, "dark");
    assert_eq!(s.ollama_base_url, "http://localhost:11434");
    assert_eq!(s.retention_days, 1);
    assert!(s.has_api_key);
    assert_eq!(s.ollama_model, "deepseek-r1:1.5b");
    assert_eq!(s.ai_mode, AiMode::Local);
    match change {
        ApiKeyChange::Store(k) => assert_eq!(k, "sk-abc"),
        other => panic!("unexpected {other:?}"),
    }
}

#[test]
fn blank_key_deletes_and_absent_key_keeps() {
    let input = ConfigSaveInput { api_key: Some("   ".to_string()), ..ConfigSaveInput::default() };
    let mut start = AppSettings::defaults("/d");
    start.has_api_key = true;
    let (s, change) = apply_config_input(start, input);
    assert!(!s.has_api_key);
    assert!(matches!(change, ApiKeyChange::Delete));
    let mut start = AppSettings::defaults("/d");
    start.has_api_key = true;
    let (s, change) = apply_config_input(start, ConfigSaveInput::default());
    assert!(s.has_api_key);
    assert!(matches!(change, ApiKeyChange::Keep));
}

#[test]
fn empty_save_keeps_everything_and_saving_twice_is_once() {
    let before = AppSettings::defaults("/d");
    let (after, _) = apply_config_input(AppSettings::defaults("/d"), ConfigSaveInput::default());
    assert_eq!(after.theme, before.theme);
    assert_eq!(after.quarantine_root, before.quarantine_root);
    assert_eq!(after.retention_days, before.retention_days);
    let make = || ConfigSaveInput {
        ai_mode: Some(AiMode::Cloud),
        retention_days: Some(7),
        soft_delete_target: Some(SoftDeleteTarget::RecycleBin),
        ..ConfigSaveInput::default()
    };
    let (once, _) = apply_config_input(AppSettings::defaults("/d"), make());
    let (twice, _) = apply_config_input(apply_config_input(AppSettings::defaults("/d"), make()).0, make());
    assert_eq!(once.ai_mode, twice.ai_mode);
    assert_eq!(once.retention_days, twice.retention_days);
    assert_eq!(once.soft_delete_target, twice.soft_delete_target);
}

#[test]
fn mode_change_is_summarized() {
    assert_eq!(mode_change_summary(AiMode::Local, AiMode::Local), None);
    assert_eq!(mode_change_summary(AiMode::Local, AiMode::Cloud), Some("AI 模式切换为云端 DeepSeek"));
    assert_eq!(mode_change_summary(AiMode::Cloud, AiMode::Local), Some("AI 模式切换为本地 Ollama"));
}
