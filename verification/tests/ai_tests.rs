use disk_helper::ai::{
    model_check, build_system_prompt, build_user_prompt, chat_summary, choose_test_key,
    deepseek_error_code, model_matches, ollama_error_code, prompt_context, status_is_server_error,
    status_is_success, truncate, validate_question, ContextItem, DISCLAIMER, MAX_CONTEXT_ITEMS,
};
use disk_helper::error::ErrorCode;
use disk_helper::paths::{desensitize_path, desensitize_path_checked};

#[test]
fn model_matches_variants() {
    assert!(model_matches("deepseek-r1:1.5b", "deepseek-r1:1.5b"));
    assert!(model_matches("deepseek-r1:1.5b:latest", "deepseek-r1:1.5b"));
    assert!(!model_matches("llama3:8b", "deepseek-r1:1.5b"));
}

#[test]
fn desensitize_replaces_username() {
    let input = r"C:\Users\Alice\Downloads\file.zip";
    let out = desensitize_path(input);
    assert!(out.contains(r"C:\Users\{user}\"));
    assert!(!out.contains("Alice"));
}

#[test]
fn desensitize_truncates_long_paths() {
    let long = format!(r"C:\Users\Bob\{}\file.txt", "x".repeat(100));
    let out = desensitize_path(&long);
    assert!(out.contains("..."));
    assert!(out.len() <= 120 + 3);
}

#[test]
fn build_user_prompt_includes_question() {
    let prompt = build_user_prompt("能删吗", &vec![]);
    assert!(prompt.contains("能删吗"));
    assert!(prompt.contains("上下文"));
}

#[test]
fn build_user_prompt_exact_text() {
    let prompt = build_user_prompt("q", &vec![]);
    assert_eq!(prompt, "用户问题：q\n\n上下文（JSON，路径已脱敏，最多 20 条）：\n[]");
}

#[test]
fn desensitize_exact_results() {
    assert_eq!(desensitize_path(r"C:/Users/Alice/Downloads/a.zip"), r"C:\Users\{user}\Downloads\a.zip");
    assert_eq!(desensitize_path(r"c:\USERS\bob\x"), r"c:\USERS\{user}\x");
    assert_eq!(desensitize_path(r"C:\Users\Alice"), r"C:\Users\Alice");
    assert_eq!(desensitize_path(r"D:\data\file"), r"D:\data\file");
    let long = format!(r"C:\Users\Bob\{}\file.txt", "x".repeat(100));
    let out = desensitize_path(&long);
    let masked = format!(r"C:\Users\{{user}}\{}\file.txt", "x".repeat(100));
    assert_eq!(out, format!("{}...{}", &masked[..60], &masked[masked.len() - 40..]));
    assert_eq!(out.len(), 103);
}

#[test]
fn desensitize_checked_refuses_cut_inside_character() {
    let long = format!("{}{}", "a".repeat(59), "é".repeat(40));
    assert_eq!(desensitize_path_checked(&long), None);
    let ok = format!("{}", "b".repeat(130));
    let out = desensitize_path_checked(&ok).expect("cut between characters");
    assert_eq!(out.len(), 103);
}

#[test]
fn truncate_keeps_short_and_cuts_long() {
    assert_eq!(truncate("abc", 5), "abc");
    assert_eq!(truncate("abcdef", 3), "abc…");
    assert_eq!(truncate("你好世界", 2), "你好…");
}

#[test]
fn question_is_trimmed_and_blank_refused() {
    assert_eq!(validate_question("  能删吗 ").expect("ok"), "能删吗");
    let e = validate_question("   ").expect_err("blank");
    assert_eq!(e.code, ErrorCode::BadArgument);
    assert_eq!(e.message, "问题不能为空");
}

#[test]
fn chat_summary_caps_context_count() {
    assert_eq!(chat_summary("能删吗", 3), "AI 咨询：能删吗（3 条上下文）");
    assert_eq!(chat_summary("q", 50), "AI 咨询：q（20 条上下文）");
    let long_q = "问".repeat(45);
    assert_eq!(chat_summary(&long_q, 0), format!("AI 咨询：{}…（0 条上下文）", "问".repeat(40)));
}

#[test]
fn system_prompt_lists_limits() {
    let p = build_system_prompt();
    assert!(p.starts_with("你是 Disk Helper 的磁盘空间分析助手"));
    assert_eq!(p.lines().count(), 6);
    assert!(p.ends_with("4. 使用 Markdown，简洁清晰，中文回复。"));
}

#[test]
fn prompt_context_limits_and_desensitizes() {
    let items: Vec<ContextItem> = (0..25)
        .map(|i| ContextItem {
            path: format!(r"C:\Users\Carol\f{i}.txt"),
            size_bytes: i as u64,
            is_dir: false,
            risk: Some("safe".to_string()),
            rule_description: None,
        })
        .collect();
    let ctx = prompt_context(&items).expect("all defined");
    assert_eq!(ctx.len(), MAX_CONTEXT_ITEMS);
    assert_eq!(ctx[3].path, r"C:\Users\{user}\f3.txt");
    assert_eq!(ctx[3].size_bytes, 3);
    assert_eq!(ctx[3].risk.as_deref(), Some("safe"));
}

#[test]
fn test_key_prefers_given_non_blank_key() {
    assert_eq!(choose_test_key(Some("sk-1".to_string())), Some("sk-1".to_string()));
    assert_eq!(choose_test_key(Some("   ".to_string())), None);
    assert_eq!(choose_test_key(None), None);
}

#[test]
fn provider_status_codes() {
    assert!(status_is_success(200) && status_is_success(299) && !status_is_success(300));
    assert!(status_is_server_error(503) && !status_is_server_error(404));
    assert_eq!(deepseek_error_code(401), ErrorCode::AiInvalidKey);
    assert_eq!(deepseek_error_code(429), ErrorCode::AiRateLimit);
    assert_eq!(deepseek_error_code(500), ErrorCode::AiProviderError);
    assert_eq!(ollama_error_code(404), ErrorCode::AiModelNotFound);
    assert_eq!(ollama_error_code(500), ErrorCode::AiProviderError);
}

#[test]
fn any_installed_model_serves_target() {
    let installed = vec![Some("llama3:8b".to_string()), Some("deepseek-r1".to_string())];
    assert!(model_check(&installed, "deepseek-r1:1.5b").is_ok());
    let e = model_check(&vec![Some("qwen2:7b".to_string()), None], "deepseek-r1:1.5b").expect_err("missing");
    assert_eq!(e.code, ErrorCode::AiModelNotFound);
}

#[test]
fn disclaimer_text() {
    assert_eq!(DISCLAIMER, "以上仅供参考，删除操作请在安全清理中自行确认。");
}
