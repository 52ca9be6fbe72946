use disk_helper::ai::{build_user_prompt, connection_success, model_check, ollama_tags_outcome, reply_outcome, ContextItem};
use disk_helper::cleanup::{check_cleanup_request, plan_cleanup_from_answers};
use disk_helper::error::ErrorCode;
use disk_helper::index::index_clear_guard;
use disk_helper::quarantine::{check_purge_confirm, quarantine_meta, quarantine_plan_at};
use disk_helper::rules::{CleanupRuleDef, GlobAnswers, RulesEngine, RulesFile};
use disk_helper::scan::{diff_children, plan_diff, require_index_ready, DbChild, FsChild, ScanSession};
use disk_helper::suggest::{get_suggestions, suggestions_from_answers, IndexRow, SuggestionFilters};

fn rule(id: &str, risk: &str, globs: &[&str], excludes: &[&str]) -> CleanupRuleDef {
    CleanupRuleDef {
        id: id.to_string(),
        name: format!("{id} name"),
        category: "cache_temp".to_string(),
        risk: risk.to_string(),
        path_globs: globs.iter().map(|g| g.to_string()).collect(),
        min_age_days: 0,
        description: format!("{id} description"),
        restore_hint: format!("{id} hint"),
        exclude_globs: excludes.iter().map(|g| g.to_string()).collect(),
    }
}

fn engine() -> RulesEngine {
    RulesEngine::load(
        RulesFile {
            cleanup_rules: vec![
                rule("user_temp", "safe", &[r"C:\Users\{user}\AppData\Local\Temp\**"], &[]),
                rule("windows_dir", "danger", &[r"C:\Windows\**"], &[r"C:\Windows\Temp\**"]),
                rule("win_temp", "safe", &[r"C:\Windows\Temp\**"], &[]),
            ],
            danger_paths: vec![r"C:\Windows\System32\**".to_string()],
        },
        "Ann",
    )
    .expect("load")
}

fn row(path: &str, size: u64) -> IndexRow {
    IndexRow { path: path.to_string(), is_dir: false, size_bytes: size, folder_size: 0, modified_at: None }
}

fn no_filters<'a>() -> SuggestionFilters<'a> {
    SuggestionFilters { risk_filter: None, category_filter: None, path_keyword: None, page: 1, size: 100 }
}

#[test]
fn select_rule_takes_first_applying_rule() {
    let e = engine();
    assert_eq!(e.select_rule(false, &vec![(true, false), (true, false), (true, false)]), Some(0));
    assert_eq!(e.select_rule(false, &vec![(false, false), (true, true), (true, false)]), Some(2));
    assert_eq!(e.select_rule(false, &vec![(false, false), (true, true), (false, false)]), None);
}

#[test]
fn select_rule_under_protected_path_is_windows_dir() {
    let e = engine();
    assert_eq!(e.select_rule(true, &vec![(true, false), (false, false), (true, false)]), Some(1));
}

#[test]
fn glob_answers_for_paths() {
    let e = engine();
    let a = e.glob_answers(r"C:\Windows\Temp\x.log");
    assert!(!a.danger);
    assert_eq!(a.hits, vec![(false, false), (true, true), (true, false)]);
    let a = e.glob_answers(r"C:\Windows\System32\drivers\etc\hosts");
    assert!(a.danger);
    assert_eq!(e.match_index(r"C:\Windows\System32\drivers\etc\hosts"), Some(1));
    assert_eq!(e.match_index(r"C:\Users\Ann\AppData\Local\Temp\t.tmp"), Some(0));
    assert_eq!(e.match_index(r"D:\games\x"), None);
}

#[test]
fn suggestions_follow_given_answers() {
    let e = engine();
    let rows = vec![row(r"X:\a", 10), row(r"X:\b", 30), row(r"X:\c", 20)];
    let answers = vec![
        GlobAnswers { danger: false, hits: vec![(true, false), (false, false), (false, false)] },
        GlobAnswers { danger: false, hits: vec![(false, false), (false, false), (false, false)] },
        GlobAnswers { danger: true, hits: vec![(false, false), (false, false), (false, false)] },
    ];
    let r = suggestions_from_answers(&e, &rows, &answers, &no_filters(), (1_700_000_000, 0)).expect("fits");
    assert_eq!(r.total, 2);
    assert_eq!(r.items[0].path, r"X:\c");
    assert_eq!(r.items[0].rule_id, "windows_dir");
    assert_eq!(r.items[1].rule_id, "user_temp");
    assert_eq!(r.releasable_bytes, 10);
}

#[test]
fn suggestions_refuse_overflowing_releasable_bytes() {
    let e = engine();
    let rows = vec![
        row(r"C:\Users\Ann\AppData\Local\Temp\a", u64::MAX),
        row(r"C:\Users\Ann\AppData\Local\Temp\b", 1),
    ];
    let err = get_suggestions(true, &e, &rows, &no_filters()).expect_err("overflow");
    assert_eq!(err.code, ErrorCode::InternalError);
    assert_eq!(err.target.as_deref(), Some("rules"));
    let ok = get_suggestions(true, &e, &vec![row(r"C:\Users\Ann\AppData\Local\Temp\a", u64::MAX)], &no_filters())
        .expect("fits");
    assert_eq!(ok.releasable_bytes, u64::MAX);
}

#[test]
fn danger_refusal_follows_selected_rule() {
    let e = engine();
    let paths = vec![r"X:\a".to_string()];
    let danger = vec![GlobAnswers { danger: true, hits: vec![(false, false), (false, false), (false, false)] }];
    let err = plan_cleanup_from_answers(&e, &paths, &danger, None).expect_err("refused");
    assert_eq!(err.code, ErrorCode::DangerNotConfirmed);
    assert_eq!(err.target.as_deref(), Some("cleanup"));
    let plan = plan_cleanup_from_answers(&e, &paths, &danger, Some("确认清理")).expect("confirmed");
    assert_eq!(plan[0].rule_id.as_deref(), Some("windows_dir"));
    let safe = vec![GlobAnswers { danger: false, hits: vec![(false, false), (false, false), (true, false)] }];
    let plan = plan_cleanup_from_answers(&e, &paths, &safe, None).expect("no danger");
    assert_eq!(plan[0].risk, "safe");
    assert_eq!(plan[0].rule_id.as_deref(), Some("win_temp"));
}

#[test]
fn refusals_name_their_target() {
    let mut s = ScanSession::new();
    assert!(s.claim_full().is_ok());
    let e = s.claim_full().expect_err("running");
    assert_eq!(e.code, ErrorCode::ScanAlreadyRunning);
    assert_eq!(e.target.as_deref(), Some("scan"));
    let mut free = ScanSession::new();
    let e = free.claim_incremental(false).expect_err("not ready");
    assert_eq!(e.code, ErrorCode::IndexNotReady);
    assert_eq!(e.target.as_deref(), Some("scan"));
    assert!(free.claim_full().is_ok());
    let e = require_index_ready(false).expect_err("not ready");
    assert_eq!(e.target.as_deref(), Some("scan"));
    assert!(require_index_ready(true).is_ok());
    let e = index_clear_guard(false, "idle").expect_err("unconfirmed");
    assert_eq!(e.target.as_deref(), Some("index"));
    let e = index_clear_guard(true, "paused").expect_err("busy");
    assert_eq!((e.code, e.target.as_deref()), (ErrorCode::ScanAlreadyRunning, Some("index")));
    let e = check_cleanup_request(&vec![], "quarantine").expect_err("empty");
    assert_eq!(e.target.as_deref(), Some("cleanup"));
    let e = check_cleanup_request(&vec!["a".to_string()], "recycle_bin").expect_err("target");
    assert_eq!(e.message, "v1 当前仅支持移入隔离区（quarantine）");
    let e = check_purge_confirm("删除").expect_err("wrong words");
    assert_eq!(e.target.as_deref(), Some("quarantine"));
}

#[test]
fn ollama_tags_outcomes() {
    let model = "deepseek-r1:1.5b";
    let ok = r#"{"models":[{"name":"llama3:8b"},{"size":1},{"name":"deepseek-r1:1.5b:latest"}]}"#;
    assert!(ollama_tags_outcome(200, "200 OK", ok, model).is_ok());
    let e = ollama_tags_outcome(500, "500 Internal Server Error", ok, model).expect_err("status");
    assert_eq!(e.code, ErrorCode::AiOllamaUnavailable);
    assert_eq!(e.message, "Ollama 健康检查失败 (500 Internal Server Error)");
    let e = ollama_tags_outcome(200, "200 OK", "not json", model).expect_err("parse");
    assert_eq!(e.code, ErrorCode::AiOllamaUnavailable);
    assert!(e.message.starts_with("Ollama 响应解析失败: "));
    let e = ollama_tags_outcome(200, "200 OK", r#"{"models":3}"#, model).expect_err("format");
    assert_eq!(e.message, "Ollama 响应格式异常");
    let e = ollama_tags_outcome(200, "200 OK", r#"{"models":[{"name":"llama3:8b"}]}"#, model).expect_err("missing");
    assert_eq!(e.code, ErrorCode::AiModelNotFound);
    assert_eq!(e.message, "未找到模型 deepseek-r1:1.5b，请执行 ollama pull deepseek-r1:1.5b");
    assert!(model_check(&vec![None, Some("deepseek-r1".to_string())], model).is_ok());
}

#[test]
fn chat_reply_outcomes() {
    let body = r#"{"choices":[{"message":{"content":"你好"}}]}"#;
    assert_eq!(reply_outcome(true, 200, "200 OK", body).expect("content"), "你好");
    let e = reply_outcome(false, 200, "200 OK", r#"{"choices":[]}"#).expect_err("no content");
    assert_eq!((e.code, e.message.as_str()), (ErrorCode::AiProviderError, "Ollama 响应缺少 content"));
    let e = reply_outcome(true, 200, "200 OK", "{").expect_err("parse");
    assert!(e.message.starts_with("DeepSeek 响应解析失败: "));
    let e = reply_outcome(true, 401, "401 Unauthorized", "x").expect_err("key");
    assert_eq!((e.code, e.message.as_str()), (ErrorCode::AiInvalidKey, "DeepSeek API Key 无效"));
    let e = reply_outcome(true, 429, "429 Too Many Requests", "x").expect_err("rate");
    assert_eq!(e.code, ErrorCode::AiRateLimit);
    let e = reply_outcome(false, 404, "404 Not Found", "x").expect_err("model");
    assert_eq!(e.message, "Ollama 模型未找到，请确认已 pull 目标模型");
    let e = reply_outcome(false, 503, "503 Service Unavailable", "down").expect_err("server");
    assert_eq!(e.message, "Ollama 服务异常 (503 Service Unavailable): down");
    let long = "y".repeat(300);
    let e = reply_outcome(true, 400, "400 Bad Request", &long).expect_err("request");
    assert_eq!(e.message, format!("DeepSeek 请求失败 (400 Bad Request): {}", "y".repeat(200)));
}

#[test]
fn user_prompt_holds_desensitized_context_only() {
    let items = vec![ContextItem {
        path: r"C:\Users\Alice\Downloads\a.zip".to_string(),
        size_bytes: 5,
        is_dir: false,
        risk: Some("caution".to_string()),
        rule_description: None,
    }];
    let prompt = build_user_prompt("这个能删吗", &items);
    assert!(!prompt.contains("Alice"));
    assert!(prompt.contains(r#""path": "C:\\Users\\{user}\\Downloads\\a.zip""#));
    assert!(prompt.contains(r#""size_bytes": 5"#));
    assert!(prompt.contains(r#""rule_description": null"#));
    let many: Vec<ContextItem> = (0..25)
        .map(|i| ContextItem {
            path: format!("D:\\f{i}"),
            size_bytes: i,
            is_dir: false,
            risk: None,
            rule_description: None,
        })
        .collect();
    let prompt = build_user_prompt("q", &many);
    assert!(prompt.contains(r#""path": "D:\\f19""#));
    assert!(!prompt.contains(r#""path": "D:\\f20""#));
}

#[test]
fn quarantine_meta_lists_the_item() {
    let plan = quarantine_plan_at("/data", "0a1b2c3d-0000-4000-8000-000000000000", (1_706_745_600, 0))
        .expect("plan");
    let text = quarantine_meta(&plan, r"C:\a.txt", 42, "safe", Some("user_temp")).expect("json");
    let value: serde_json::Value = serde_json::from_str(&text).expect("parses");
    assert_eq!(value["id"], "0a1b2c3d-0000-4000-8000-000000000000");
    assert_eq!(value["original_path"], r"C:\a.txt");
    assert_eq!(value["size_bytes"], 42);
    assert_eq!(value["moved_at"], "2024-02-01T00:00:00+00:00");
    assert_eq!(value["risk"], "safe");
    assert_eq!(value["rule_id"], "user_temp");
    let text = quarantine_meta(&plan, r"C:\a.txt", 42, "caution", None).expect("json");
    assert!(text.contains("\"rule_id\": null"));
}

#[test]
fn diff_plan_lists_drops_and_writes() {
    let fs = vec![
        FsChild { path: r"C:\a".to_string(), is_dir: false, size_bytes: 5, modified_at: None },
        FsChild { path: r"C:\b".to_string(), is_dir: true, size_bytes: 0, modified_at: None },
        FsChild { path: r"C:\c".to_string(), is_dir: false, size_bytes: 7, modified_at: None },
        FsChild { path: r"C:\d".to_string(), is_dir: false, size_bytes: 1, modified_at: None },
    ];
    let db = vec![
        DbChild { path: r"C:\a".to_string(), is_dir: false, size_bytes: 5, modified_at: None },
        DbChild { path: r"C:\b".to_string(), is_dir: false, size_bytes: 3, modified_at: None },
        DbChild { path: r"C:\c".to_string(), is_dir: true, size_bytes: 0, modified_at: None },
        DbChild { path: r"C:\gone".to_string(), is_dir: false, size_bytes: 2, modified_at: None },
    ];
    let diff = diff_children(&fs, &db);
    let plan = plan_diff(&fs, &diff);
    assert_eq!(plan.purges, vec![r"C:\b".to_string(), r"C:\c".to_string(), r"C:\gone".to_string()]);
    assert_eq!(plan.writes, vec![r"C:\c".to_string(), r"C:\d".to_string()]);
}

#[test]
fn plainly_matching_paths_get_their_rule() {
    let e = engine();
    let info = e.match_path_info(r"C:/Users/Ann/AppData/Local/Temp/x/y.tmp").expect("matched");
    assert_eq!((info.id.as_str(), info.risk.as_str()), ("user_temp", "safe"));
    let a = e.glob_answers(r"C:\Windows\Temp");
    assert_eq!(a.hits[2], (false, false));
}

#[test]
fn connection_success_texts() {
    let local = connection_success(false, "qwen2:7b");
    assert_eq!(local.status, "success");
    assert_eq!(local.message, "Ollama 连接成功，模型 qwen2:7b 可用");
    assert_eq!(local.provider, "ollama");
    let cloud = connection_success(true, "qwen2:7b");
    assert_eq!((cloud.message.as_str(), cloud.provider.as_str()), ("DeepSeek API 连接成功", "deepseek"));
}
