use disk_helper::cleanup::{check_cleanup_request, paths_from_items, plan_cleanup, CleanupTally};
use disk_helper::error::ErrorCode;
use disk_helper::models::CleanupExecuteItem;
use disk_helper::rules::{
    expand_pattern_exec, expand_patterns, rules_file_path, CleanupRuleDef, RulesEngine, RulesFile,
};
use disk_helper::suggest::{build_suggestions, get_suggestions, passes_filters, IndexRow, SuggestionFilters};

fn rule(id: &str, category: &str, risk: &str, globs: &[&str], min_age_days: u32, excludes: &[&str]) -> CleanupRuleDef {
    CleanupRuleDef {
        id: id.to_string(),
        name: format!("{id} name"),
        category: category.to_string(),
        risk: risk.to_string(),
        path_globs: globs.iter().map(|g| g.to_string()).collect(),
        min_age_days,
        description: format!("{id} description"),
        restore_hint: format!("{id} hint"),
        exclude_globs: excludes.iter().map(|g| g.to_string()).collect(),
    }
}

/// The built-in rules: user and system temp folders, browser caches,
/// downloads, the Windows folder (minus its temp folder), and the
/// protected system paths.
fn builtin_rules() -> RulesFile {
    RulesFile {
        cleanup_rules: vec![
            rule("user_temp", "cache_temp", "safe", &[r"C:\Users\{user}\AppData\Local\Temp\**"], 0, &[]),
            rule("windows_dir", "system", "danger", &[r"C:\Windows\**"], 0, &[r"C:\Windows\Temp\**"]),
            rule("win_temp", "cache_temp", "safe", &[r"C:\Windows\Temp\**"], 0, &[]),
            rule(
                "browser_cache",
                "cache_temp",
                "safe",
                &[r"C:\Users\{user}\AppData\Local\Google\Chrome\User Data\*\Cache\**"],
                0,
                &[],
            ),
            rule("old_downloads", "download", "caution", &[r"C:\Users\{user}\Downloads\**"], 30, &[]),
        ],
        danger_paths: vec![r"C:\Windows\System32\**".to_string(), r"C:\Windows\WinSxS\**".to_string()],
    }
}

fn engine_for(user: &str) -> RulesEngine {
    RulesEngine::load(builtin_rules(), user).expect("load")
}

fn no_filters<'a>() -> SuggestionFilters<'a> {
    SuggestionFilters { risk_filter: None, category_filter: None, path_keyword: None, page: 1, size: 100 }
}

#[test]
fn rules_engine_loads_builtin_file() {
    RulesEngine::load(builtin_rules(), "{user}").expect("load rules");
}

#[test]
fn match_user_temp_rule() {
    let engine = engine_for("TestUser");
    let user = "TestUser";
    let path = format!(r"C:\Users\{user}\AppData\Local\Temp\cache.dat");
    let rule = engine.match_path_info(&path).expect("matched");
    assert_eq!(rule.id, "user_temp");
    assert_eq!(rule.risk, "safe");
}

#[test]
fn windows_temp_excluded_from_windows_dir_rule() {
    let engine = engine_for("TestUser");
    let path = r"C:\Windows\Temp\foo.tmp";
    let rule = engine.match_path_info(path).expect("matched");
    assert_eq!(rule.id, "win_temp");
}

#[test]
fn suggestions_require_index() {
    let engine = engine_for("TestUser");
    let result = get_suggestions(
        false,
        &engine,
        &Vec::new(),
        &SuggestionFilters { risk_filter: None, category_filter: None, path_keyword: None, page: 1, size: 100 },
    );
    let err = result.expect_err("index not ready");
    assert_eq!(err.code, ErrorCode::IndexNotReady);
}

#[test]
fn protected_path_gets_windows_dir_rule() {
    let engine = engine_for("TestUser");
    let m = engine.match_path_info(r"C:\Windows\System32\drivers\etc\hosts").expect("matched");
    assert_eq!(m.id, "windows_dir");
    assert_eq!(m.risk, "danger");
    let m = engine.match_path_info(r"C:\Windows\Fonts\a.ttf").expect("matched");
    assert_eq!(m.id, "windows_dir");
}

#[test]
fn forward_slashes_are_normalized_before_matching() {
    let engine = engine_for("TestUser");
    let m = engine.match_path_info("C:/Users/TestUser/AppData/Local/Temp//x.log").expect("matched");
    assert_eq!(m.id, "user_temp");
    assert!(engine.match_path_info(r"D:\games\save.dat").is_none());
    assert!(engine.match_path(r"C:\Users\Other\AppData\Local\Temp\x").is_none());
    let def = engine.match_path(r"C:\Users\TestUser\Downloads\setup.exe").expect("matched");
    assert_eq!(def.id, "old_downloads");
    assert_eq!(def.min_age_days, 30);
}

#[test]
fn patterns_expand_user_and_separators() {
    assert_eq!(expand_pattern_exec(r"C:/Users/{user}/Temp/**", "Ann"), r"C:\Users\Ann\Temp\**");
    let v = expand_patterns(&vec!["{user}/{user}".to_string(), "x".to_string()], "B");
    assert_eq!(v, vec![r"B\B".to_string(), "x".to_string()]);
}

#[test]
fn bad_glob_is_an_internal_error() {
    let rules = RulesFile {
        cleanup_rules: vec![rule("bad", "other", "safe", &["C:\\[unclosed"], 0, &[])],
        danger_paths: vec![],
    };
    let e = RulesEngine::load(rules, "u").err().expect("refused");
    assert_eq!(e.code, ErrorCode::InternalError);
    assert_eq!(e.target.as_deref(), Some("rules"));
    assert!(e.message.starts_with("invalid glob pattern: "));
}

#[test]
fn rules_file_sits_below_rules_folder() {
    let p = rules_file_path("/app");
    assert!(p.starts_with("/app"));
    assert!(p.ends_with("builtin-rules.v1.json"));
    assert!(p.contains("rules"));
    assert!(p.len() == "/app/rules/builtin-rules.v1.json".len());
}

fn row(path: &str, is_dir: bool, size: u64, folder: u64, modified: Option<&str>) -> IndexRow {
    IndexRow {
        path: path.to_string(),
        is_dir,
        size_bytes: size,
        folder_size: folder,
        modified_at: modified.map(|m| m.to_string()),
    }
}

fn sample_rows() -> Vec<IndexRow> {
    vec![
        row(r"C:\Users\TestUser\AppData\Local\Temp\a.tmp", false, 100, 0, None),
        row(r"C:\Users\TestUser\AppData\Local\Temp\b.tmp", false, 300, 0, None),
        row(r"C:\Users\TestUser\AppData\Local\Temp\empty.tmp", false, 0, 0, None),
        row(r"C:\Windows\Temp\c.log", false, 200, 0, None),
        row(r"C:\Windows\Fonts\f.ttf", false, 5000, 0, None),
        row(r"C:\Users\TestUser\Downloads\old.zip", false, 700, 0, Some("2000-01-01T00:00:00Z")),
        row(r"C:\Users\TestUser\Downloads\new.zip", false, 900, 0, Some("2999-01-01T00:00:00Z")),
        row(r"C:\Users\TestUser\Downloads\unknown.zip", false, 900, 0, None),
        row(r"C:\Users\TestUser\AppData\Local\Temp\dir", true, 0, 50, None),
        row(r"D:\other\x.bin", false, 10_000, 0, None),
    ]
}

#[test]
fn suggestions_sorted_filtered_and_counted() {
    let engine = engine_for("TestUser");
    let rows = sample_rows();
    let r = get_suggestions(true, &engine, &rows, &no_filters()).expect("ready");
    let paths: Vec<&str> = r.items.iter().map(|s| s.path.as_str()).collect();
    assert_eq!(
        paths,
        vec![
            r"C:\Windows\Fonts\f.ttf",
            r"C:\Users\TestUser\Downloads\old.zip",
            r"C:\Users\TestUser\AppData\Local\Temp\b.tmp",
            r"C:\Windows\Temp\c.log",
            r"C:\Users\TestUser\AppData\Local\Temp\a.tmp",
            r"C:\Users\TestUser\AppData\Local\Temp\dir",
        ]
    );
    assert_eq!(r.total, 6);
    assert_eq!(r.releasable_bytes, 300 + 200 + 100 + 50);
    assert_eq!(r.items[1].risk, "caution");
    assert_eq!(r.items[1].rule_id, "old_downloads");
    assert_eq!(r.items[5].size_bytes, 50);
    assert!(r.items[5].is_dir);
}

#[test]
fn suggestions_pages_and_filters() {
    let engine = engine_for("TestUser");
    let rows = sample_rows();
    let page2 = get_suggestions(
        true,
        &engine,
        &rows,
        &SuggestionFilters { risk_filter: None, category_filter: None, path_keyword: None, page: 2, size: 4 },
    )
    .expect("ready");
    assert_eq!(page2.items.len(), 2);
    assert_eq!(page2.total, 6);
    assert_eq!(page2.items[0].path, r"C:\Users\TestUser\AppData\Local\Temp\a.tmp");

    let safe_temp = get_suggestions(
        true,
        &engine,
        &rows,
        &SuggestionFilters {
            risk_filter: Some("safe"),
            category_filter: Some("all"),
            path_keyword: Some("  WINDOWS "),
            page: 0,
            size: 0,
        },
    )
    .expect("ready");
    assert_eq!(safe_temp.total, 1);
    assert_eq!(safe_temp.items.len(), 1);
    assert_eq!(safe_temp.items[0].path, r"C:\Windows\Temp\c.log");
    assert_eq!(safe_temp.releasable_bytes, 200);

    let far = get_suggestions(
        true,
        &engine,
        &rows,
        &SuggestionFilters { risk_filter: None, category_filter: None, path_keyword: None, page: 9, size: 100 },
    )
    .expect("ready");
    assert!(far.items.is_empty());
    assert_eq!(far.total, 6);
}

#[test]
fn build_suggestions_with_given_rules_and_time() {
    let engine = engine_for("TestUser");
    let rows = vec![
        row(r"C:\Users\TestUser\Downloads\a.zip", false, 10, 0, Some("2024-01-01T00:00:00Z")),
        row(r"C:\Users\TestUser\Downloads\b.zip", false, 20, 0, Some("2024-01-20T00:00:00Z")),
    ];
    let now = (1_706_745_600i64, 0u32); // 2024-02-01T00:00:00Z
    let r = build_suggestions(&engine, &rows, &vec![Some(4), Some(4)], &no_filters(), now).expect("fits");
    assert_eq!(r.total, 1);
    assert_eq!(r.items[0].path, r"C:\Users\TestUser\Downloads\a.zip");
    assert_eq!(r.releasable_bytes, 0);
    let none = build_suggestions(&engine, &rows, &vec![None, None], &no_filters(), now).expect("fits");
    assert_eq!(none.total, 0);
}

#[test]
fn filter_matches_risk_category_and_keyword() {
    let engine = engine_for("TestUser");
    let rows = vec![row(r"C:\Windows\Temp\Report.LOG", false, 1, 0, None)];
    let r = get_suggestions(true, &engine, &rows, &no_filters()).expect("ready");
    let s = &r.items[0];
    let f = |risk, cat, kw| SuggestionFilters { risk_filter: risk, category_filter: cat, path_keyword: kw, page: 1, size: 1 };
    assert!(passes_filters(s, &f(Some("safe"), Some("cache_temp"), Some("report.log"))));
    assert!(!passes_filters(s, &f(Some("danger"), None, None)));
    assert!(!passes_filters(s, &f(None, Some("download"), None)));
    assert!(passes_filters(s, &f(Some("all"), Some("all"), Some("   "))));
    assert!(!passes_filters(s, &f(None, None, Some("missing"))));
}

#[test]
fn cleanup_plan_needs_confirmation_for_danger() {
    let engine = engine_for("TestUser");
    let paths = vec![r"C:\Windows\Fonts\f.ttf".to_string(), r"D:\x".to_string()];
    let e = plan_cleanup(&engine, &paths, None).err().expect("refused");
    assert_eq!(e.code, ErrorCode::DangerNotConfirmed);
    let e = plan_cleanup(&engine, &paths, Some("ok")).err().expect("refused");
    assert_eq!(e.code, ErrorCode::DangerNotConfirmed);
    let plan = plan_cleanup(&engine, &paths, Some("确认清理")).expect("confirmed");
    assert_eq!(plan.len(), 2);
    assert_eq!(plan[0].risk, "danger");
    assert_eq!(plan[0].rule_id.as_deref(), Some("windows_dir"));
    assert_eq!(plan[1].risk, "caution");
    assert_eq!(plan[1].rule_id, None);
    let safe = plan_cleanup(&engine, &vec![r"C:\Windows\Temp\a".to_string()], None).expect("no danger");
    assert_eq!(safe[0].rule_id.as_deref(), Some("win_temp"));
}

#[test]
fn cleanup_request_checks() {
    let items = vec![CleanupExecuteItem { path: "a".to_string() }, CleanupExecuteItem { path: "b".to_string() }];
    let paths = paths_from_items(&items);
    assert_eq!(paths, vec!["a".to_string(), "b".to_string()]);
    assert!(check_cleanup_request(&paths, "quarantine").is_ok());
    let e = check_cleanup_request(&vec![], "quarantine").expect_err("empty");
    assert_eq!(e.message, "请先勾选要清理的项");
    let e = check_cleanup_request(&paths, "recycle_bin").expect_err("target");
    assert_eq!(e.code, ErrorCode::BadArgument);
}

#[test]
fn cleanup_tally_summary() {
    let mut t = CleanupTally::new();
    assert!(t.summary().is_none());
    t.record_success(1024);
    t.record_success(1);
    let (text, result) = t.summary().expect("moved");
    assert_eq!(text, "移入隔离区 2 项，释放约 1025 字节");
    assert_eq!(result, "success");
    t.record_failure("p".to_string(), "busy".to_string());
    let (_, result) = t.summary().expect("moved");
    assert_eq!(result, "partial");
    let r = t.into_result();
    assert_eq!(r.success_count, 2);
    assert_eq!(r.failed.len(), 1);
    assert_eq!(r.failed[0].path, "p");
    assert_eq!(r.failed[0].reason, "busy");
}

#[test]
fn pages_together_list_each_suggestion_once() {
    let engine = engine_for("TestUser");
    let rows = sample_rows();
    let all = get_suggestions(true, &engine, &rows, &no_filters()).expect("ready");
    let mut paged = Vec::new();
    for page in 1..=4 {
        let r = get_suggestions(
            true,
            &engine,
            &rows,
            &SuggestionFilters { risk_filter: None, category_filter: None, path_keyword: None, page, size: 2 },
        )
        .expect("ready");
        assert_eq!(r.total, all.total);
        assert_eq!(r.releasable_bytes, all.releasable_bytes);
        paged.extend(r.items.into_iter().map(|s| s.path));
    }
    let whole: Vec<String> = all.items.into_iter().map(|s| s.path).collect();
    assert_eq!(paged, whole);
}
