use disk_helper::error::ErrorCode;
use disk_helper::index::{
    category_code_of, category_position, category_totals, children_order_sql, ensure_index_ready,
    index_clear_guard, scope_like_pattern, search_pattern,
};
use disk_helper::paths::{classify_path, normalize_index_path, normalize_scope, normalize_windows_path};

#[test]
fn migration_collapses_doubled_separators() {
    assert_eq!(
        normalize_windows_path(r"C:\\Users\\AH\\AppData\\Local\\Temp\\foo.tmp"),
        r"C:\Users\AH\AppData\Local\Temp\foo.tmp"
    );
    assert_eq!(normalize_windows_path("C:/a//b///c"), r"C:\a\b\c");
    let once = normalize_windows_path(r"x\\\\/y");
    assert_eq!(normalize_windows_path(&once), once);
}

#[test]
fn classify_by_location() {
    assert_eq!(classify_path(r"C:\Windows"), "system");
    assert_eq!(classify_path("c:/windows/system32/x.dll"), "system");
    assert_eq!(classify_path(r"C:\Program Files (x86)\App\a.exe"), "program");
    assert_eq!(classify_path(r"C:\Users\A\Documents\a.docx"), "user_doc");
    assert_eq!(classify_path(r"C:\Users\A\AppData\Local\Temp\a"), "cache_temp");
    assert_eq!(classify_path(r"C:\Users\A\Downloads\a.zip"), "download");
    assert_eq!(classify_path(r"C:\Users\A\Desktop\a.txt"), "other");
    assert_eq!(classify_path(r"C:\Windowsold\a"), "other");
}

#[test]
fn index_paths_and_scopes() {
    assert_eq!(normalize_index_path("C:"), r"C:\");
    assert_eq!(normalize_index_path("C:/Users"), r"C:\Users");
    assert_eq!(normalize_scope(""), r"C:\");
    assert_eq!(normalize_scope("D:"), r"D:\");
    assert_eq!(normalize_scope(r"C:\Users"), r"C:\Users\");
    assert_eq!(scope_like_pattern("C:/Users/"), r"C:\Users\%");
}

#[test]
fn category_breakdown_sums_every_file() {
    let rows = vec![
        (r"C:\Windows\a".to_string(), 10u64),
        (r"C:\Users\x\Downloads\b".to_string(), 5),
        (r"C:\Windows\c".to_string(), 1),
        (r"E:\z".to_string(), 7),
    ];
    let t = category_totals(&rows);
    assert_eq!(t, vec![11, 0, 0, 0, 5, 7]);
    assert_eq!(t.iter().sum::<u64>(), 23);
    let codes: Vec<&str> = (0..6).map(category_code_of).collect();
    assert_eq!(codes, vec!["system", "program", "user_doc", "cache_temp", "download", "other"]);
    assert_eq!(category_position(r"C:\Users\x\Pictures\p.png"), 2);
}

#[test]
fn index_guards() {
    assert!(ensure_index_ready(true, "index").is_ok());
    let e = ensure_index_ready(false, "index").expect_err("not ready");
    assert_eq!(e.code, ErrorCode::IndexNotReady);
    assert_eq!(e.message, "索引尚未就绪，请先完成一次全盘扫描");
    let e = index_clear_guard(false, "idle").expect_err("unconfirmed");
    assert_eq!(e.code, ErrorCode::BadArgument);
    assert_eq!(e.message, "需要确认后才能清空索引");
    let e = index_clear_guard(true, "paused").expect_err("busy");
    assert_eq!(e.code, ErrorCode::ScanAlreadyRunning);
    assert!(index_clear_guard(true, "completed").is_ok());
}

#[test]
fn listing_order_and_search_pattern() {
    assert_eq!(children_order_sql("name"), "ORDER BY is_dir DESC, name COLLATE NOCASE ASC");
    assert_eq!(children_order_sql("size"), "ORDER BY is_dir DESC, folder_size DESC, name COLLATE NOCASE ASC");
    assert_eq!(search_pattern("  "), None);
    assert_eq!(search_pattern(" 50%_off ").as_deref(), Some(r"%50\%\_off%"));
}
