use disk_helper::audit::{
    audit_detail, audit_list_sql, audit_paging, audit_query, check_clear_confirmed, export_extension,
    format_audit_txt, like_contains, related_path_of,
};
use disk_helper::commands::{quarantine_list_response, restore_failed_items};
use disk_helper::error::{err, AppError, ErrorCode};
use disk_helper::models::{AuditLogDto, QuarantineItemDto};
use disk_helper::quarantine::{
    check_purge_confirm, check_source_exists, count_purged, list_keyword_pattern, plan_quarantine,
    quarantine_plan_at, quarantine_root, restore_conflict, restore_report, RETENTION_DAYS,
};
use disk_helper::time::{age_ok_at, compute_status, quarantine_status_at};

#[test]
fn purge_requires_confirm_text() {
    let result = check_purge_confirm("wrong");
    assert!(result.is_err());
    assert_eq!(result.unwrap_err().code, ErrorCode::BadArgument);
    assert!(check_purge_confirm("永久删除").is_ok());
}

#[test]
fn restore_conflicts() {
    assert_eq!(restore_conflict(false, None).expect("free"), false);
    assert_eq!(restore_conflict(true, Some("overwrite")).expect("overwrite"), true);
    let e = restore_conflict(true, Some("alternate")).expect_err("alternate");
    assert_eq!(e.code, ErrorCode::QuarantineConflict);
    assert_eq!(e.message, "目标路径已存在，请指定备用路径");
    let e = restore_conflict(true, None).expect_err("conflict");
    assert_eq!(e.message, "目标路径已存在");
}

#[test]
fn quarantine_folder_and_plan() {
    assert_eq!(quarantine_root("/data"), "/data/quarantine");
    let p = quarantine_plan_at("/data", "abc-1", (1_706_745_600, 0)).expect("representable");
    assert_eq!(p.dir, "/data/quarantine/2024-02-01/abc-1");
    assert_eq!(p.payload_dir, "/data/quarantine/2024-02-01/abc-1/payload");
    assert_eq!(p.meta_path, "/data/quarantine/2024-02-01/abc-1/meta.json");
    assert_eq!(p.moved_at, "2024-02-01T00:00:00+00:00");
    assert_eq!(p.expires_at, "2024-03-02T00:00:00+00:00");
    assert_eq!(RETENTION_DAYS, 30);
    let (read_at, fresh) = plan_quarantine("/data");
    let fresh = fresh.expect("clock readable");
    assert!(read_at.0 > 1_706_745_600);
    assert_eq!(fresh.id.len(), 36);
    assert!(fresh.dir.ends_with(&fresh.id));
    assert_eq!(quarantine_status_at(&fresh.expires_at, (1_706_745_600, 0)), "active");
}

#[test]
fn source_must_exist() {
    assert!(check_source_exists(true, "C:\\a").is_ok());
    let e = check_source_exists(false, "C:\\a").expect_err("missing");
    assert_eq!(e.code, ErrorCode::NotFound);
    assert_eq!(e.message, "路径不存在: C:\\a");
}

#[test]
fn restore_and_purge_reports() {
    let outcomes: Vec<(String, Result<(), AppError>)> = vec![
        ("a".to_string(), Ok(())),
        ("b".to_string(), Err(err(ErrorCode::NotFound, "隔离项不存在: b"))),
        ("c".to_string(), Ok(())),
    ];
    let (restored, failed) = restore_report(outcomes);
    assert_eq!(restored, 2);
    assert_eq!(failed, vec![("b".to_string(), "隔离项不存在: b".to_string())]);
    let items = restore_failed_items(failed);
    assert_eq!(items.len(), 1);
    assert_eq!(items[0].id, "b");
    assert_eq!(items[0].reason, "隔离项不存在: b");
    assert_eq!(count_purged(&vec![true, false, true, true]), 3);
}

#[test]
fn list_keyword_and_response() {
    assert_eq!(list_keyword_pattern(None), None);
    assert_eq!(list_keyword_pattern(Some("  ")), None);
    assert_eq!(list_keyword_pattern(Some(" tmp_1 ")).as_deref(), Some(r"%tmp\_1%"));
    let item = QuarantineItemDto {
        id: "i".to_string(),
        original_path: "p".to_string(),
        quarantine_path: "q".to_string(),
        size_bytes: 1,
        moved_at: "m".to_string(),
        expires_at: "e".to_string(),
        status: "active".to_string(),
        risk: "safe".to_string(),
    };
    let r = quarantine_list_response(vec![item]);
    assert_eq!(r.total, 1);
    assert_eq!(r.items[0].id, "i");
}

#[test]
fn expiry_states() {
    let now = (1_706_745_600i64, 0u32); // 2024-02-01T00:00:00Z
    assert_eq!(quarantine_status_at("2024-01-31T00:00:00Z", now), "expired");
    assert_eq!(quarantine_status_at("2024-02-01T00:00:00Z", now), "expired");
    assert_eq!(quarantine_status_at("2024-02-03T00:00:00+00:00", now), "expiring");
    assert_eq!(quarantine_status_at("2024-02-04T00:00:00Z", now), "expiring");
    assert_eq!(quarantine_status_at("2024-02-04T00:00:01Z", now), "active");
    assert_eq!(quarantine_status_at("2024-02-04T08:00:00+08:00", now), "expiring");
    assert_eq!(quarantine_status_at("not a date", now), "active");
    assert_eq!(compute_status("1999-01-01T00:00:00Z"), "expired");
    assert_eq!(compute_status("2999-01-01T00:00:00Z"), "active");
}

#[test]
fn age_rule() {
    let now = (1_706_745_600i64, 0u32);
    assert!(age_ok_at(0, None, now));
    assert!(!age_ok_at(1, None, now));
    assert!(!age_ok_at(1, Some("garbage"), now));
    assert!(age_ok_at(30, Some("2024-01-02T00:00:00Z"), now));
    assert!(!age_ok_at(30, Some("2024-01-02T00:00:01Z"), now));
}

#[test]
fn audit_detail_round_trip() {
    let d = audit_detail(Some(r"C:\a\b.txt"), None).expect("detail");
    assert_eq!(d, r#"{"related_path":"C:\\a\\b.txt"}"#);
    assert_eq!(related_path_of(&Some(d)).as_deref(), Some(r"C:\a\b.txt"));
    assert_eq!(audit_detail(Some("x"), Some("{\"k\":1}".to_string())).as_deref(), Some("{\"k\":1}"));
    assert_eq!(audit_detail(None, None), None);
    assert_eq!(related_path_of(&Some("not json".to_string())), None);
    assert_eq!(related_path_of(&None), None);
}

#[test]
fn audit_queries_and_paging() {
    assert_eq!(like_contains("a%b_c"), r"%a\%b\_c%");
    let q = audit_query(Some("all"), Some("  disk "));
    assert_eq!(q.event_type, None);
    assert_eq!(q.keyword_pattern.as_deref(), Some("%disk%"));
    let (count, select) = audit_list_sql(&q);
    assert_eq!(count, "SELECT COUNT(*) FROM audit_log WHERE (summary LIKE ? ESCAPE '\\' OR detail_json LIKE ? ESCAPE '\\')");
    assert!(select.ends_with(" ORDER BY occurred_at DESC LIMIT ? OFFSET ?"));
    let q = audit_query(Some("cleanup"), None);
    assert_eq!(q.event_type.as_deref(), Some("cleanup"));
    assert_eq!(audit_list_sql(&q).0, "SELECT COUNT(*) FROM audit_log WHERE event_type = ?");
    assert_eq!(audit_paging(0, 0), (1, 0));
    assert_eq!(audit_paging(3, 1000), (500, 1000));
    assert_eq!(audit_paging(2, 100), (100, 100));
}

#[test]
fn audit_text_export() {
    let entry = |i: &str, r: &str| AuditLogDto {
        id: i.to_string(),
        occurred_at: format!("t{i}"),
        event_type: "cleanup".to_string(),
        summary: format!("s{i}"),
        result: r.to_string(),
        related_path: None,
    };
    let txt = format_audit_txt(&vec![entry("1", "success"), entry("2", "failed")]);
    assert_eq!(txt, "[t1] cleanup | success | s1\n[t2] cleanup | failed | s2");
    assert_eq!(format_audit_txt(&vec![]), "");
    assert_eq!(export_extension("txt"), "txt");
    assert_eq!(export_extension("json"), "json");
    assert_eq!(export_extension("csv"), "json");
    assert!(check_clear_confirmed(true).is_ok());
    assert_eq!(check_clear_confirmed(false).expect_err("no").code, ErrorCode::BadArgument);
}
