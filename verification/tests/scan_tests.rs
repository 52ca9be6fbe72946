use std::collections::BTreeMap;
use disk_helper::commands::{parse_scan_kind, scan_status_response, ScanKind};
use disk_helper::error::ErrorCode;
use disk_helper::paths::depth_from_root;
use disk_helper::scan::{
    collect_shallow_dirs, diff_children, progress_percent, run_incremental_scan_worker, ChildAction, DbChild,
    FsChild, IncrementalAction, IncrementalEvent, IncrementalScan, ScanSession, ScanSnapshot, ScanTally,
    WalkAction, WalkEvent, BATCH_SIZE,
};

#[test]
fn progress_values() {
    assert_eq!(progress_percent(0), 0);
    assert_eq!(progress_percent(50), 0);
    assert_eq!(progress_percent(51), 1);
    assert_eq!(progress_percent(5_000), 50);
    assert_eq!(progress_percent(9_900), 98);
    assert_eq!(progress_percent(1_000_000), 98);
    for n in [1u64, 77, 1234, 4999, 5001, 9899] {
        let expected = ((n.min(9_900) as f64 / 10_000.0) * 99.0).round() as u32;
        assert_eq!(progress_percent(n), expected, "n = {n}");
    }
}

#[test]
fn snapshot_starts_idle() {
    let s = ScanSnapshot::default();
    assert_eq!(s.status, "idle");
    assert_eq!(s.progress_percent, 0);
    assert!(s.scan_run_id.is_none() && s.last_completed_at.is_none());
}

#[test]
fn snapshot_records_run_progress_and_finish() {
    let mut s = ScanSnapshot::default();
    s.start_run("run-1");
    assert_eq!(s.status, "running");
    assert_eq!(s.scan_run_id.as_deref(), Some("run-1"));
    s.record_progress(5_000, 3);
    assert_eq!(s.progress_percent, 50);
    assert_eq!(s.skipped_files, 3);
    s.record_finish("cancelled", 6_000, 4, "2024-01-01T00:00:00+00:00");
    assert_eq!(s.progress_percent, 50);
    assert!(s.last_completed_at.is_none());
    s.record_finish("completed", 7_000, 4, "2024-01-02T00:00:00+00:00");
    assert_eq!(s.progress_percent, 100);
    assert_eq!(s.last_completed_at.as_deref(), Some("2024-01-02T00:00:00+00:00"));
    assert_eq!(s.status, "completed");
}

#[test]
fn session_claims_and_refusals() {
    let mut s = ScanSession::new();
    let e = s.pause().expect_err("idle");
    assert_eq!(e.code, ErrorCode::BadArgument);
    assert_eq!(e.message, "当前没有进行中的扫描");
    assert!(s.resume().is_err() && s.cancel().is_err());

    let e = s.claim_incremental(false).expect_err("no index");
    assert_eq!(e.code, ErrorCode::IndexNotReady);
    assert!(!s.running);

    s.claim_full().expect("free");
    let e = s.claim_full().expect_err("busy");
    assert_eq!(e.code, ErrorCode::ScanAlreadyRunning);
    let e = s.claim_incremental(true).expect_err("busy");
    assert_eq!(e.code, ErrorCode::ScanAlreadyRunning);
    s.begin_run("r1");
    assert_eq!(s.snapshot().status, "running");
    s.release();
    assert!(!s.running);
    s.claim_incremental(true).expect("free again");
}

#[test]
fn session_pause_resume_cancel() {
    let mut s = ScanSession::new();
    s.claim_full().expect("free");
    s.begin_run("r1");
    let e = s.resume().expect_err("not paused");
    assert_eq!(e.message, "当前扫描未处于暂停状态");
    assert_eq!(s.pause().expect("running"), "paused");
    assert!(s.should_wait());
    assert_eq!(s.snapshot().status, "paused");
    assert_eq!(s.resume().expect("paused"), "running");
    assert!(!s.should_wait());
    assert_eq!(s.snapshot().status, "running");
    s.pause().expect("running");
    assert_eq!(s.cancel().expect("running"), "cancelled");
    assert!(!s.should_wait());
    assert!(s.cancel && !s.pause);
}

#[test]
fn tally_counts_and_flushes() {
    let mut t = ScanTally::new();
    assert_eq!(t.step(WalkEvent::RootDir), WalkAction::Ignore);
    assert_eq!(t.step(WalkEvent::Entry { is_dir: true }), WalkAction::Buffer { flush: false });
    assert_eq!(t.step(WalkEvent::MetadataError), WalkAction::RecordSkip);
    assert_eq!(t.step(WalkEvent::WalkError), WalkAction::RecordSkip);
    assert_eq!(t.scanned_files, 0);
    assert_eq!(t.skipped_files, 2);
    assert!(t.needs_final_flush());
    let mut flushes = 0;
    for _ in 0..(BATCH_SIZE * 2) {
        if t.step(WalkEvent::Entry { is_dir: false }) == (WalkAction::Buffer { flush: true }) {
            flushes += 1;
        }
    }
    assert_eq!(flushes, 2);
    assert_eq!(t.scanned_files, (BATCH_SIZE * 2) as u64);
    assert_eq!(t.batch_len, 1);
}

#[test]
fn shallow_dirs_are_root_then_one_or_two_levels() {
    let dirs = vec![
        r"C:\a".to_string(),
        r"C:\a\b".to_string(),
        r"C:\a\b\c".to_string(),
        r"C:\a".to_string(),
        r"D:\x".to_string(),
        r"C:\".to_string(),
    ];
    let r = collect_shallow_dirs(r"C:\", &dirs);
    assert_eq!(r, vec![r"C:\".to_string(), r"C:\a".to_string(), r"C:\a\b".to_string()]);
}

#[test]
fn depth_counts_segments_below_root() {
    assert_eq!(depth_from_root(r"C:\a\b", r"C:\"), 2);
    assert_eq!(depth_from_root("C:/a//b/", r"C:\"), 2);
    assert_eq!(depth_from_root(r"C:\", r"C:\"), 0);
    assert_eq!(depth_from_root(r"D:\a", r"C:\"), usize::MAX);
}

fn fs(path: &str, is_dir: bool, size: u64, m: Option<&str>) -> FsChild {
    FsChild { path: path.to_string(), is_dir, size_bytes: size, modified_at: m.map(|s| s.to_string()) }
}

fn db(path: &str, is_dir: bool, size: u64, m: Option<&str>) -> DbChild {
    DbChild { path: path.to_string(), is_dir, size_bytes: size, modified_at: m.map(|s| s.to_string()) }
}

#[test]
fn diff_finds_new_changed_replaced_and_stale() {
    let on_disk = vec![
        fs("new.txt", false, 1, None),
        fs("newdir", true, 0, None),
        fs("same.txt", false, 5, Some("t1")),
        fs("bigger.txt", false, 9, Some("t1")),
        fs("touched.txt", false, 5, Some("t2")),
        fs("was_dir", false, 3, None),
        fs("was_file", true, 0, None),
        fs("dir", true, 0, None),
    ];
    let indexed = vec![
        db("same.txt", false, 5, Some("t1")),
        db("bigger.txt", false, 5, Some("t1")),
        db("touched.txt", false, 5, Some("t1")),
        db("was_dir", true, 0, None),
        db("was_file", false, 3, None),
        db("dir", true, 0, None),
        db("gone.txt", false, 1, None),
    ];
    let d = diff_children(&on_disk, &indexed);
    assert_eq!(
        d.actions,
        vec![
            ChildAction::Upsert,
            ChildAction::Rewalk,
            ChildAction::Unchanged,
            ChildAction::Upsert,
            ChildAction::Upsert,
            ChildAction::ReplaceWithFile,
            ChildAction::ReplaceWithDir,
            ChildAction::Unchanged,
        ]
    );
    assert_eq!(d.stale, vec!["gone.txt".to_string()]);
}

#[test]
fn incremental_worker_tallies_and_queues_folders() {
    let mut state = IncrementalScan::new();
    assert_eq!(run_incremental_scan_worker(&mut state, IncrementalEvent::DirUnreadable), IncrementalAction::RecordSkip);
    let children = vec![fs("a", false, 1, None), fs("d", true, 0, None), fs("e", true, 0, None)];
    let diff = diff_children(&children, &vec![db("e", false, 2, None)]);
    let a = run_incremental_scan_worker(&mut state, IncrementalEvent::DirCompared { children, diff });
    assert_eq!(a, IncrementalAction::ApplyDiff { flush: false });
    assert_eq!(state.tally.scanned_files, 1);
    assert_eq!(state.tally.skipped_files, 1);
    assert_eq!(state.tally.batch_len, 1);
    assert_eq!(state.rewalk_roots, vec!["d".to_string(), "e".to_string()]);

    let again = vec![fs("d", true, 0, None)];
    let diff = diff_children(&again, &vec![]);
    run_incremental_scan_worker(&mut state, IncrementalEvent::DirCompared { children: again, diff });
    assert_eq!(state.rewalk_roots.len(), 2);

    let many: Vec<FsChild> = (0..BATCH_SIZE).map(|i| fs(&format!("f{i}"), false, 1, None)).collect();
    let diff = diff_children(&many, &vec![]);
    let a = run_incremental_scan_worker(&mut state, IncrementalEvent::DirCompared { children: many, diff });
    assert_eq!(a, IncrementalAction::ApplyDiff { flush: true });
    assert_eq!(state.tally.batch_len, 0);
    assert_eq!(state.tally.scanned_files, 1 + BATCH_SIZE as u64);

    let a = run_incremental_scan_worker(&mut state, IncrementalEvent::Walked(WalkEvent::Entry { is_dir: false }));
    assert_eq!(a, IncrementalAction::Walk(WalkAction::Buffer { flush: false }));
    assert_eq!(state.tally.scanned_files, 2 + BATCH_SIZE as u64);
}

#[test]
fn scan_kind_names() {
    assert_eq!(parse_scan_kind("full").expect("full"), ScanKind::Full);
    assert_eq!(parse_scan_kind("incremental").expect("inc"), ScanKind::Incremental);
    let e = parse_scan_kind("quick").expect_err("unknown");
    assert_eq!(e.code, ErrorCode::BadArgument);
    assert_eq!(e.message, "scan type 必须为 full 或 incremental");
    assert_eq!(e.target.as_deref(), Some("scan"));
}

#[test]
fn status_prefers_recorded_completion() {
    let mut snap = ScanSnapshot::default();
    snap.record_finish("completed", 3, 1, "snap-time");
    let r = scan_status_response(&snap, Some("db-time".to_string()));
    assert_eq!(r.last_completed_at.as_deref(), Some("db-time"));
    assert_eq!(r.status, "completed");
    assert_eq!(r.progress_percent, 100);
    let r = scan_status_response(&snap, None);
    assert_eq!(r.last_completed_at.as_deref(), Some("snap-time"));
    assert_eq!((r.scanned_files, r.skipped_files), (3, 1));
}

#[test]
fn applying_a_diff_matches_the_disk() {
    let on_disk = vec![
        fs("a.txt", false, 1, Some("t1")),
        fs("b.txt", false, 7, Some("t2")),
        fs("keep", true, 0, None),
        fs("new", true, 0, None),
        fs("swap", false, 4, None),
    ];
    let indexed = vec![
        db("b.txt", false, 5, Some("t1")),
        db("keep", true, 0, None),
        db("swap", true, 0, None),
        db("gone", false, 3, None),
    ];
    let d = diff_children(&on_disk, &indexed);
    let mut index: BTreeMap<String, (bool, u64, Option<String>)> =
        indexed.iter().map(|c| (c.path.clone(), (c.is_dir, c.size_bytes, c.modified_at.clone()))).collect();
    for (child, action) in on_disk.iter().zip(d.actions.iter()) {
        if matches!(action, ChildAction::ReplaceWithFile | ChildAction::ReplaceWithDir) {
            index.remove(&child.path);
        }
    }
    for path in &d.stale {
        index.remove(path);
    }
    let mut rewalk = Vec::new();
    for (child, action) in on_disk.iter().zip(d.actions.iter()) {
        match action {
            ChildAction::Upsert | ChildAction::ReplaceWithFile => {
                index.insert(child.path.clone(), (false, child.size_bytes, child.modified_at.clone()));
            }
            ChildAction::Rewalk | ChildAction::ReplaceWithDir => rewalk.push(child.path.clone()),
            ChildAction::Unchanged => {}
        }
    }
    assert_eq!(index.get("a.txt"), Some(&(false, 1, Some("t1".to_string()))));
    assert_eq!(index.get("b.txt"), Some(&(false, 7, Some("t2".to_string()))));
    assert_eq!(index.get("swap"), Some(&(false, 4, None)));
    assert_eq!(index.get("keep"), Some(&(true, 0, None)));
    assert!(!index.contains_key("gone"));
    assert!(!index.contains_key("new"));
    assert_eq!(rewalk, vec!["new".to_string()]);
}

#[test]
fn progress_never_goes_down() {
    let mut last = 0;
    for n in (0..12_000u64).step_by(37) {
        let p = progress_percent(n);
        assert!(p >= last && p <= 99);
        last = p;
    }
}
