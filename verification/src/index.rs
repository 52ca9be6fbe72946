//! Queries over the scan index: readiness, the category breakdown, and the
//! patterns and orderings the listing queries use.

use vstd::prelude::*;
use crate::audit::like_contains_pattern;
use crate::error::{err_at, AppError, ErrorCode};
use crate::models::opt_string_view;
use crate::paths::{category_of, classify_path, normalize_scope, scope_prefix};
use crate::text::{chars_of, eq_chars, push_all, string_of, trim, trim_chars};

verus! {

/// The category codes, in the order the breakdown lists them.
pub open spec fn category_code(i: int) -> Seq<char> {
    if i == 0 {
        "system"@
    } else if i == 1 {
        "program"@
    } else if i == 2 {
        "user_doc"@
    } else if i == 3 {
        "cache_temp"@
    } else if i == 4 {
        "download"@
    } else {
        "other"@
    }
}

/// The code of category `i` (0 to 5).
pub fn category_code_of(i: usize) -> (c: &'static str)
    requires
        i < 6,
    ensures
        c@ == category_code(i as int),
{
    if i == 0 {
        "system"
    } else if i == 1 {
        "program"
    } else if i == 2 {
        "user_doc"
    } else if i == 3 {
        "cache_temp"
    } else if i == 4 {
        "download"
    } else {
        "other"
    }
}

/// The position in the breakdown of the category a path belongs to.
pub fn category_position(path: &str) -> (i: usize)
    ensures
        i < 6,
        category_code(i as int) == category_of(path@),
{
    let code = chars_of(classify_path(path));
    if eq_chars(&code, &chars_of("system")) {
        0
    } else if eq_chars(&code, &chars_of("program")) {
        1
    } else if eq_chars(&code, &chars_of("user_doc")) {
        2
    } else if eq_chars(&code, &chars_of("cache_temp")) {
        3
    } else if eq_chars(&code, &chars_of("download")) {
        4
    } else {
        5
    }
}

/// The bytes of the files among the first `n` whose category is `code`.
pub open spec fn category_sum(rows: Seq<(String, u64)>, code: Seq<char>, n: int) -> int
    decreases n,
{
    if n <= 0 {
        0
    } else {
        category_sum(rows, code, n - 1) + if category_of(rows[n - 1].0@) == code { rows[n - 1].1 as int } else { 0 }
    }
}

/// The bytes of the first `n` files.
pub open spec fn size_sum(rows: Seq<(String, u64)>, n: int) -> int
    decreases n,
{
    if n <= 0 { 0 } else { size_sum(rows, n - 1) + rows[n - 1].1 }
}

proof fn lemma_category_sum_bound(rows: Seq<(String, u64)>, code: Seq<char>, n: int)
    ensures
        0 <= category_sum(rows, code, n) <= size_sum(rows, n),
    decreases n,
{
    if n > 0 {
        lemma_category_sum_bound(rows, code, n - 1);
    }
}

proof fn lemma_size_sum_monotone(rows: Seq<(String, u64)>, m: int, n: int)
    requires
        m <= n,
    ensures
        size_sum(rows, m) <= size_sum(rows, n),
    decreases n - m,
{
    if m < n {
        lemma_size_sum_monotone(rows, m, n - 1);
    }
}

/// The bytes of the files `(path, size)` in each category, in breakdown order.
pub fn category_totals(rows: &Vec<(String, u64)>) -> (t: Vec<u64>)
    requires
        size_sum(rows@, rows.len() as int) <= u64::MAX,
    ensures
        t.len() == 6,
        forall|c: int| 0 <= c < 6 ==> #[trigger] t@[c] as int == category_sum(rows@, category_code(c), rows.len() as int),
{
    let mut t: Vec<u64> = Vec::new();
    for c in 0..6usize
        invariant
            t.len() == c,
            forall|j: int| 0 <= j < c ==> #[trigger] t@[j] == 0,
    {
        t.push(0);
    }
    for k in 0..rows.len()
        invariant
            t.len() == 6,
            size_sum(rows@, rows.len() as int) <= u64::MAX,
            forall|c: int| 0 <= c < 6 ==> #[trigger] t@[c] as int == category_sum(rows@, category_code(c), k as int),
    {
        let i = category_position(rows[k].0.as_str());
        proof {
            lemma_category_sum_bound(rows@, category_code(i as int), k + 1);
            lemma_size_sum_monotone(rows@, k + 1, rows.len() as int);
        }
        let v = t[i] + rows[k].1;
        t.set(i, v);
        assert forall|c: int| 0 <= c < 6 implies #[trigger] t@[c] as int == category_sum(rows@, category_code(c), k + 1) by {
            if c != i as int {
                if category_code(c) == category_code(i as int) {
                    reveal_strlit("system");
                    reveal_strlit("program");
                    reveal_strlit("user_doc");
                    reveal_strlit("cache_temp");
                    reveal_strlit("download");
                    reveal_strlit("other");
                    assert(category_code(c).len() != category_code(i as int).len()
                        || category_code(c)[0] != category_code(i as int)[0]
                        || category_code(c)[1] != category_code(i as int)[1]);
                }
            }
        }
    }
    t
}

/// The six category totals add up to the bytes of all files.
pub proof fn law_category_totals_partition(rows: Seq<(String, u64)>, n: int)
    ensures
        category_sum(rows, category_code(0), n) + category_sum(rows, category_code(1), n) + category_sum(
            rows,
            category_code(2),
            n,
        ) + category_sum(rows, category_code(3), n) + category_sum(rows, category_code(4), n) + category_sum(
            rows,
            category_code(5),
            n,
        ) == size_sum(rows, n),
    decreases n,
{
    if n > 0 {
        law_category_totals_partition(rows, n - 1);
        reveal_strlit("system");
        reveal_strlit("program");
        reveal_strlit("user_doc");
        reveal_strlit("cache_temp");
        reveal_strlit("download");
        reveal_strlit("other");
        let c = category_of(rows[n - 1].0@);
        assert(c == category_code(0) || c == category_code(1) || c == category_code(2) || c == category_code(3)
            || c == category_code(4) || c == category_code(5));
        assert forall|i: int, j: int| 0 <= i < j < 6 implies category_code(i) != category_code(j) by {
            assert(category_code(i).len() != category_code(j).len() || category_code(i)[0] != category_code(j)[0]
                || category_code(i)[1] != category_code(j)[1]);
        }
    }
}

/// The listing queries need a completed full scan.
pub fn ensure_index_ready(ready: bool, target: &str) -> (r: Result<(), AppError>)
    ensures
        ready <==> r is Ok,
        r matches Err(e) ==> e.code == ErrorCode::IndexNotReady && (e.target matches Some(t) && t@ == target@),
{
    if ready {
        Ok(())
    } else {
        Err(err_at(ErrorCode::IndexNotReady, "索引尚未就绪，请先完成一次全盘扫描", target))
    }
}

/// Clearing the index needs confirmation, and no scan may be running or paused.
pub fn index_clear_guard(confirmed: bool, scan_status: &str) -> (r: Result<(), AppError>)
    ensures
        !confirmed ==> (r matches Err(e) && e.code == ErrorCode::BadArgument && e.message@ == "需要确认后才能清空索引"@ && (e.target matches Some(t) && t@ == "index"@)),
        confirmed && (scan_status@ == "running"@ || scan_status@ == "paused"@) ==> (r matches Err(e) && e.code
            == ErrorCode::ScanAlreadyRunning && e.message@ == "扫描进行中，请完成或取消后再清空索引"@ && (e.target matches Some(t) && t@ == "index"@)),
        confirmed && scan_status@ != "running"@ && scan_status@ != "paused"@ ==> r is Ok,
{
    if !confirmed {
        return Err(err_at(ErrorCode::BadArgument, "需要确认后才能清空索引", "index"));
    }
    let s = chars_of(scan_status);
    if eq_chars(&s, &chars_of("running")) || eq_chars(&s, &chars_of("paused")) {
        return Err(err_at(ErrorCode::ScanAlreadyRunning, "扫描进行中，请完成或取消后再清空索引", "index"));
    }
    Ok(())
}

/// The ordering of a folder listing: folders first, then by name for the
/// `name` sort, by size (then name) for any other.
pub fn children_order_sql(sort: &str) -> (r: &'static str)
    ensures
        sort@ == "name"@ ==> r@ == "ORDER BY is_dir DESC, name COLLATE NOCASE ASC"@,
        sort@ != "name"@ ==> r@ == "ORDER BY is_dir DESC, folder_size DESC, name COLLATE NOCASE ASC"@,
{
    if eq_chars(&chars_of(sort), &chars_of("name")) {
        "ORDER BY is_dir DESC, name COLLATE NOCASE ASC"
    } else {
        "ORDER BY is_dir DESC, folder_size DESC, name COLLATE NOCASE ASC"
    }
}

/// The pattern a search uses, or `None` for a blank keyword (no results).
pub fn search_pattern(keyword: &str) -> (r: Option<String>)
    ensures
        trim(keyword@).len() == 0 ==> r is None,
        trim(keyword@).len() > 0 ==> opt_string_view(r) == Some(like_contains_pattern(trim(keyword@))),
{
    let t = trim_chars(&chars_of(keyword));
    if t.len() == 0 {
        return None;
    }
    let ts = string_of(&t);
    Some(crate::audit::like_contains(ts.as_str()))
}

/// The `LIKE` pattern for everything under a scope.
pub fn scope_like_pattern(scope_path: &str) -> (r: String)
    ensures
        r@ == scope_prefix(scope_path@) + "%"@,
{
    let scope = normalize_scope(scope_path);
    let mut v = chars_of(scope.as_str());
    push_all(&mut v, &chars_of("%"));
    string_of(&v)
}

} // verus!
