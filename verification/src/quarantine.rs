//! The quarantine: where removed items are kept, and the checks before an
//! item is restored or purged.

use vstd::prelude::*;
use crate::audit::{keyword_filter_spec, like_contains};
use crate::error::{err_at, AppError, ErrorCode};
use crate::models::opt_string_view;
use crate::paths::{joined_below, lemma_join_not_verbatim, not_verbatim, path_join, plain_part};
use crate::text::{chars_of, concat_chars, eq_chars, starts_with, string_of, trim_chars};
use crate::ids::{new_id, uuid_char};
use crate::time::{
    current_instant, date_char, format_rfc3339, format_utc_date, nanos_of, opt_view, rfc3339_text, utc_date_text,
    Instant,
};

verus! {

/// Days a quarantined item is kept before it expires.
pub const RETENTION_DAYS: i64 = 30;

/// The folder under the data folder that holds quarantined items.
pub fn quarantine_root(data_dir: &str) -> (r: String)
    ensures
        not_verbatim(data_dir@) ==> joined_below(data_dir@, "quarantine"@, r@) && not_verbatim(r@),
{
    proof {
        reveal_strlit("quarantine");
    }
    let r = path_join(data_dir, "quarantine");
    proof {
        if not_verbatim(data_dir@) {
            lemma_join_not_verbatim(data_dir@, "quarantine"@, r@);
        }
    }
    r
}

/// Purging needs the words 「永久删除」 typed exactly.
pub fn check_purge_confirm(confirm_text: &str) -> (r: Result<(), AppError>)
    ensures
        confirm_text@ == "永久删除"@ <==> r is Ok,
        r matches Err(e) ==> e.code == ErrorCode::BadArgument && e.message@ == "请输入「永久删除」以继续"@ && (e.target matches Some(t) && t@ == "quarantine"@),
{
    if !eq_chars(&chars_of(confirm_text), &chars_of("永久删除")) {
        return Err(err_at(ErrorCode::BadArgument, "请输入「永久删除」以继续", "quarantine"));
    }
    Ok(())
}

/// Whether restoring may go ahead when something already exists at the
/// original path: `Ok(true)` to overwrite it (strategy `overwrite`),
/// `Ok(false)` when nothing is in the way, and a conflict otherwise.
pub fn restore_conflict(target_exists: bool, conflict_strategy: Option<&str>) -> (r: Result<bool, AppError>)
    ensures
        !target_exists ==> r == Ok::<bool, AppError>(false),
        target_exists && opt_view(conflict_strategy) == Some("overwrite"@) ==> r == Ok::<bool, AppError>(true),
        target_exists && opt_view(conflict_strategy) != Some("overwrite"@) ==> (r matches Err(e)
            && e.code == ErrorCode::QuarantineConflict),
        target_exists && opt_view(conflict_strategy) == Some("alternate"@) ==> (r matches Err(e)
            && e.message@ == "目标路径已存在，请指定备用路径"@),
        target_exists && opt_view(conflict_strategy) != Some("overwrite"@) && opt_view(conflict_strategy) != Some(
            "alternate"@,
        ) ==> (r matches Err(e) && e.message@ == "目标路径已存在"@),
{
    proof {
        reveal_strlit("overwrite");
        reveal_strlit("alternate");
        assert("overwrite"@[0] != "alternate"@[0]);
    }
    if !target_exists {
        return Ok(false);
    }
    match conflict_strategy {
        Some(s) => {
            if eq_chars(&chars_of(s), &chars_of("overwrite")) {
                Ok(true)
            } else if eq_chars(&chars_of(s), &chars_of("alternate")) {
                Err(err_at(ErrorCode::QuarantineConflict, "目标路径已存在，请指定备用路径", "quarantine"))
            } else {
                Err(err_at(ErrorCode::QuarantineConflict, "目标路径已存在", "quarantine"))
            }
        },
        None => Err(err_at(ErrorCode::QuarantineConflict, "目标路径已存在", "quarantine")),
    }
}

/// The `LIKE` pattern for the quarantine list, or `None` to list everything.
pub fn list_keyword_pattern(keyword: Option<&str>) -> (r: Option<String>)
    ensures
        opt_string_view(r) == keyword_filter_spec(opt_view(keyword)),
{
    match keyword {
        Some(k) => {
            let t = trim_chars(&chars_of(k));
            if t.len() == 0 {
                None
            } else {
                let ts = string_of(&t);
                Some(like_contains(ts.as_str()))
            }
        },
        None => None,
    }
}


/// Seconds a quarantined item is kept.
pub open spec fn retention_secs() -> int {
    RETENTION_DAYS * 86_400
}

/// When an item quarantined at `t` expires: `RETENTION_DAYS` days later.
pub open spec fn expiry_of(t: Instant) -> (i64, u32) {
    ((t.0 + retention_secs()) as i64, t.1)
}

/// Quarantining needs the source to exist.
pub fn check_source_exists(exists: bool, original_path: &str) -> (r: Result<(), AppError>)
    ensures
        exists <==> r is Ok,
        r matches Err(e) ==> e.code == ErrorCode::NotFound && e.message@ == "路径不存在: "@ + original_path@
            && (e.target matches Some(t) && t@ == "quarantine"@),
{
    if !exists {
        let message = string_of(&concat_chars(&chars_of("路径不存在: "), &chars_of(original_path)));
        return Err(err_at(ErrorCode::NotFound, message.as_str(), "quarantine"));
    }
    Ok(())
}

/// Where a quarantined item is kept and when: its folder
/// `quarantine/<date>/<id>` under the data folder, the `payload` folder and
/// the `meta.json` file in it, and the move and expiry times.
#[derive(Debug)]
pub struct QuarantinePlan {
    pub id: String,
    pub dir: String,
    pub payload_dir: String,
    pub meta_path: String,
    pub moved_at: String,
    pub expires_at: String,
}

/// `p` is the plan for the item `id` moved at `t`: its identifier and its
/// move and expiry times.
pub open spec fn plan_timed(id: Seq<char>, t: Instant, p: QuarantinePlan) -> bool {
    &&& p.id@ == id
    &&& rfc3339_text(t) == Some(p.moved_at@)
    &&& rfc3339_text(expiry_of(t)) == Some(p.expires_at@)
}

/// `p`'s folders lie under `data_dir`: `quarantine/<date of t>/<id>`, and the
/// `payload` folder and `meta.json` file in it.
pub open spec fn plan_laid_out(data_dir: Seq<char>, id: Seq<char>, t: Instant, p: QuarantinePlan) -> bool {
    &&& exists|root: Seq<char>, day: Seq<char>| #![trigger joined_below(data_dir, "quarantine"@, root), joined_below(day, id, p.dir@)]
        joined_below(data_dir, "quarantine"@, root) && (utc_date_text(t) matches Some(date)
            && joined_below(root, date, day)) && joined_below(day, id, p.dir@)
    &&& joined_below(p.dir@, "payload"@, p.payload_dir@)
    &&& joined_below(p.dir@, "meta.json"@, p.meta_path@)
}

/// A date written by `chrono` is a plain path component.
proof fn lemma_date_plain(date: Seq<char>)
    requires
        date.len() > 0,
        forall|i: int| 0 <= i < date.len() ==> date_char(#[trigger] date[i]),
    ensures
        plain_part(date),
{
    assert forall|c: char| date.contains(c) implies date_char(c) by {
        let i = choose|i: int| 0 <= i < date.len() && date[i] == c;
        assert(date_char(date[i]));
    }
    assert(date[0] != '?') by {
        assert(date_char(date[0]));
    }
    assert(date != seq!['.']) by {
        assert(date.contains(date[0]));
    }
    assert(date != seq!['.', '.']) by {
        assert(date.contains(date[0]));
    }
}

/// The plan for the item `id` moved at `moved_at`; `None` when `chrono`
/// cannot write one of its times. Where the data folder does not start like
/// a verbatim prefix, the plan's folders lie under it.
pub fn quarantine_plan_at(data_dir: &str, id: &str, moved_at: Instant) -> (r: Option<QuarantinePlan>)
    requires
        plain_part(id@),
        moved_at.0 + retention_secs() <= i64::MAX,
    ensures
        r is Some <==> utc_date_text(moved_at) is Some && rfc3339_text(moved_at) is Some
            && rfc3339_text(expiry_of(moved_at)) is Some,
        r matches Some(p) ==> plan_timed(id@, moved_at, p)
            && (not_verbatim(data_dir@) ==> plan_laid_out(data_dir@, id@, moved_at, p)),
{
    proof {
        reveal_strlit("payload");
        reveal_strlit("meta.json");
    }
    let expires: Instant = (moved_at.0 + RETENTION_DAYS * 86_400, moved_at.1);
    let date = format_utc_date(moved_at);
    let moved_text = format_rfc3339(moved_at);
    let expires_text = format_rfc3339(expires);
    let (date, moved_text, expires_text) = match (date, moved_text, expires_text) {
        (Some(d), Some(m), Some(e)) => (d, m, e),
        _ => return None,
    };
    proof {
        lemma_date_plain(date@);
    }
    let root = quarantine_root(data_dir);
    let day = path_join(root.as_str(), date.as_str());
    let dir = path_join(day.as_str(), id);
    let payload_dir = path_join(dir.as_str(), "payload");
    let meta_path = path_join(dir.as_str(), "meta.json");
    let p = QuarantinePlan {
        id: id.to_owned(),
        dir,
        payload_dir,
        meta_path,
        moved_at: moved_text,
        expires_at: expires_text,
    };
    proof {
        if not_verbatim(data_dir@) {
            lemma_join_not_verbatim(root@, date@, day@);
            lemma_join_not_verbatim(day@, id@, p.dir@);
            assert(joined_below(day@, id@, p.dir@));
            assert(plan_laid_out(data_dir@, id@, moved_at, p));
        }
    }
    Some(p)
}

/// A move time for which no plan can be made: its expiry overflows, or
/// `chrono` cannot write it or its expiry.
pub open spec fn unwritable_time(t: Instant) -> bool {
    t.0 + retention_secs() > i64::MAX || utc_date_text(t) is None || rfc3339_text(t) is None
        || rfc3339_text(expiry_of(t)) is None
}

/// The plan for an item quarantined now, under a fresh identifier, with the
/// time that was read; no plan when that time cannot be written.
pub fn plan_quarantine(data_dir: &str) -> (r: (Instant, Option<QuarantinePlan>))
    ensures
        r.1 is None <==> unwritable_time(r.0),
        r.1 matches Some(p) ==> p.id@.len() == 36 && (forall|i: int| 0 <= i < 36 ==> uuid_char(#[trigger] p.id@[i]))
            && plan_timed(p.id@, r.0, p) && (not_verbatim(data_dir@) ==> plan_laid_out(data_dir@, p.id@, r.0, p)),
{
    let id = new_id();
    let now = current_instant();
    if now.0 > i64::MAX - RETENTION_DAYS * 86_400 {
        return (now, None);
    }
    proof {
        assert forall|c: char| id@.contains(c) implies uuid_char(c) by {
            let i = choose|i: int| 0 <= i < id@.len() && id@[i] == c;
            assert(uuid_char(id@[i]));
        }
        assert(!uuid_char('/') && !uuid_char('\\') && !uuid_char(':') && !uuid_char('?') && !uuid_char('.'));
        assert(uuid_char(id@[0]));
        assert(id@ != seq!['.']);
        assert(id@ != seq!['.', '.']);
    }
    let r = quarantine_plan_at(data_dir, id.as_str(), now);
    (now, r)
}

/// How many of several restores succeeded.
pub open spec fn restored_count(outcomes: Seq<(String, Result<(), AppError>)>, n: int) -> nat
    decreases n,
{
    if n <= 0 {
        0
    } else {
        restored_count(outcomes, n - 1) + if outcomes[n - 1].1 is Ok { 1nat } else { 0nat }
    }
}

/// The failed restores among the first `n`: each id with its error's message, in order.
pub open spec fn restore_failures(outcomes: Seq<(String, Result<(), AppError>)>, n: int) -> Seq<(Seq<char>, Seq<char>)>
    decreases n,
{
    if n <= 0 {
        Seq::empty()
    } else {
        let prev = restore_failures(outcomes, n - 1);
        match outcomes[n - 1].1 {
            Ok(_) => prev,
            Err(e) => prev.push((outcomes[n - 1].0@, e.message@)),
        }
    }
}

pub open spec fn pair_views(v: Seq<(String, String)>) -> Seq<(Seq<char>, Seq<char>)> {
    v.map_values(|p: (String, String)| (p.0@, p.1@))
}

/// The report of restoring items one by one: how many were restored, and
/// the id and error message of each that was not, in order.
pub fn restore_report(outcomes: Vec<(String, Result<(), AppError>)>) -> (r: (u32, Vec<(String, String)>))
    requires
        outcomes.len() <= u32::MAX,
    ensures
        r.0 == restored_count(outcomes@, outcomes.len() as int),
        pair_views(r.1@) == restore_failures(outcomes@, outcomes.len() as int),
{
    let mut restored: u32 = 0;
    let mut failed: Vec<(String, String)> = Vec::new();
    let mut i: usize = 0;
    while i < outcomes.len()
        invariant
            i <= outcomes.len(),
            outcomes.len() <= u32::MAX,
            restored == restored_count(outcomes@, i as int),
            restored <= i,
            pair_views(failed@) == restore_failures(outcomes@, i as int),
        decreases outcomes.len() - i,
    {
        let entry = &outcomes[i];
        match &entry.1 {
            Ok(_) => {
                restored = restored + 1;
            },
            Err(e) => {
                let ghost before = failed@;
                failed.push((entry.0.clone(), e.message.clone()));
                assert(pair_views(failed@) =~= pair_views(before).push((entry.0@, e.message@)));
            },
        }
        i = i + 1;
    }
    (restored, failed)
}

/// Every restore is reported once: as restored, or among the failures.
pub proof fn law_restore_report_accounts_for_all(outcomes: Seq<(String, Result<(), AppError>)>, n: int)
    requires
        0 <= n <= outcomes.len(),
    ensures
        restored_count(outcomes, n) + restore_failures(outcomes, n).len() == n,
    decreases n,
{
    if n > 0 {
        law_restore_report_accounts_for_all(outcomes, n - 1);
    }
}

/// How many of the first `n` purges succeeded.
pub open spec fn purged_count(outcomes: Seq<bool>, n: int) -> nat
    decreases n,
{
    if n <= 0 { 0 } else { purged_count(outcomes, n - 1) + if outcomes[n - 1] { 1nat } else { 0nat } }
}

/// How many of several purges succeeded.
pub fn count_purged(outcomes: &Vec<bool>) -> (n: u32)
    requires
        outcomes.len() <= u32::MAX,
    ensures
        n == purged_count(outcomes@, outcomes.len() as int),
{
    let mut n: u32 = 0;
    let mut i: usize = 0;
    while i < outcomes.len()
        invariant
            i <= outcomes.len(),
            outcomes.len() <= u32::MAX,
            n == purged_count(outcomes@, i as int),
            n <= i,
        decreases outcomes.len() - i,
    {
        if outcomes[i] {
            n = n + 1;
        }
        i = i + 1;
    }
    n
}

/// The text of an item's `meta.json`: the object with the keys `id`,
/// `original_path`, `size_bytes`, `moved_at`, `expires_at`, `risk` and
/// `rule_id`, as `serde_json::to_string_pretty` writes it; `None` when
/// writing fails.
pub uninterp spec fn quarantine_meta_text(
    id: Seq<char>,
    original_path: Seq<char>,
    size_bytes: u64,
    moved_at: Seq<char>,
    expires_at: Seq<char>,
    risk: Seq<char>,
    rule_id: Option<Seq<char>>,
) -> Option<Seq<char>>;

/// A `serde_json::Value` object of the fields, written with
/// `serde_json::to_string_pretty`. Claimed: the text is
/// `quarantine_meta_text` of the fields, and an error exactly when that is
/// `None` (what the error's text says is left unstated).
#[verifier::external_body]
fn write_meta_json(
    id: &str,
    original_path: &str,
    size_bytes: u64,
    moved_at: &str,
    expires_at: &str,
    risk: &str,
    rule_id: Option<&str>,
) -> (r: Result<String, String>)
    ensures
        match r {
            Ok(t) => quarantine_meta_text(id@, original_path@, size_bytes, moved_at@, expires_at@, risk@,
                opt_view(rule_id)) == Some(t@),
            Err(_) => quarantine_meta_text(id@, original_path@, size_bytes, moved_at@, expires_at@, risk@,
                opt_view(rule_id)) is None,
        },
{
    let mut m = serde_json::Map::new();
    m.insert("id".to_owned(), id.into());
    m.insert("original_path".to_owned(), original_path.into());
    m.insert("size_bytes".to_owned(), size_bytes.into());
    m.insert("moved_at".to_owned(), moved_at.into());
    m.insert("expires_at".to_owned(), expires_at.into());
    m.insert("risk".to_owned(), risk.into());
    m.insert("rule_id".to_owned(), rule_id.into());
    match serde_json::to_string_pretty(&serde_json::Value::Object(m)) {
        Ok(t) => Ok(t),
        Err(e) => Err(e.to_string()),
    }
}

/// The `meta.json` written beside a quarantined item: its id, where it came
/// from, its size, when it was moved and expires, its risk and rule.
pub fn quarantine_meta(
    plan: &QuarantinePlan,
    original_path: &str,
    size_bytes: u64,
    risk: &str,
    rule_id: Option<&str>,
) -> (r: Result<String, AppError>)
    ensures
        match quarantine_meta_text(plan.id@, original_path@, size_bytes, plan.moved_at@, plan.expires_at@, risk@,
            opt_view(rule_id)) {
            Some(t) => r matches Ok(x) && x@ == t,
            None => r matches Err(e) && e.code == ErrorCode::InternalError && (e.target matches Some(t) && t@
                == "quarantine"@) && starts_with(e.message@, "json error: "@),
        },
{
    match write_meta_json(
        plan.id.as_str(),
        original_path,
        size_bytes,
        plan.moved_at.as_str(),
        plan.expires_at.as_str(),
        risk,
        rule_id,
    ) {
        Ok(t) => Ok(t),
        Err(e) => {
            let prefix = chars_of("json error: ");
            let text = string_of(&concat_chars(&prefix, &chars_of(e.as_str())));
            proof {
                assert(text@.subrange(0, prefix@.len() as int) =~= prefix@);
            }
            Err(err_at(ErrorCode::InternalError, text.as_str(), "quarantine"))
        },
    }
}

/// A quarantined item expires thirty days after it was moved, to the
/// nanosecond.
pub proof fn law_expiry_thirty_days_later(t: Instant)
    requires
        t.0 + 30 * 86_400 <= i64::MAX,
    ensures
        nanos_of(expiry_of(t)) == nanos_of(t) + 30 * 86_400 * 1_000_000_000,
{
}

} // verus!
