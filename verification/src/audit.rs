//! The audit log: what a new entry records, how the list is queried and
//! paged, and how it is exported as text.

use vstd::prelude::*;
use crate::error::{err_at, AppError, ErrorCode};
use crate::models::{opt_string_view, AuditLogDto};
use crate::text::{
    chars_of, eq_chars, lemma_replace_all_absent, push_all, replace_all, replace_chars, string_of, trim, trim_chars,
};
use crate::time::opt_view;

verus! {

/// The JSON text `{"related_path": path}` as `serde_json` writes it.
pub uninterp spec fn related_path_json(path: Seq<char>) -> Seq<char>;

/// The string under the key `related_path` of a JSON object, as `serde_json`
/// reads it; `None` for text that is not such an object.
pub uninterp spec fn json_related_path(json: Seq<char>) -> Option<Seq<char>>;

/// `serde_json::Value::Object` holding `related_path: path`, written with
/// `to_string`. Claimed: the text is `related_path_json(path)`, and reading
/// it back gives `path` again.
#[verifier::external_body]
fn encode_related_path(path: &str) -> (r: String)
    ensures
        r@ == related_path_json(path@),
        json_related_path(r@) == Some(path@),
{
    let mut map = serde_json::Map::new();
    map.insert("related_path".to_owned(), serde_json::Value::String(path.to_owned()));
    serde_json::Value::Object(map).to_string()
}

/// `serde_json::from_str` into a `Value`, then `get("related_path")` and
/// `as_str`. Claimed: the result is `json_related_path(json)`.
#[verifier::external_body]
fn decode_related_path(json: &str) -> (r: Option<String>)
    ensures
        opt_string_view(r) == json_related_path(json@),
{
    let value: serde_json::Value = match serde_json::from_str(json) {
        Ok(v) => v,
        Err(_) => return None,
    };
    match value.get("related_path") {
        Some(p) => match p.as_str() {
            Some(s) => Some(s.to_owned()),
            None => None,
        },
        None => None,
    }
}

/// The detail stored with a new entry: the detail given, or else a JSON
/// object naming the related path, or else nothing.
pub open spec fn audit_detail_spec(related_path: Option<Seq<char>>, detail_json: Option<Seq<char>>) -> Option<Seq<char>> {
    match detail_json {
        Some(d) => Some(d),
        None => match related_path {
            Some(p) => Some(related_path_json(p)),
            None => None,
        },
    }
}

pub fn audit_detail(related_path: Option<&str>, detail_json: Option<String>) -> (r: Option<String>)
    ensures
        opt_string_view(r) == audit_detail_spec(opt_view(related_path), opt_string_view(detail_json)),
        detail_json is None && related_path is Some ==> (r matches Some(d)
            && json_related_path(d@) == opt_view(related_path)),
{
    match detail_json {
        Some(d) => Some(d),
        None => match related_path {
            Some(p) => Some(encode_related_path(p)),
            None => None,
        },
    }
}

/// The related path that an entry's detail names, if it names one.
pub fn related_path_of(detail_json: &Option<String>) -> (r: Option<String>)
    ensures
        opt_string_view(r) == match *detail_json {
            Some(d) => json_related_path(d@),
            None => None,
        },
{
    match detail_json {
        Some(d) => decode_related_path(d.as_str()),
        None => None,
    }
}

/// A `LIKE` pattern matching any text that contains `keyword`, with `%` and
/// `_` in the keyword escaped by `\`.
pub open spec fn like_contains_pattern(keyword: Seq<char>) -> Seq<char> {
    "%"@ + replace_all(replace_all(keyword, "%"@, "\\%"@), "_"@, "\\_"@) + "%"@
}

pub fn like_contains(keyword: &str) -> (r: String)
    ensures
        r@ == like_contains_pattern(keyword@),
{
    proof {
        reveal_strlit("%");
        reveal_strlit("_");
    }
    let escaped_percent = replace_chars(&chars_of(keyword), &chars_of("%"), &chars_of("\\%"));
    let escaped = replace_chars(&escaped_percent, &chars_of("_"), &chars_of("\\_"));
    let mut out = chars_of("%");
    push_all(&mut out, &escaped);
    push_all(&mut out, &chars_of("%"));
    string_of(&out)
}

/// The conditions of an audit list query: an event type (unless none, empty
/// or `all`) and a keyword pattern (unless none or blank).
#[derive(Debug)]
pub struct AuditQuery {
    pub event_type: Option<String>,
    pub keyword_pattern: Option<String>,
}

pub open spec fn event_filter_spec(event_type: Option<Seq<char>>) -> Option<Seq<char>> {
    match event_type {
        Some(e) => if e.len() == 0 || e == "all"@ { None } else { Some(e) },
        None => None,
    }
}

pub open spec fn keyword_filter_spec(keyword: Option<Seq<char>>) -> Option<Seq<char>> {
    match keyword {
        Some(k) => if trim(k).len() == 0 { None } else { Some(like_contains_pattern(trim(k))) },
        None => None,
    }
}

pub fn audit_query(event_type: Option<&str>, keyword: Option<&str>) -> (q: AuditQuery)
    ensures
        opt_string_view(q.event_type) == event_filter_spec(opt_view(event_type)),
        opt_string_view(q.keyword_pattern) == keyword_filter_spec(opt_view(keyword)),
{
    let event = match event_type {
        Some(e) => {
            if e.is_empty() || eq_chars(&chars_of(e), &chars_of("all")) {
                None
            } else {
                Some(e.to_owned())
            }
        },
        None => None,
    };
    let pattern = match keyword {
        Some(k) => {
            let t = trim_chars(&chars_of(k));
            if t.len() == 0 {
                None
            } else {
                let ts = string_of(&t);
                Some(like_contains(ts.as_str()))
            }
        },
        None => None,
    };
    AuditQuery { event_type: event, keyword_pattern: pattern }
}

/// The SQL of an audit list query: the count query and the page query, with
/// a `WHERE` clause for each condition present and `LIMIT`/`OFFSET` last.
pub fn audit_list_sql(q: &AuditQuery) -> (r: (String, String))
    ensures
        ({
            let cond = if q.event_type is Some && q.keyword_pattern is Some {
                " WHERE event_type = ? AND (summary LIKE ? ESCAPE '\\' OR detail_json LIKE ? ESCAPE '\\')"@
            } else if q.event_type is Some {
                " WHERE event_type = ?"@
            } else if q.keyword_pattern is Some {
                " WHERE (summary LIKE ? ESCAPE '\\' OR detail_json LIKE ? ESCAPE '\\')"@
            } else {
                ""@
            };
            &&& r.0@ == "SELECT COUNT(*) FROM audit_log"@ + cond
            &&& r.1@ == "SELECT id, occurred_at, event_type, summary, result, detail_json FROM audit_log"@ + cond
                + " ORDER BY occurred_at DESC LIMIT ? OFFSET ?"@
        }),
{
    let cond = if q.event_type.is_some() && q.keyword_pattern.is_some() {
        " WHERE event_type = ? AND (summary LIKE ? ESCAPE '\\' OR detail_json LIKE ? ESCAPE '\\')"
    } else if q.event_type.is_some() {
        " WHERE event_type = ?"
    } else if q.keyword_pattern.is_some() {
        " WHERE (summary LIKE ? ESCAPE '\\' OR detail_json LIKE ? ESCAPE '\\')"
    } else {
        ""
    };
    let mut count = chars_of("SELECT COUNT(*) FROM audit_log");
    push_all(&mut count, &chars_of(cond));
    let mut select = chars_of("SELECT id, occurred_at, event_type, summary, result, detail_json FROM audit_log");
    push_all(&mut select, &chars_of(cond));
    push_all(&mut select, &chars_of(" ORDER BY occurred_at DESC LIMIT ? OFFSET ?"));
    (string_of(&count), string_of(&select))
}

/// The page size used: between 1 and 500.
pub open spec fn audit_page_size(size: u32) -> int {
    if size < 1 { 1 } else if size > 500 { 500 } else { size as int }
}

/// The first row of the page (pages start at 1; page 0 counts as 1).
pub open spec fn audit_offset(page: u32, size: u32) -> int {
    ((if page < 1 { 1 } else { page as int }) - 1) * audit_page_size(size)
}

/// The `LIMIT` and `OFFSET` of an audit page.
pub fn audit_paging(page: u32, size: u32) -> (r: (u32, u32))
    requires
        audit_offset(page, size) <= u32::MAX,
    ensures
        r.0 as int == audit_page_size(size),
        r.1 as int == audit_offset(page, size),
{
    let page: u32 = if page < 1 { 1 } else { page };
    let size: u32 = if size < 1 { 1 } else if size > 500 { 500 } else { size };
    (size, (page - 1) * size)
}

/// One exported line: `[occurred_at] event_type | result | summary`.
pub open spec fn audit_line(item: AuditLogDto) -> Seq<char> {
    "["@ + item.occurred_at@ + "] "@ + item.event_type@ + " | "@ + item.result@ + " | "@ + item.summary@
}

/// The lines of the first `n` entries joined by newlines.
pub open spec fn audit_text(items: Seq<AuditLogDto>, n: int) -> Seq<char>
    decreases n,
{
    if n <= 0 {
        Seq::empty()
    } else if n == 1 {
        audit_line(items[0])
    } else {
        audit_text(items, n - 1) + "\n"@ + audit_line(items[n - 1])
    }
}

/// The plain-text export of audit entries, one line each.
pub fn format_audit_txt(items: &Vec<AuditLogDto>) -> (r: String)
    ensures
        r@ == audit_text(items@, items.len() as int),
{
    let mut out: Vec<char> = Vec::new();
    for i in 0..items.len()
        invariant
            out@ == audit_text(items@, i as int),
    {
        let item = &items[i];
        if i > 0 {
            push_all(&mut out, &chars_of("\n"));
        }
        let ghost before = out@;
        push_all(&mut out, &chars_of("["));
        push_all(&mut out, &chars_of(item.occurred_at.as_str()));
        push_all(&mut out, &chars_of("] "));
        push_all(&mut out, &chars_of(item.event_type.as_str()));
        push_all(&mut out, &chars_of(" | "));
        push_all(&mut out, &chars_of(item.result.as_str()));
        push_all(&mut out, &chars_of(" | "));
        push_all(&mut out, &chars_of(item.summary.as_str()));
        assert(out@ =~= before + audit_line(items@[i as int]));
    }
    string_of(&out)
}

/// The file extension of an export: `txt` for the text format, `json` otherwise.
pub fn export_extension(format: &str) -> (r: &'static str)
    ensures
        format@ == "txt"@ ==> r@ == "txt"@,
        format@ != "txt"@ ==> r@ == "json"@,
{
    if eq_chars(&chars_of(format), &chars_of("txt")) { "txt" } else { "json" }
}

/// Clearing the log needs the user's confirmation.
pub fn check_clear_confirmed(confirmed: bool) -> (r: Result<(), AppError>)
    ensures
        confirmed <==> r is Ok,
        r matches Err(e) ==> e.code == ErrorCode::BadArgument,
{
    if !confirmed {
        return Err(err_at(ErrorCode::BadArgument, "请确认清空操作", "audit"));
    }
    Ok(())
}

/// The event-type filter: none when no type, an empty one or `all` is
/// chosen, otherwise exactly the type chosen. The keyword filter: none when
/// no keyword or a blank one is given, otherwise a pattern that finds the
/// trimmed keyword anywhere.
pub proof fn law_audit_filters(event_type: Option<Seq<char>>, keyword: Option<Seq<char>>)
    ensures
        (event_type is None || event_type == Some(Seq::<char>::empty()) || event_type == Some("all"@))
            ==> event_filter_spec(event_type) is None,
        event_type matches Some(e) ==> (e.len() > 0 && e != "all"@ ==> event_filter_spec(event_type) == Some(e)),
        (keyword is None || (keyword matches Some(k) && trim(k).len() == 0)) ==> keyword_filter_spec(keyword) is None,
        keyword matches Some(k) ==> (trim(k).len() > 0 ==> keyword_filter_spec(keyword) == Some(
            like_contains_pattern(trim(k)),
        )),
{
}

/// Audit pages hold between 1 and 500 entries (the size asked for when it
/// lies in range); the first page starts at the first entry, and each page
/// starts where the one before it ends.
pub proof fn law_audit_pages_follow_each_other(page: u32, size: u32)
    ensures
        1 <= audit_page_size(size) <= 500,
        1 <= size <= 500 ==> audit_page_size(size) == size,
        page <= 1 ==> audit_offset(page, size) == 0,
        1 <= page < u32::MAX ==> audit_offset((page + 1) as u32, size) == audit_offset(page, size)
            + audit_page_size(size),
{
    let s = audit_page_size(size);
    if page <= 1 {
        assert(audit_offset(page, size) == 0 * s);
    }
    if 1 <= page < u32::MAX {
        assert((page + 1 - 1) * s == (page - 1) * s + s) by (nonlinear_arith);
    }
}

/// A keyword search finds the keyword anywhere: its pattern starts and
/// ends with `%`, and a keyword without `%` or `_` stands in it as it is.
pub proof fn law_like_pattern_wraps_keyword(keyword: Seq<char>)
    ensures
        like_contains_pattern(keyword)[0] == '%',
        like_contains_pattern(keyword).last() == '%',
        !keyword.contains('%') && !keyword.contains('_') ==> like_contains_pattern(keyword) == "%"@ + keyword + "%"@,
{
    reveal_strlit("%");
    reveal_strlit("\\%");
    reveal_strlit("_");
    reveal_strlit("\\_");
    if !keyword.contains('%') && !keyword.contains('_') {
        assert("%"@[0] == '%');
        lemma_replace_all_absent(keyword, "%"@, "\\%"@);
        assert("_"@[0] == '_');
        lemma_replace_all_absent(keyword, "_"@, "\\_"@);
    }
}

} // verus!
