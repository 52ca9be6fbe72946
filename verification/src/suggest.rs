//! Cleanup suggestions: which indexed entries a rule proposes, filtered,
//! largest first, one page at a time.

use vstd::prelude::*;
use std::cmp::Ordering;
use crate::error::{err_at, AppError, ErrorCode};
use crate::models::{clone_opt_string, opt_string_view, CleanupSuggestion, SuggestionView};
use crate::rules::{rule_selected, selected_for_answers, CleanupRuleDef, CompiledRule, GlobAnswers, RulesEngine, opt_index};
use crate::text::{
    ascii_lower, ascii_upper, chars_of, contains_chars, contains_seq, eq_chars, is_ascii_lower, lower_chars, occurs_at,
    to_ascii_lower, to_ascii_upper, trim, trim_chars,
};
use crate::time::{age_ok_at, age_ok_spec, current_instant, opt_view, Instant};

verus! {

/// One row of the scan index, as suggestions read it.
#[derive(Debug)]
pub struct IndexRow {
    pub path: String,
    pub is_dir: bool,
    pub size_bytes: u64,
    pub folder_size: u64,
    pub modified_at: Option<String>,
}

/// What the user narrowed the suggestions to, and which page to show.
pub struct SuggestionFilters<'a> {
    pub risk_filter: Option<&'a str>,
    pub category_filter: Option<&'a str>,
    pub path_keyword: Option<&'a str>,
    pub page: u32,
    pub size: u32,
}

/// One page of suggestions, with the bytes that the `safe` suggestions
/// would free and the number of suggestions over all pages.
#[derive(Debug)]
pub struct SuggestionsResult {
    pub items: Vec<CleanupSuggestion>,
    pub releasable_bytes: u64,
    pub total: u64,
}

/// The filters as text.
pub struct FilterView {
    pub risk: Option<Seq<char>>,
    pub category: Option<Seq<char>>,
    pub keyword: Option<Seq<char>>,
}

impl<'a> SuggestionFilters<'a> {
    pub open spec fn filter_view(self) -> FilterView {
        FilterView {
            risk: opt_view(self.risk_filter),
            category: opt_view(self.category_filter),
            keyword: opt_view(self.path_keyword),
        }
    }
}

/// The size a suggestion reports: a folder's total size, a file's own size.
pub open spec fn effective_size(row: IndexRow) -> u64 {
    if row.is_dir { row.folder_size } else { row.size_bytes }
}

/// The suggestion that a rule makes for an index row: none when the entry is
/// too young for the rule or is an empty file.
pub open spec fn suggestion_spec(row: IndexRow, def: CleanupRuleDef, now: Instant) -> Option<SuggestionView> {
    if !age_ok_spec(def.min_age_days, opt_string_view(row.modified_at), now) {
        None
    } else if effective_size(row) == 0 && !row.is_dir {
        None
    } else {
        Some(SuggestionView {
            path: row.path@,
            is_dir: row.is_dir,
            size_bytes: effective_size(row),
            risk: def.risk@,
            category: def.category@,
            rule_id: def.id@,
            description: def.description@,
            restore_hint: def.restore_hint@,
            last_modified: opt_string_view(row.modified_at),
        })
    }
}

/// A suggestion passes the filters: its risk and category equal the chosen
/// ones (unless none or `all` was chosen), and its path contains the trimmed
/// keyword, ignoring ASCII case (unless the keyword is absent or blank).
pub open spec fn passes_filters_spec(item: SuggestionView, f: FilterView) -> bool {
    &&& (f.risk matches Some(r) ==> r == "all"@ || item.risk == r)
    &&& (f.category matches Some(c) ==> c == "all"@ || item.category == c)
    &&& (f.keyword matches Some(k) ==> {
        let kw = to_ascii_lower(trim(k));
        kw.len() == 0 || contains_seq(to_ascii_lower(item.path), kw)
    })
}

/// The suggestions for the first `n` rows, in row order, given the rule each
/// row fell under.
pub open spec fn candidates(
    rows: Seq<IndexRow>,
    rules: Seq<CompiledRule>,
    matches: Seq<Option<int>>,
    f: FilterView,
    now: Instant,
    n: int,
) -> Seq<SuggestionView>
    decreases n,
{
    if n <= 0 {
        Seq::empty()
    } else {
        let prev = candidates(rows, rules, matches, f, now, n - 1);
        match matches[n - 1] {
            None => prev,
            Some(i) => match suggestion_spec(rows[n - 1], rules[i].def, now) {
                None => prev,
                Some(s) => if passes_filters_spec(s, f) { prev.push(s) } else { prev },
            },
        }
    }
}

/// `perm` shows that `out` is `input` sorted by `key`, largest first, with
/// entries of equal key in their original order.
pub open spec fn sort_witness<T>(out: Seq<T>, input: Seq<T>, key: spec_fn(T) -> u64, perm: Seq<int>) -> bool {
    &&& perm.len() == out.len()
    &&& out.len() == input.len()
    &&& forall|i: int| 0 <= i < out.len() ==> 0 <= #[trigger] perm[i] < input.len() && out[i] == input[perm[i]]
    &&& forall|i: int, j: int| 0 <= i < j < out.len() ==> perm[i] != perm[j]
    &&& forall|i: int, j: int| 0 <= i < j < out.len() ==> key(out[i]) >= key(out[j])
    &&& forall|i: int, j: int| 0 <= i < j < out.len() && key(out[i]) == key(out[j]) ==> perm[i] < perm[j]
}

/// `out` is `input` stably sorted by `key`, largest first.
pub open spec fn stable_sorted_desc<T>(out: Seq<T>, input: Seq<T>, key: spec_fn(T) -> u64) -> bool {
    exists|perm: Seq<int>| #[trigger] sort_witness(out, input, key, perm)
}

/// A suggestion's size, the key suggestions are sorted by.
pub open spec fn view_key() -> spec_fn(SuggestionView) -> u64 {
    |v: SuggestionView| v.size_bytes
}

/// A suggestion's size, the key suggestions are sorted by.
pub open spec fn item_key() -> spec_fn(CleanupSuggestion) -> u64 {
    |s: CleanupSuggestion| s.size_bytes
}

pub open spec fn views_of(s: Seq<CleanupSuggestion>) -> Seq<SuggestionView> {
    s.map_values(|x: CleanupSuggestion| x@)
}

/// Larger size first: how suggestions are ordered (equal sizes compare equal).
pub fn larger_first(a: &CleanupSuggestion, b: &CleanupSuggestion) -> (o: Ordering)
    ensures
        o == Ordering::Less <==> a.size_bytes > b.size_bytes,
        o == Ordering::Equal <==> a.size_bytes == b.size_bytes,
        o == Ordering::Greater <==> a.size_bytes < b.size_bytes,
{
    if a.size_bytes > b.size_bytes {
        Ordering::Less
    } else if a.size_bytes == b.size_bytes {
        Ordering::Equal
    } else {
        Ordering::Greater
    }
}

/// `slice::sort_by` with `larger_first` as the comparison, a total order.
/// Claimed, as its documentation says: the slice comes out sorted by that
/// comparison (largest size first), and the sort is stable (equal sizes keep
/// their order).
#[verifier::external_body]
fn sort_by_size_desc(v: &mut Vec<CleanupSuggestion>)
    ensures
        stable_sorted_desc(final(v)@, old(v)@, item_key()),
{
    v.sort_by(|a, b| larger_first(a, b));
}

proof fn lemma_sorted_views(out: Seq<CleanupSuggestion>, input: Seq<CleanupSuggestion>)
    requires
        stable_sorted_desc(out, input, item_key()),
    ensures
        stable_sorted_desc(views_of(out), views_of(input), view_key()),
{
    let perm = choose|perm: Seq<int>| #[trigger] sort_witness(out, input, item_key(), perm);
    assert(sort_witness(views_of(out), views_of(input), view_key(), perm));
}

/// Every index below `n` is taken by a permutation of `0..n`.
proof fn lemma_perm_onto(perm: Seq<int>, n: int, j: int)
    requires
        perm.len() == n,
        forall|i: int| 0 <= i < n ==> 0 <= #[trigger] perm[i] < n,
        forall|i: int, k: int| 0 <= i < k < n ==> perm[i] != perm[k],
        0 <= j < n,
    ensures
        exists|i: int| 0 <= i < n && perm[i] == j,
{
    broadcast use vstd::seq_lib::seq_to_set_is_finite;
    assert(perm.no_duplicates()) by {
        assert forall|i: int, k: int| 0 <= i < perm.len() && 0 <= k < perm.len() && i != k implies perm[i] != perm[k] by {
            if i > k {
                assert(perm[k] != perm[i]);
            }
        }
    }
    perm.unique_seq_to_set();
    let members = perm.to_set();
    let range = vstd::set_lib::set_int_range(0, n);
    vstd::set_lib::lemma_int_range(0, n);
    assert(members.subset_of(range)) by {
        assert forall|x: int| members.contains(x) implies range.contains(x) by {
            let i = choose|i: int| 0 <= i < perm.len() && perm[i] == x;
            assert(0 <= perm[i] < n);
        }
    }
    vstd::set_lib::lemma_subset_equality(members, range);
    assert(range.contains(j));
    assert(members.contains(j));
}

/// Two stable sorts of one sequence by one key put the same entry at each
/// position, up to `i`.
proof fn lemma_stable_sort_positions<T>(
    o1: Seq<T>,
    o2: Seq<T>,
    input: Seq<T>,
    key: spec_fn(T) -> u64,
    p1: Seq<int>,
    p2: Seq<int>,
    i: int,
)
    requires
        sort_witness(o1, input, key, p1),
        sort_witness(o2, input, key, p2),
        0 <= i < o1.len(),
    ensures
        forall|k: int| 0 <= k <= i ==> p1[k] == p2[k],
    decreases i,
{
    if i > 0 {
        lemma_stable_sort_positions(o1, o2, input, key, p1, p2, i - 1);
    }
    let n = o1.len() as int;
    let a = p1[i];
    let b = p2[i];
    assert(0 <= a < n && 0 <= b < n);
    lemma_perm_onto(p1, n, b);
    let t = choose|t: int| 0 <= t < n && p1[t] == b;
    lemma_perm_onto(p2, n, a);
    let u = choose|u: int| 0 <= u < n && p2[u] == a;
    if t < i {
        assert(p2[t] == b);
        assert(false);
    }
    if u < i {
        assert(p1[u] == a);
        assert(false);
    }
    assert(o1[i] == input[a] && o1[t] == input[b]);
    assert(o2[i] == input[b] && o2[u] == input[a]);
    if t > i {
        assert(key(o1[i]) >= key(o1[t]));
        assert(key(o1[i]) == key(o1[t]) ==> p1[i] < p1[t]);
    }
    if u > i {
        assert(key(o2[i]) >= key(o2[u]));
        assert(key(o2[i]) == key(o2[u]) ==> p2[i] < p2[u]);
    }
}

/// A stable sort of a sequence by a key has one outcome.
proof fn lemma_stable_sort_unique<T>(o1: Seq<T>, o2: Seq<T>, input: Seq<T>, key: spec_fn(T) -> u64)
    requires
        stable_sorted_desc(o1, input, key),
        stable_sorted_desc(o2, input, key),
    ensures
        o1 == o2,
{
    let p1 = choose|perm: Seq<int>| #[trigger] sort_witness(o1, input, key, perm);
    let p2 = choose|perm: Seq<int>| #[trigger] sort_witness(o2, input, key, perm);
    if o1.len() > 0 {
        lemma_stable_sort_positions(o1, o2, input, key, p1, p2, o1.len() - 1);
    }
    assert forall|i: int| 0 <= i < o1.len() implies o1[i] == o2[i] by {
        assert(o1[i] == input[p1[i]]);
        assert(o2[i] == input[p2[i]]);
    }
    assert(o1 =~= o2);
}

/// Paging through the suggestions: two queries over the same rows, rules,
/// filters, page size and time report the same total and releasable bytes,
/// and their pages are cut from one and the same ordering, so that each
/// suggestion shows on exactly one page.
pub proof fn law_pages_cut_from_one_ordering(
    r1: SuggestionsResult,
    r2: SuggestionsResult,
    rules: Seq<CompiledRule>,
    rows: Seq<IndexRow>,
    matches: Seq<Option<int>>,
    f: FilterView,
    page1: u32,
    page2: u32,
    size: u32,
    now: Instant,
)
    requires
        suggestions_described(r1, rules, rows, matches, f, page1, size, now),
        suggestions_described(r2, rules, rows, matches, f, page2, size, now),
    ensures
        r1.total == r2.total,
        r1.releasable_bytes == r2.releasable_bytes,
        exists|sorted: Seq<SuggestionView>| #[trigger] stable_sorted_desc(sorted, candidates(rows, rules, matches, f, now,
            rows.len() as int), view_key()) && views_of(r1.items@) == page_of(sorted, page1, size) && views_of(r2.items@)
            == page_of(sorted, page2, size),
{
    let cands = candidates(rows, rules, matches, f, now, rows.len() as int);
    let s1 = choose|sorted: Seq<SuggestionView>| #[trigger] stable_sorted_desc(sorted, cands, view_key())
        && views_of(r1.items@) == page_of(sorted, page1, size);
    let s2 = choose|sorted: Seq<SuggestionView>| #[trigger] stable_sorted_desc(sorted, cands, view_key())
        && views_of(r2.items@) == page_of(sorted, page2, size);
    lemma_stable_sort_unique(s1, s2, cands, view_key());
    assert(stable_sorted_desc(s1, cands, view_key()));
}

/// The bytes of the suggestions whose risk is `safe`.
pub open spec fn safe_total(s: Seq<SuggestionView>) -> int
    decreases s.len(),
{
    if s.len() == 0 {
        0
    } else {
        safe_total(s.drop_last()) + if s.last().risk == "safe"@ { s.last().size_bytes as int } else { 0 }
    }
}

/// The page actually shown: at least 1.
pub open spec fn page_number(page: u32) -> int {
    if page < 1 { 1 } else { page as int }
}

/// The page size actually used: between 1 and 500.
pub open spec fn page_size(size: u32) -> int {
    if size < 1 { 1 } else if size > 500 { 500 } else { size as int }
}

/// The first index of the page (saturating at `usize::MAX`).
pub open spec fn page_start(page: u32, size: u32) -> int {
    let s = (page_number(page) - 1) * page_size(size);
    if s > usize::MAX { usize::MAX as int } else { s }
}

/// The entries of `s` on the given page.
pub open spec fn page_of<T>(s: Seq<T>, page: u32, size: u32) -> Seq<T> {
    let lo = if page_start(page, size) < s.len() { page_start(page, size) } else { s.len() as int };
    let hi = if lo + page_size(size) < s.len() { lo + page_size(size) } else { s.len() as int };
    s.subrange(lo, hi)
}

/// `r` holds the suggestions for `rows`, each row under the rule `matches`
/// names: those that pass the filters, stably sorted largest first, cut to
/// the page; with their number over all pages and the bytes of the `safe` ones.
pub open spec fn suggestions_described(
    r: SuggestionsResult,
    rules: Seq<CompiledRule>,
    rows: Seq<IndexRow>,
    matches: Seq<Option<int>>,
    f: FilterView,
    page: u32,
    size: u32,
    now: Instant,
) -> bool {
    let cands = candidates(rows, rules, matches, f, now, rows.len() as int);
    &&& r.total == cands.len()
    &&& r.releasable_bytes == safe_total(cands)
    &&& exists|sorted: Seq<SuggestionView>| #[trigger] stable_sorted_desc(sorted, cands, view_key())
        && views_of(r.items@) == page_of(sorted, page, size)
}

/// The suggestion that a rule makes for a row, before filtering.
pub fn suggestion_for(row: &IndexRow, def: &CleanupRuleDef, now: Instant) -> (r: Option<CleanupSuggestion>)
    ensures
        match r {
            Some(s) => suggestion_spec(*row, *def, now) == Some(s@),
            None => suggestion_spec(*row, *def, now) is None,
        },
{
    let modified = match &row.modified_at {
        Some(m) => Some(m.as_str()),
        None => None,
    };
    assert(opt_view(modified) == opt_string_view(row.modified_at));
    if !age_ok_at(def.min_age_days, modified, now) {
        return None;
    }
    let effective = if row.is_dir { row.folder_size } else { row.size_bytes };
    if effective == 0 && !row.is_dir {
        return None;
    }
    Some(CleanupSuggestion {
        path: row.path.clone(),
        is_dir: row.is_dir,
        size_bytes: effective,
        risk: def.risk.clone(),
        category: def.category.clone(),
        rule_id: def.id.clone(),
        description: def.description.clone(),
        restore_hint: def.restore_hint.clone(),
        last_modified: clone_opt_string(&row.modified_at),
    })
}

fn opt_eq(text: &String, wanted: &str) -> (b: bool)
    ensures
        b == (text@ == wanted@),
{
    eq_chars(&chars_of(text.as_str()), &chars_of(wanted))
}

/// Whether a suggestion passes the user's filters.
pub fn passes_filters(item: &CleanupSuggestion, filters: &SuggestionFilters) -> (b: bool)
    ensures
        b == passes_filters_spec(item@, filters.filter_view()),
{
    let all = chars_of("all");
    if let Some(risk) = filters.risk_filter {
        if !eq_chars(&chars_of(risk), &all) && !opt_eq(&item.risk, risk) {
            return false;
        }
    }
    if let Some(category) = filters.category_filter {
        if !eq_chars(&chars_of(category), &all) && !opt_eq(&item.category, category) {
            return false;
        }
    }
    if let Some(keyword) = filters.path_keyword {
        let kw = lower_chars(&trim_chars(&chars_of(keyword)));
        if kw.len() != 0 {
            let haystack = lower_chars(&chars_of(item.path.as_str()));
            if !contains_chars(&haystack, &kw) {
                return false;
            }
        }
    }
    true
}

proof fn lemma_safe_total_push(s: Seq<SuggestionView>, x: SuggestionView)
    ensures
        safe_total(s.push(x)) == safe_total(s) + if x.risk == "safe"@ { x.size_bytes as int } else { 0 },
{
    assert(s.push(x).drop_last() == s);
}

proof fn lemma_safe_total_bound(s: Seq<SuggestionView>)
    ensures
        0 <= safe_total(s),
    decreases s.len(),
{
    if s.len() > 0 {
        lemma_safe_total_bound(s.drop_last());
    }
}

/// The `safe` bytes of the suggestions never shrink as more rows are read.
proof fn lemma_candidates_safe_monotone(
    rows: Seq<IndexRow>,
    rules: Seq<CompiledRule>,
    ms: Seq<Option<int>>,
    f: FilterView,
    now: Instant,
    k: int,
    n: int,
)
    requires
        0 <= k <= n,
    ensures
        safe_total(candidates(rows, rules, ms, f, now, k)) <= safe_total(candidates(rows, rules, ms, f, now, n)),
    decreases n - k,
{
    if k < n {
        lemma_candidates_safe_monotone(rows, rules, ms, f, now, k, n - 1);
        let prev = candidates(rows, rules, ms, f, now, n - 1);
        match ms[n - 1] {
            None => {},
            Some(i) => match suggestion_spec(rows[n - 1], rules[i].def, now) {
                None => {},
                Some(s) => if passes_filters_spec(s, f) {
                    lemma_safe_total_push(prev, s);
                },
            },
        }
    }
}

/// The suggestions for the rows, given the rule index each row fell under:
/// those that pass the filters, stably sorted largest first, cut to the
/// requested page, with the total count and the bytes of the `safe` ones;
/// `None` when those bytes do not fit in a `u64`.
pub fn build_suggestions(
    engine: &RulesEngine,
    rows: &Vec<IndexRow>,
    matches: &Vec<Option<usize>>,
    filters: &SuggestionFilters,
    now: Instant,
) -> (r: Option<SuggestionsResult>)
    requires
        matches.len() == rows.len(),
        forall|k: int| 0 <= k < matches.len() ==> (#[trigger] matches@[k] matches Some(i) ==> i < engine.cleanup_rules.len()),
    ensures
        ({
            let ms = matches@.map_values(|m: Option<usize>| opt_index(m));
            let cands = candidates(rows@, engine.cleanup_rules@, ms, filters.filter_view(), now, rows.len() as int);
            &&& r is None <==> safe_total(cands) > u64::MAX
            &&& r matches Some(out) ==> suggestions_described(out, engine.cleanup_rules@, rows@, ms,
                filters.filter_view(), filters.page, filters.size, now)
        }),
{
    let ghost ms = matches@.map_values(|m: Option<usize>| opt_index(m));
    let ghost f = filters.filter_view();
    let ghost n = rows.len() as int;
    let mut all: Vec<CleanupSuggestion> = Vec::new();
    let mut releasable: u64 = 0;
    for k in 0..rows.len()
        invariant
            matches.len() == rows.len(),
            n == rows.len(),
            ms == matches@.map_values(|m: Option<usize>| opt_index(m)),
            f == filters.filter_view(),
            forall|k: int| 0 <= k < matches.len() ==> (#[trigger] matches@[k] matches Some(i) ==> i < engine.cleanup_rules.len()),
            views_of(all@) == candidates(rows@, engine.cleanup_rules@, ms, f, now, k as int),
            releasable as int == safe_total(views_of(all@)),
    {
        let ghost before = views_of(all@);
        assert(ms[k as int] == opt_index(matches@[k as int]));
        if let Some(i) = matches[k] {
            if let Some(s) = suggestion_for(&rows[k], &engine.cleanup_rules[i].def, now) {
                if passes_filters(&s, filters) {
                    let is_safe = opt_eq(&s.risk, "safe");
                    let size = s.size_bytes;
                    proof {
                        lemma_safe_total_push(before, s@);
                    }
                    all.push(s);
                    assert(views_of(all@) == before.push(all@[all.len() - 1]@));
                    if is_safe {
                        match releasable.checked_add(size) {
                            Some(t) => {
                                releasable = t;
                            },
                            None => {
                                proof {
                                    lemma_candidates_safe_monotone(rows@, engine.cleanup_rules@, ms, f, now, k + 1, n);
                                }
                                return None;
                            },
                        }
                    }
                }
            }
        }
    }
    proof {
        lemma_safe_total_bound(views_of(all@));
    }
    let total = all.len() as u64;
    let ghost cands = views_of(all@);
    let ghost unsorted = all@;
    sort_by_size_desc(&mut all);
    proof {
        lemma_sorted_views(all@, unsorted);
    }
    let page: u32 = if filters.page < 1 { 1 } else { filters.page };
    let size: u32 = if filters.size < 1 { 1 } else if filters.size > 500 { 500 } else { filters.size };
    let start: usize = match ((page - 1) as usize).checked_mul(size as usize) {
        Some(s) => s,
        None => usize::MAX,
    };
    let ghost sorted_all = all@;
    let lo = if start < all.len() { start } else { all.len() };
    let mut items = all.split_off(lo);
    if (size as usize) < items.len() {
        items.truncate(size as usize);
    }
    proof {
        assert(page_number(filters.page) == page as int);
        assert(page_size(filters.size) == size as int);
        assert(views_of(items@) =~= page_of(views_of(sorted_all), filters.page, filters.size));
        assert(stable_sorted_desc(views_of(sorted_all), cands, view_key()));
    }
    Some(SuggestionsResult { items, releasable_bytes: releasable, total })
}

/// The suggestions for the rows, given what the glob sets answered for
/// each row's path: each row falls under the rule that `select_rule`
/// chooses for its answers; `None` when the bytes of the `safe`
/// suggestions do not fit in a `u64`.
pub fn suggestions_from_answers(
    engine: &RulesEngine,
    rows: &Vec<IndexRow>,
    answers: &Vec<GlobAnswers>,
    filters: &SuggestionFilters,
    now: Instant,
) -> (r: Option<SuggestionsResult>)
    requires
        answers.len() == rows.len(),
        forall|k: int| 0 <= k < answers.len() ==> (#[trigger] answers@[k]).hits.len() == engine.cleanup_rules.len(),
    ensures
        exists|ms: Seq<Option<int>>| {
            &&& #[trigger] selected_for_answers(engine.cleanup_rules@, answers@, ms)
            &&& (r is None <==> safe_total(candidates(rows@, engine.cleanup_rules@, ms, filters.filter_view(), now,
                rows.len() as int)) > u64::MAX)
            &&& (r matches Some(out) ==> suggestions_described(out, engine.cleanup_rules@, rows@, ms,
                filters.filter_view(), filters.page, filters.size, now))
        },
{
    let mut matches: Vec<Option<usize>> = Vec::new();
    for k in 0..answers.len()
        invariant
            matches.len() == k,
            forall|k: int| 0 <= k < answers.len() ==> (#[trigger] answers@[k]).hits.len() == engine.cleanup_rules.len(),
            forall|j: int| 0 <= j < k ==> (#[trigger] matches@[j] matches Some(i) ==> i < engine.cleanup_rules.len()),
            forall|j: int| 0 <= j < k ==> #[trigger] rule_selected(engine.cleanup_rules@, answers@[j].danger,
                answers@[j].hits@, opt_index(matches@[j])),
    {
        let m = engine.select_rule(answers[k].danger, &answers[k].hits);
        matches.push(m);
        assert(matches@[k as int] == m);
    }
    let ghost ms = matches@.map_values(|m: Option<usize>| opt_index(m));
    assert(selected_for_answers(engine.cleanup_rules@, answers@, ms)) by {
        assert forall|k: int| 0 <= k < ms.len() implies #[trigger] rule_selected(engine.cleanup_rules@,
            answers@[k].danger, answers@[k].hits@, ms[k]) by {
            assert(ms[k] == opt_index(matches@[k]));
        }
    }
    build_suggestions(engine, rows, &matches, filters, now)
}

/// The answer for the rows, each under the rule `ms` names, at time `now`:
/// the suggestions, or the refusal when the bytes of the `safe` ones do not
/// fit in a `u64`.
pub open spec fn outcome_at(
    r: Result<SuggestionsResult, AppError>,
    rules: Seq<CompiledRule>,
    rows: Seq<IndexRow>,
    ms: Seq<Option<int>>,
    f: FilterView,
    page: u32,
    size: u32,
    now: Instant,
) -> bool {
    match r {
        Ok(out) => suggestions_described(out, rules, rows, ms, f, page, size, now),
        Err(e) => e.code == ErrorCode::InternalError && (e.target matches Some(t) && t@ == "rules"@)
            && safe_total(candidates(rows, rules, ms, f, now, rows.len() as int)) > u64::MAX,
    }
}

/// The suggestions for the index rows, each row matched against the rules
/// and its age measured against the current time; refused until a full scan
/// has filled the index, and refused when the bytes of the `safe`
/// suggestions do not fit in a `u64`.
pub fn get_suggestions(
    index_ready: bool,
    engine: &RulesEngine,
    rows: &Vec<IndexRow>,
    filters: &SuggestionFilters,
) -> (r: Result<SuggestionsResult, AppError>)
    ensures
        !index_ready ==> (r matches Err(e) && e.code == ErrorCode::IndexNotReady
            && e.message@ == "索引尚未就绪，请先完成一次全盘扫描"@
            && (e.target matches Some(t) && t@ == "rules"@)),
        index_ready ==> exists|answers: Seq<GlobAnswers>, ms: Seq<Option<int>>, now: Instant| {
            &&& answers.len() == rows.len()
            &&& forall|k: int| 0 <= k < answers.len() ==> #[trigger] engine.answers_for(rows@[k].path@, answers[k].danger,
                answers[k].hits@)
            &&& #[trigger] selected_for_answers(engine.cleanup_rules@, answers, ms)
            &&& #[trigger] outcome_at(r, engine.cleanup_rules@, rows@, ms, filters.filter_view(), filters.page,
                filters.size, now)
        },
{
    if !index_ready {
        return Err(err_at(ErrorCode::IndexNotReady, "索引尚未就绪，请先完成一次全盘扫描", "rules"));
    }
    let mut answers: Vec<GlobAnswers> = Vec::new();
    for k in 0..rows.len()
        invariant
            answers.len() == k,
            forall|j: int| 0 <= j < k ==> (#[trigger] answers@[j]).hits.len() == engine.cleanup_rules.len(),
            forall|j: int| 0 <= j < k ==> engine.answers_for(rows@[j].path@, (#[trigger] answers@[j]).danger, answers@[j].hits@),
    {
        let a = engine.glob_answers(rows[k].path.as_str());
        answers.push(a);
        assert(answers@[k as int] == a);
    }
    let now = current_instant();
    let res = suggestions_from_answers(engine, rows, &answers, filters, now);
    let ghost ms = choose|ms: Seq<Option<int>>| {
        &&& #[trigger] selected_for_answers(engine.cleanup_rules@, answers@, ms)
        &&& (res is None <==> safe_total(candidates(rows@, engine.cleanup_rules@, ms, filters.filter_view(), now,
            rows.len() as int)) > u64::MAX)
        &&& (res matches Some(out) ==> suggestions_described(out, engine.cleanup_rules@, rows@, ms,
            filters.filter_view(), filters.page, filters.size, now))
    };
    let r = match res {
        Some(out) => Ok(out),
        None => Err(err_at(ErrorCode::InternalError, "可释放空间超出统计范围", "rules")),
    };
    assert(forall|k: int| 0 <= k < answers@.len() ==> #[trigger] engine.answers_for(rows@[k].path@, answers@[k].danger,
        answers@[k].hits@));
    assert(selected_for_answers(engine.cleanup_rules@, answers@, ms));
    assert(outcome_at(r, engine.cleanup_rules@, rows@, ms, filters.filter_view(), filters.page, filters.size, now));
    r
}

/// A suggestion carries its row and its rule unchanged: the row's path,
/// kind and modification time, the rule's id, risk, category, description
/// and restore hint, and the size of the entry (a folder's total, a file's
/// own). A rule suggests a row exactly when the row is old enough for it and
/// is a folder or a non-empty file.
pub proof fn law_suggestion_carries_row_and_rule(row: IndexRow, def: CleanupRuleDef, now: Instant)
    ensures
        suggestion_spec(row, def, now) is Some <==> age_ok_spec(def.min_age_days, opt_string_view(row.modified_at), now)
            && (row.is_dir || row.size_bytes > 0),
        suggestion_spec(row, def, now) matches Some(s) ==> {
            &&& s.path == row.path@
            &&& s.is_dir == row.is_dir
            &&& s.size_bytes == (if row.is_dir { row.folder_size } else { row.size_bytes })
            &&& s.rule_id == def.id@
            &&& s.risk == def.risk@
            &&& s.category == def.category@
            &&& s.description == def.description@
            &&& s.restore_hint == def.restore_hint@
            &&& s.last_modified == opt_string_view(row.modified_at)
        },
{
}

/// No filter, or `all`, lets every suggestion through; a chosen risk or
/// category lets through only suggestions with exactly that risk or
/// category; a blank keyword restricts nothing, and a path that holds the
/// trimmed keyword as written passes it.
pub proof fn law_filters_restrict_as_chosen(item: SuggestionView, f: FilterView)
    ensures
        (f.risk is None || f.risk == Some("all"@)) && (f.category is None || f.category == Some("all"@))
            && (f.keyword is None || (f.keyword matches Some(k) && trim(k).len() == 0))
            ==> passes_filters_spec(item, f),
        f.risk matches Some(r) ==> (r != "all"@ && passes_filters_spec(item, f) ==> item.risk == r),
        f.category matches Some(c) ==> (c != "all"@ && passes_filters_spec(item, f) ==> item.category == c),
        f.keyword matches Some(k) ==> (contains_seq(item.path, trim(k)) ==> (passes_filters_spec(item, f)
            <==> passes_filters_spec(item, FilterView { keyword: None, ..f }))),
{
    if let Some(k) = f.keyword {
        let t = trim(k);
        if contains_seq(item.path, t) {
            let i = choose|i: int| occurs_at(item.path, t, i);
            let lp = to_ascii_lower(item.path);
            let lt = to_ascii_lower(t);
            assert(lp.subrange(i, i + lt.len()) =~= lt);
            assert(occurs_at(lp, lt, i));
        }
    }
}

/// Matching a keyword ignores the letter case of the path: a path and its
/// upper-cased form pass the same filters.
pub proof fn law_keyword_ignores_path_case(item: SuggestionView, f: FilterView)
    ensures
        passes_filters_spec(item, f) == passes_filters_spec(SuggestionView { path: to_ascii_upper(item.path), ..item }, f),
{
    let up = to_ascii_upper(item.path);
    assert forall|i: int| 0 <= i < item.path.len() implies ascii_lower(#[trigger] ascii_upper(item.path[i]))
        == ascii_lower(item.path[i]) by {
        let c = item.path[i];
        if is_ascii_lower(c) {
            assert(((c as u32) - 32) as char == ascii_upper(c));
        }
    }
    assert(to_ascii_lower(up) =~= to_ascii_lower(item.path));
}

/// A page holds at most the page size, which is between 1 and 500 and is
/// the size asked for when that lies in range; the first page is the start
/// of the list, and each entry of a page is the one at its place in the
/// list.
pub proof fn law_page_shape<T>(s: Seq<T>, page: u32, size: u32)
    ensures
        1 <= page_size(size) <= 500,
        1 <= size <= 500 ==> page_size(size) == size,
        page_of(s, page, size).len() <= page_size(size),
        page <= 1 ==> page_of(s, page, size) == s.take(
            if s.len() < page_size(size) { s.len() as int } else { page_size(size) },
        ),
        forall|j: int| 0 <= j < page_of(s, page, size).len() ==> #[trigger] page_of(s, page, size)[j]
            == s[page_start(page, size) + j],
{
    if page <= 1 {
        assert(page_number(page) == 1);
        assert((page_number(page) - 1) * page_size(size) == 0) by (nonlinear_arith)
            requires
                page_number(page) == 1,
        ;
        assert(page_start(page, size) == 0);
        assert(page_of(s, page, size) =~= s.take(
            if s.len() < page_size(size) { s.len() as int } else { page_size(size) },
        ));
    }
}

/// The bytes of a list of suggestions, safe or not.
pub open spec fn total_bytes(s: Seq<SuggestionView>) -> int
    decreases s.len(),
{
    if s.len() == 0 { 0 } else { total_bytes(s.drop_last()) + s.last().size_bytes as int }
}

/// The releasable bytes count the `safe` suggestions only: nothing when
/// none is safe, every byte when all are, and never more than all bytes.
pub proof fn law_safe_total_counts_safe_only(s: Seq<SuggestionView>)
    ensures
        (forall|i: int| 0 <= i < s.len() ==> (#[trigger] s[i]).risk != "safe"@) ==> safe_total(s) == 0,
        (forall|i: int| 0 <= i < s.len() ==> (#[trigger] s[i]).risk == "safe"@) ==> safe_total(s) == total_bytes(s),
        0 <= safe_total(s) <= total_bytes(s),
    decreases s.len(),
{
    if s.len() > 0 {
        let d = s.drop_last();
        law_safe_total_counts_safe_only(d);
        assert forall|i: int| 0 <= i < d.len() implies #[trigger] d[i] == s[i] by {}
        if forall|i: int| 0 <= i < s.len() ==> (#[trigger] s[i]).risk != "safe"@ {
            assert(s[s.len() - 1].risk != "safe"@);
            assert(forall|i: int| 0 <= i < d.len() ==> (#[trigger] d[i]).risk != "safe"@);
        }
        if forall|i: int| 0 <= i < s.len() ==> (#[trigger] s[i]).risk == "safe"@ {
            assert(s[s.len() - 1].risk == "safe"@);
            assert(forall|i: int| 0 <= i < d.len() ==> (#[trigger] d[i]).risk == "safe"@);
        }
    }
}

/// The suggestions listed are exactly those that the rows make under the
/// rule each fell under and that pass the filters, one per row at most: each
/// listed one comes from such a row, and each such row's suggestion is
/// listed.
pub proof fn law_candidates_are_qualifying_rows(
    rows: Seq<IndexRow>,
    rules: Seq<CompiledRule>,
    ms: Seq<Option<int>>,
    f: FilterView,
    now: Instant,
    n: int,
)
    requires
        0 <= n <= rows.len(),
        n <= ms.len(),
    ensures
        candidates(rows, rules, ms, f, now, n).len() <= n,
        forall|x: int| 0 <= x < candidates(rows, rules, ms, f, now, n).len() ==> exists|k: int| 0 <= k < n && (
            #[trigger] ms[k] matches Some(i) && suggestion_spec(rows[k], rules[i].def, now) == Some(
                candidates(rows, rules, ms, f, now, n)[x],
            ) && passes_filters_spec(#[trigger] candidates(rows, rules, ms, f, now, n)[x], f)),
        forall|k: int| 0 <= k < n ==> (#[trigger] ms[k] matches Some(i) ==> (suggestion_spec(rows[k], rules[i].def, now)
            matches Some(s) ==> (passes_filters_spec(s, f) ==> candidates(rows, rules, ms, f, now, n).contains(s)))),
    decreases n,
{
    if n > 0 {
        law_candidates_are_qualifying_rows(rows, rules, ms, f, now, n - 1);
        let prev = candidates(rows, rules, ms, f, now, n - 1);
        let cur = candidates(rows, rules, ms, f, now, n);
        assert forall|x: int| 0 <= x < cur.len() implies exists|k: int| 0 <= k < n && (#[trigger] ms[k] matches Some(i)
            && suggestion_spec(rows[k], rules[i].def, now) == Some(cur[x]) && passes_filters_spec(#[trigger] cur[x], f)) by {
            if x < prev.len() {
                assert(cur[x] == prev[x]);
                let k = choose|k: int| 0 <= k < n - 1 && (#[trigger] ms[k] matches Some(i) && suggestion_spec(
                    rows[k],
                    rules[i].def,
                    now,
                ) == Some(prev[x]) && passes_filters_spec(prev[x], f));
                assert(0 <= k < n);
            } else {
                assert(ms[n - 1] is Some);
            }
        }
        assert forall|k: int| 0 <= k < n implies (#[trigger] ms[k] matches Some(i) ==> (suggestion_spec(
            rows[k],
            rules[i].def,
            now,
        ) matches Some(s) ==> (passes_filters_spec(s, f) ==> cur.contains(s)))) by {
            if k < n - 1 {
                if let Some(i) = ms[k] {
                    if let Some(s) = suggestion_spec(rows[k], rules[i].def, now) {
                        if passes_filters_spec(s, f) {
                            assert(prev.contains(s));
                            let y = choose|y: int| 0 <= y < prev.len() && prev[y] == s;
                            assert(cur[y] == s);
                        }
                    }
                }
            } else {
                if let Some(i) = ms[k] {
                    if let Some(s) = suggestion_spec(rows[k], rules[i].def, now) {
                        if passes_filters_spec(s, f) {
                            assert(cur[prev.len() as int] == s);
                        }
                    }
                }
            }
        }
    }
}

} // verus!
