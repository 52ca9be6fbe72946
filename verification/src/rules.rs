//! The cleanup rule engine: rule definitions, their compiled glob sets, and
//! which rule a path falls under.

use vstd::prelude::*;
use globset::{GlobSet, GlobSetBuilder};
use crate::error::{err_at, AppError, ErrorCode};
use crate::glob::{
    add_pattern, build_set, builder_patterns, glob_error_text, glob_parses, glob_set_patterns, new_builder,
    plain_hit, set_is_match,
};
use crate::paths::{
    joined_below, normalize_windows_path, normalized_windows_path, not_verbatim, path_join,
};
use crate::text::{
    chars_of, lemma_replace_all_absent, lemma_replace_all_skips_prefix, replace_all, replace_char, replace_char_chars,
    replace_chars, string_of,
};

verus! {

/// One cleanup rule as the rules file describes it.
#[derive(Debug)]
pub struct CleanupRuleDef {
    pub id: String,
    pub name: String,
    pub category: String,
    pub risk: String,
    pub path_globs: Vec<String>,
    pub min_age_days: u32,
    pub description: String,
    pub restore_hint: String,
    pub exclude_globs: Vec<String>,
}

/// The rules file: cleanup rules in priority order and the protected paths.
#[derive(Debug)]
pub struct RulesFile {
    pub cleanup_rules: Vec<CleanupRuleDef>,
    pub danger_paths: Vec<String>,
}

/// A rule with its inclusion globs and, when it has any, its exclude globs.
pub struct CompiledRule {
    pub def: CleanupRuleDef,
    pub includes: GlobSet,
    pub exclude: Option<GlobSet>,
}

/// The compiled rules: protected paths and cleanup rules in priority order.
pub struct RulesEngine {
    pub danger_paths: GlobSet,
    pub cleanup_rules: Vec<CompiledRule>,
}

/// What the glob sets of the rules answer for one path.
#[derive(Debug)]
pub struct GlobAnswers {
    pub danger: bool,
    pub hits: Vec<(bool, bool)>,
}

/// The id and risk of the rule a path falls under.
#[derive(Debug)]
pub struct MatchedRule {
    pub id: String,
    pub risk: String,
}

/// A pattern with `{user}` replaced by the user name and `/` by `\`.
pub open spec fn expand_pattern(p: Seq<char>, user: Seq<char>) -> Seq<char> {
    replace_char(replace_all(p, "{user}"@, user), '/', '\\')
}

/// Every pattern expanded, in order.
pub open spec fn expanded(ps: Seq<String>, user: Seq<char>) -> Seq<Seq<char>> {
    Seq::new(ps.len(), |i: int| expand_pattern(ps[i]@, user))
}

pub fn expand_pattern_exec(pattern: &str, username: &str) -> (r: String)
    ensures
        r@ == expand_pattern(pattern@, username@),
{
    let user_token = chars_of("{user}");
    proof {
        reveal_strlit("{user}");
    }
    let replaced = replace_chars(&chars_of(pattern), &user_token, &chars_of(username));
    string_of(&replace_char_chars(&replaced, '/', '\\'))
}

/// The patterns with `{user}` filled in and `/` turned into `\`.
pub fn expand_patterns(patterns: &Vec<String>, username: &str) -> (r: Vec<String>)
    ensures
        r.len() == patterns.len(),
        forall|i: int| 0 <= i < r.len() ==> (#[trigger] r@[i])@ == expand_pattern(patterns@[i]@, username@),
{
    let mut r: Vec<String> = Vec::new();
    for i in 0..patterns.len()
        invariant
            r.len() == i,
            forall|k: int| 0 <= k < i ==> (#[trigger] r@[k])@ == expand_pattern(patterns@[k]@, username@),
    {
        r.push(expand_pattern_exec(patterns[i].as_str(), username));
    }
    r
}

fn map_glob_err(e: &globset::Error) -> (a: AppError)
    ensures
        a.code == ErrorCode::InternalError,
        a.target matches Some(t) && t@ == "rules"@,
{
    let mut message = String::from_str("invalid glob pattern: ");
    let text = glob_error_text(e);
    message.append(text.as_str());
    err_at(ErrorCode::InternalError, message.as_str(), "rules")
}

/// Every pattern parses.
pub open spec fn all_parse(ps: Seq<Seq<char>>) -> bool {
    forall|i: int| 0 <= i < ps.len() ==> glob_parses(#[trigger] ps[i])
}

/// A glob set made of the expanded patterns: refused when one of them does
/// not parse; without patterns, the empty set.
pub fn build_glob_set(patterns: &Vec<String>, username: &str) -> (r: Result<GlobSet, AppError>)
    ensures
        r matches Ok(s) ==> glob_set_patterns(s) == expanded(patterns@, username@),
        r is Ok ==> all_parse(expanded(patterns@, username@)),
        !all_parse(expanded(patterns@, username@)) ==> r is Err,
        patterns.len() == 0 ==> r is Ok,
        r matches Err(e) ==> e.code == ErrorCode::InternalError && (e.target matches Some(t) && t@ == "rules"@),
{
    let expanded_patterns = expand_patterns(patterns, username);
    let mut builder = new_builder();
    for i in 0..expanded_patterns.len()
        invariant
            expanded_patterns.len() == patterns.len(),
            forall|k: int| 0 <= k < expanded_patterns.len() ==> (#[trigger] expanded_patterns@[k])@
                == expand_pattern(patterns@[k]@, username@),
            builder_patterns(builder) == expanded(patterns@, username@).take(i as int),
            forall|k: int| 0 <= k < i ==> glob_parses(#[trigger] expanded(patterns@, username@)[k]),
    {
        match add_pattern(&mut builder, expanded_patterns[i].as_str()) {
            Ok(()) => {},
            Err(e) => {
                assert(!glob_parses(expanded(patterns@, username@)[i as int]));
                return Err(map_glob_err(&e));
            },
        }
        assert(expanded(patterns@, username@).take(i + 1) == expanded(patterns@, username@).take(i as int).push(
            expanded_patterns@[i as int]@,
        ));
    }
    assert(expanded(patterns@, username@).take(patterns.len() as int) == expanded(patterns@, username@));
    match build_set(&builder) {
        Ok(s) => Ok(s),
        Err(e) => Err(map_glob_err(&e)),
    }
}

impl CompiledRule {
    /// The rule's glob sets hold its expanded inclusion and exclude patterns,
    /// and it has an exclude set exactly when it names exclude patterns.
    pub open spec fn compiled_from(self, def: CleanupRuleDef, user: Seq<char>) -> bool {
        &&& self.def == def
        &&& glob_set_patterns(self.includes) == expanded(def.path_globs@, user)
        &&& (def.exclude_globs.len() == 0 <==> self.exclude is None)
        &&& (self.exclude matches Some(x) ==> glob_set_patterns(x) == expanded(def.exclude_globs@, user))
    }
}

/// A rule's inclusion and exclude patterns all parse once expanded.
pub open spec fn rule_parses(def: CleanupRuleDef, user: Seq<char>) -> bool {
    all_parse(expanded(def.path_globs@, user)) && all_parse(expanded(def.exclude_globs@, user))
}

/// Every pattern of the rules file parses once expanded for `user`.
pub open spec fn rules_parse(rules: RulesFile, user: Seq<char>) -> bool {
    &&& all_parse(expanded(rules.danger_paths@, user))
    &&& forall|i: int| 0 <= i < rules.cleanup_rules.len() ==> #[trigger] rule_parses(rules.cleanup_rules@[i], user)
}

impl RulesEngine {
    /// The engine holds the rules of `rules`, in order, compiled for `user`.
    pub open spec fn compiled_from(self, rules: RulesFile, user: Seq<char>) -> bool {
        &&& glob_set_patterns(self.danger_paths) == expanded(rules.danger_paths@, user)
        &&& self.cleanup_rules.len() == rules.cleanup_rules.len()
        &&& forall|i: int| 0 <= i < self.cleanup_rules.len() ==>
            (#[trigger] self.cleanup_rules@[i]).compiled_from(rules.cleanup_rules@[i], user)
    }

    /// Compiles the rules file for the given user name (which `{user}` in a
    /// pattern stands for).
    pub fn load(rules: RulesFile, username: &str) -> (r: Result<RulesEngine, AppError>)
        ensures
            r matches Ok(e) ==> e.compiled_from(rules, username@),
            r is Ok ==> rules_parse(rules, username@),
            rules.danger_paths.len() == 0 && rules.cleanup_rules.len() == 0 ==> r is Ok,
            r matches Err(e) ==> e.code == ErrorCode::InternalError && (e.target matches Some(t) && t@ == "rules"@),
    {
        let ghost given = rules;
        let RulesFile { cleanup_rules: mut defs, danger_paths } = rules;
        let danger = build_glob_set(&danger_paths, username)?;
        let mut compiled: Vec<CompiledRule> = Vec::new();
        let ghost all_defs = defs@;
        let n = defs.len();
        while defs.len() > 0
            invariant
                all_defs == given.cleanup_rules@,
                given == rules,
                n == all_defs.len(),
                compiled.len() + defs.len() == n,
                defs@ == all_defs.skip(compiled.len() as int),
                forall|i: int| 0 <= i < compiled.len() ==>
                    (#[trigger] compiled@[i]).compiled_from(all_defs[i], username@),
                forall|i: int| 0 <= i < compiled.len() ==> #[trigger] rule_parses(all_defs[i], username@),
                all_parse(expanded(given.danger_paths@, username@)),
            decreases defs.len(),
        {
            let ghost k = compiled.len();
            let def = defs.remove(0);
            assert(def == all_defs[k as int]);
            assert(defs@ == all_defs.skip(k + 1));
            let includes = build_glob_set(&def.path_globs, username)?;
            let exclude = if def.exclude_globs.len() == 0 {
                None
            } else {
                Some(build_glob_set(&def.exclude_globs, username)?)
            };
            compiled.push(CompiledRule { def, includes, exclude });
        }
        Ok(RulesEngine { danger_paths: danger, cleanup_rules: compiled })
    }
}


/// One of the set's patterns matches `x` on every platform.
pub open spec fn some_plain_hit(set: GlobSet, x: Seq<char>) -> bool {
    exists|j: int| 0 <= j < glob_set_patterns(set).len() && #[trigger] plain_hit(glob_set_patterns(set)[j], x)
}

/// A rule applies when its inclusion set matched and its exclude set did not.
pub open spec fn applies(hit: (bool, bool)) -> bool {
    hit.0 && !hit.1
}

pub open spec fn is_windows_dir(rule: CompiledRule) -> bool {
    rule.def.id@ == "windows_dir"@
}

/// The rule chosen for a path, given whether it fell under a protected path
/// (`danger`) and, per rule, whether its inclusion and exclude sets matched
/// (`hits`): under a protected path, the first rule with id `windows_dir`;
/// otherwise the first rule that applies; `None` when there is no such rule.
pub open spec fn rule_selected(
    rules: Seq<CompiledRule>,
    danger: bool,
    hits: Seq<(bool, bool)>,
    r: Option<int>,
) -> bool {
    if danger {
        match r {
            Some(i) => 0 <= i < rules.len() && is_windows_dir(rules[i]) && forall|j: int|
                0 <= j < i ==> !is_windows_dir(#[trigger] rules[j]),
            None => forall|j: int| 0 <= j < rules.len() ==> !is_windows_dir(#[trigger] rules[j]),
        }
    } else {
        match r {
            Some(i) => 0 <= i < rules.len() && applies(hits[i]) && forall|j: int|
                0 <= j < i ==> !applies(#[trigger] hits[j]),
            None => forall|j: int| 0 <= j < rules.len() ==> !applies(#[trigger] hits[j]),
        }
    }
}

pub open spec fn opt_index(r: Option<usize>) -> Option<int> {
    match r {
        Some(i) => Some(i as int),
        None => None,
    }
}

/// `ms` gives, for each path, the rule that its glob answers select.
pub open spec fn selected_for_answers(rules: Seq<CompiledRule>, answers: Seq<GlobAnswers>, ms: Seq<Option<int>>) -> bool {
    &&& ms.len() == answers.len()
    &&& forall|k: int| 0 <= k < ms.len() ==> #[trigger] rule_selected(rules, answers[k].danger, answers[k].hits@, ms[k])
}

/// A path falls under one rule at most: the glob answers decide the
/// selected rule, or that there is none.
pub proof fn law_one_rule_selected(
    rules: Seq<CompiledRule>,
    danger: bool,
    hits: Seq<(bool, bool)>,
    r1: Option<int>,
    r2: Option<int>,
)
    requires
        rule_selected(rules, danger, hits, r1),
        rule_selected(rules, danger, hits, r2),
    ensures
        r1 == r2,
{
    if danger {
        if let Some(i) = r1 {
            if let Some(j) = r2 {
                if i < j {
                    assert(is_windows_dir(rules[i]));
                } else if j < i {
                    assert(is_windows_dir(rules[j]));
                }
            } else {
                assert(is_windows_dir(rules[i]));
            }
        } else if let Some(j) = r2 {
            assert(is_windows_dir(rules[j]));
        }
    } else {
        if let Some(i) = r1 {
            if let Some(j) = r2 {
                if i < j {
                    assert(applies(hits[i]));
                } else if j < i {
                    assert(applies(hits[j]));
                }
            } else {
                assert(applies(hits[i]));
            }
        } else if let Some(j) = r2 {
            assert(applies(hits[j]));
        }
    }
}

impl RulesEngine {
    /// Answers that the glob sets could give: one per rule, and no match from
    /// an empty set or from a rule without exclude patterns.
    pub open spec fn possible_answers(self, danger: bool, hits: Seq<(bool, bool)>) -> bool {
        &&& hits.len() == self.cleanup_rules.len()
        &&& (glob_set_patterns(self.danger_paths).len() == 0 ==> !danger)
        &&& forall|i: int| 0 <= i < hits.len() ==> {
            &&& (glob_set_patterns(self.cleanup_rules@[i].includes).len() == 0 ==> !(#[trigger] hits[i]).0)
            &&& (self.cleanup_rules@[i].exclude is None ==> !hits[i].1)
            &&& (self.cleanup_rules@[i].exclude matches Some(x) && glob_set_patterns(x).len() == 0 ==> !hits[i].1)
        }
    }

    /// Answers that the glob sets could give for `path`, normalized: those
    /// of `possible_answers`, where every set that one of its patterns
    /// matches on every platform (`plain_hit`) answers yes; an exclude set
    /// is asked only when the inclusion set matched.
    pub open spec fn answers_for(self, path: Seq<char>, danger: bool, hits: Seq<(bool, bool)>) -> bool {
        let x = normalized_windows_path(path);
        &&& self.possible_answers(danger, hits)
        &&& (some_plain_hit(self.danger_paths, x) ==> danger)
        &&& forall|i: int| 0 <= i < hits.len() ==> {
            &&& (some_plain_hit(self.cleanup_rules@[i].includes, x) ==> (#[trigger] hits[i]).0)
            &&& ((self.cleanup_rules@[i].exclude matches Some(e) && hits[i].0 && some_plain_hit(e, x)) ==> hits[i].1)
        }
    }

    /// `r` is the rule chosen for `path`, given glob answers `danger` and `hits`.
    pub open spec fn match_explained(self, path: Seq<char>, danger: bool, hits: Seq<(bool, bool)>, r: Option<int>) -> bool {
        self.answers_for(path, danger, hits) && rule_selected(self.cleanup_rules@, danger, hits, r)
    }

    /// The rule chosen for glob answers: under a protected path the first
    /// rule with id `windows_dir`, otherwise the first rule whose inclusion
    /// set matched and whose exclude set did not.
    pub fn select_rule(&self, danger: bool, hits: &Vec<(bool, bool)>) -> (r: Option<usize>)
        requires
            hits.len() == self.cleanup_rules.len(),
        ensures
            rule_selected(self.cleanup_rules@, danger, hits@, opt_index(r)),
            r matches Some(i) ==> i < self.cleanup_rules.len(),
    {
        let n = self.cleanup_rules.len();
        if danger {
            let windows_dir = chars_of("windows_dir");
            for i in 0..n
                invariant
                    n == self.cleanup_rules.len(),
                    danger,
                    windows_dir@ == "windows_dir"@,
                    forall|j: int| 0 <= j < i ==> !is_windows_dir(#[trigger] self.cleanup_rules@[j]),
            {
                let id_chars = chars_of(self.cleanup_rules[i].def.id.as_str());
                if crate::text::eq_chars(&id_chars, &windows_dir) {
                    assert(id_chars@ == self.cleanup_rules@[i as int].def.id@);
                    assert(is_windows_dir(self.cleanup_rules@[i as int]));
                    return Some(i);
                }
            }
            return None;
        }
        for i in 0..n
            invariant
                n == self.cleanup_rules.len(),
                hits.len() == n,
                !danger,
                forall|j: int| 0 <= j < i ==> !applies(#[trigger] hits@[j]),
        {
            let (inc, exc) = hits[i];
            if inc && !exc {
                assert(applies(hits@[i as int]));
                return Some(i);
            }
        }
        None
    }

    /// What the glob sets answer for a path, normalized first: whether it
    /// lies under a protected path, and per rule whether the inclusion set
    /// matched and, where it did, whether the exclude set matched.
    pub fn glob_answers(&self, path: &str) -> (a: GlobAnswers)
        ensures
            self.answers_for(path@, a.danger, a.hits@),
    {
        let normalized = normalize_windows_path(path);
        let ghost x = normalized@;
        let n = self.cleanup_rules.len();
        let danger = set_is_match(&self.danger_paths, normalized.as_str());
        let mut hits: Vec<(bool, bool)> = Vec::new();
        for i in 0..n
            invariant
                n == self.cleanup_rules.len(),
                x == normalized@,
                x == normalized_windows_path(path@),
                hits.len() == i,
                forall|j: int| 0 <= j < i ==> {
                    &&& (glob_set_patterns(self.cleanup_rules@[j].includes).len() == 0 ==> !(#[trigger] hits@[j]).0)
                    &&& (self.cleanup_rules@[j].exclude is None ==> !hits@[j].1)
                    &&& (self.cleanup_rules@[j].exclude matches Some(e) && glob_set_patterns(e).len() == 0
                        ==> !hits@[j].1)
                    &&& (some_plain_hit(self.cleanup_rules@[j].includes, x) ==> hits@[j].0)
                    &&& ((self.cleanup_rules@[j].exclude matches Some(e) && hits@[j].0 && some_plain_hit(e, x))
                        ==> hits@[j].1)
                },
        {
            let rule = &self.cleanup_rules[i];
            let inc = set_is_match(&rule.includes, normalized.as_str());
            let exc = if inc {
                match &rule.exclude {
                    Some(e) => set_is_match(e, normalized.as_str()),
                    None => false,
                }
            } else {
                false
            };
            hits.push((inc, exc));
        }
        GlobAnswers { danger, hits }
    }

    /// The index of the rule a path falls under: the rule `select_rule`
    /// chooses for the path's glob answers.
    pub fn match_index(&self, path: &str) -> (r: Option<usize>)
        ensures
            exists|danger: bool, hits: Seq<(bool, bool)>| #[trigger] self.match_explained(path@, danger, hits, opt_index(r)),
            r matches Some(i) ==> i < self.cleanup_rules.len(),
    {
        let a = self.glob_answers(path);
        let r = self.select_rule(a.danger, &a.hits);
        assert(self.match_explained(path@, a.danger, a.hits@, opt_index(r)));
        r
    }

    /// The definition of the rule a path falls under.
    pub fn match_path(&self, path: &str) -> (r: Option<&CleanupRuleDef>)
        ensures
            exists|danger: bool, hits: Seq<(bool, bool)>, idx: Option<int>| #[trigger] self.match_explained(path@, danger, hits, idx)
                && match idx {
                    Some(i) => r == Some(&self.cleanup_rules@[i].def),
                    None => r is None,
                },
    {
        let idx = self.match_index(path);
        match idx {
            Some(i) => Some(&self.cleanup_rules[i].def),
            None => None,
        }
    }

    /// The id and risk of the rule a path falls under.
    pub fn match_path_info(&self, path: &str) -> (r: Option<MatchedRule>)
        ensures
            exists|danger: bool, hits: Seq<(bool, bool)>, idx: Option<int>| #[trigger] self.match_explained(path@, danger, hits, idx)
                && match idx {
                    Some(i) => r matches Some(m) && m.id@ == self.cleanup_rules@[i].def.id@
                        && m.risk@ == self.cleanup_rules@[i].def.risk@,
                    None => r is None,
                },
    {
        let idx = self.match_index(path);
        match idx {
            Some(i) => {
                let def = &self.cleanup_rules[i].def;
                Some(MatchedRule { id: def.id.clone(), risk: def.risk.clone() })
            },
            None => None,
        }
    }
}


/// A path that one of a rule's inclusion patterns matches on every
/// platform, for a rule without exclude patterns, falls under that rule or
/// an earlier one; under a protected path it falls under the `windows_dir`
/// rule, when there is one.
pub proof fn law_plain_hit_is_matched(
    engine: RulesEngine,
    path: Seq<char>,
    danger: bool,
    hits: Seq<(bool, bool)>,
    r: Option<int>,
    i: int,
)
    requires
        engine.match_explained(path, danger, hits, r),
        0 <= i < engine.cleanup_rules.len(),
        some_plain_hit(engine.cleanup_rules@[i].includes, normalized_windows_path(path)),
        engine.cleanup_rules@[i].exclude is None,
    ensures
        !danger ==> (r matches Some(j) && j <= i),
        danger ==> (r is Some <==> exists|j: int| 0 <= j < engine.cleanup_rules.len()
            && is_windows_dir(#[trigger] engine.cleanup_rules@[j])),
{
    if !danger {
        assert(hits[i].0 && !hits[i].1);
        assert(applies(hits[i]));
        if let Some(j) = r {
            if j > i {
                assert(!applies(hits[i]));
            }
        }
    } else {
        if let Some(j) = r {
            assert(is_windows_dir(engine.cleanup_rules@[j]));
        }
    }
}

/// The built-in rules file below the application's folder:
/// `rules/builtin-rules.v1.json`.
pub fn rules_file_path(app_dir: &str) -> (r: String)
    ensures
        not_verbatim(app_dir@) ==> joined_below(app_dir@, "rules/builtin-rules.v1.json"@, r@),
{
    proof {
        reveal_strlit("rules/builtin-rules.v1.json");
    }
    path_join(app_dir, "rules/builtin-rules.v1.json")
}

/// Expanding a pattern fills in the user name where it says `{user}`,
/// keeps the rest, and leaves no `/`: the result uses `\` only.
pub proof fn law_expand_pattern_fills_user(a: Seq<char>, b: Seq<char>, user: Seq<char>, p: Seq<char>)
    requires
        !a.contains('{') && !a.contains('/'),
        !b.contains('{') && !b.contains('/'),
        !user.contains('/'),
    ensures
        expand_pattern(a, user) == a,
        expand_pattern(a + "{user}"@ + b, user) == a + user + b,
        !expand_pattern(p, user).contains('/'),
{
    reveal_strlit("{user}");
    let tok = "{user}"@;
    assert(tok[0] == '{');
    lemma_replace_all_absent(a, tok, user);
    assert(replace_char(a, '/', '\\') =~= a) by {
        assert forall|k: int| 0 <= k < a.len() implies a[k] != '/' by {
            assert(a.contains(a[k]));
        }
    }
    lemma_replace_all_skips_prefix(a, tok + b, tok, user);
    assert((tok + b).take(6) =~= tok);
    assert((tok + b).skip(6) =~= b);
    lemma_replace_all_absent(b, tok, user);
    assert(a + (tok + b) =~= a + tok + b);
    let mid = a + user + b;
    assert(replace_all(a + tok + b, tok, user) == a + (user + b));
    assert(a + (user + b) =~= mid);
    assert(replace_char(mid, '/', '\\') =~= mid) by {
        assert forall|k: int| 0 <= k < mid.len() implies mid[k] != '/' by {
            if k < a.len() {
                assert(a.contains(a[k]));
            } else if k < a.len() + user.len() {
                assert(user.contains(user[k - a.len()]));
            } else {
                assert(b.contains(b[k - a.len() - user.len()]));
            }
        }
    }
    let e = expand_pattern(p, user);
    if e.contains('/') {
        let k = choose|k: int| 0 <= k < e.len() && e[k] == '/';
        assert(e[k] != '/');
    }
}

/// Outside protected paths the first rule that applies wins: whenever a
/// rule applies, one is chosen, it applies, and it comes no later; when
/// none applies, none is chosen. Under a protected path the `windows_dir`
/// rule is chosen, whatever the other answers.
pub proof fn law_first_applying_rule_wins(
    rules: Seq<CompiledRule>,
    danger: bool,
    hits: Seq<(bool, bool)>,
    r: Option<int>,
    i: int,
)
    requires
        rule_selected(rules, danger, hits, r),
        hits.len() == rules.len(),
    ensures
        !danger && 0 <= i < rules.len() && hits[i].0 && !hits[i].1 ==> (r matches Some(j) && j <= i && hits[j].0
            && !hits[j].1),
        !danger && r is None ==> forall|k: int| 0 <= k < rules.len() ==> !(#[trigger] hits[k]).0 || hits[k].1,
        danger ==> (r matches Some(j) ==> rules[j].def.id@ == "windows_dir"@),
        danger && 0 <= i < rules.len() && rules[i].def.id@ == "windows_dir"@ ==> (r matches Some(j) && j <= i),
{
    if !danger && 0 <= i < rules.len() && hits[i].0 && !hits[i].1 {
        assert(applies(hits[i]));
        if let Some(j) = r {
            if j > i {
                assert(!applies(hits[i]));
            }
        }
    }
    if danger && 0 <= i < rules.len() && rules[i].def.id@ == "windows_dir"@ {
        assert(is_windows_dir(rules[i]));
        if let Some(j) = r {
            if j > i {
                assert(!is_windows_dir(rules[i]));
            }
        }
    }
    if !danger && r is None {
        assert forall|k: int| 0 <= k < rules.len() implies !(#[trigger] hits[k]).0 || hits[k].1 by {
            assert(!applies(hits[k]));
        }
    }
}

} // verus!
