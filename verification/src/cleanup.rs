//! Cleanup requests: which paths go to the quarantine, under which risk,
//! whether a dangerous path was confirmed, and the tally afterwards.

use vstd::prelude::*;
use crate::error::{err_at, AppError, ErrorCode};
use crate::models::{CleanupExecuteItem, CleanupFailedItem};
use crate::rules::{opt_index, rule_selected, selected_for_answers, GlobAnswers, RulesEngine};
use crate::text::{chars_of, decimal, decimal_chars, eq_chars, push_all, string_of};
use crate::time::opt_view;

verus! {

/// What the user types to confirm cleaning up a dangerous path.
pub const DANGER_CONFIRM_TEXT: &'static str = "确认清理";

/// How many paths went to the quarantine, and those that could not.
#[derive(Debug)]
pub struct CleanupExecuteResult {
    pub success_count: u32,
    pub failed: Vec<CleanupFailedItem>,
}

/// The paths of the chosen items, in order.
pub fn paths_from_items(items: &Vec<CleanupExecuteItem>) -> (r: Vec<String>)
    ensures
        r.len() == items.len(),
        forall|i: int| 0 <= i < r.len() ==> (#[trigger] r@[i])@ == items@[i].path@,
{
    let mut r: Vec<String> = Vec::new();
    for i in 0..items.len()
        invariant
            r.len() == i,
            forall|k: int| 0 <= k < i ==> (#[trigger] r@[k])@ == items@[k].path@,
    {
        r.push(items[i].path.clone());
    }
    r
}

/// A request needs at least one path and the quarantine as its target.
pub fn check_cleanup_request(paths: &Vec<String>, target: &str) -> (r: Result<(), AppError>)
    ensures
        r is Ok <==> paths.len() > 0 && target@ == "quarantine"@,
        r matches Err(e) ==> e.code == ErrorCode::BadArgument && (e.target matches Some(t) && t@ == "cleanup"@),
        paths.len() == 0 ==> (r matches Err(e) && e.message@ == "请先勾选要清理的项"@),
        paths.len() > 0 && target@ != "quarantine"@ ==> (r matches Err(e) && e.message@
            == "v1 当前仅支持移入隔离区（quarantine）"@),
{
    if paths.len() == 0 {
        return Err(err_at(ErrorCode::BadArgument, "请先勾选要清理的项", "cleanup"));
    }
    if !eq_chars(&chars_of(target), &chars_of("quarantine")) {
        return Err(err_at(ErrorCode::BadArgument, "v1 当前仅支持移入隔离区（quarantine）", "cleanup"));
    }
    Ok(())
}

/// One path to move, with the risk and rule it falls under.
#[derive(Debug)]
pub struct CleanupPlanItem {
    pub path: String,
    pub risk: String,
    pub rule_id: Option<String>,
}

/// The risk recorded for a path: its rule's, or `caution` when no rule matches.
pub open spec fn plan_risk(engine: RulesEngine, m: Option<int>) -> Seq<char> {
    match m {
        Some(i) => engine.cleanup_rules@[i].def.risk@,
        None => "caution"@,
    }
}

/// Some path falls under a rule of risk `danger`.
pub open spec fn any_danger(engine: RulesEngine, matches: Seq<Option<int>>) -> bool {
    exists|k: int| 0 <= k < matches.len() && #[trigger] plan_risk(engine, matches[k]) == "danger"@
        && matches[k] is Some
}

/// The plan for the paths, each under the rule `matches` names: refused
/// unless the confirmation was typed when some path is dangerous.
pub open spec fn plan_described(
    engine: RulesEngine,
    paths: Seq<String>,
    matches: Seq<Option<int>>,
    token: Option<Seq<char>>,
    r: Result<Vec<CleanupPlanItem>, AppError>,
) -> bool {
    if any_danger(engine, matches) && token != Some("确认清理"@) {
        r matches Err(e) && e.code == ErrorCode::DangerNotConfirmed && e.message@ == "请输入「确认清理」以继续"@
            && (e.target matches Some(t) && t@ == "cleanup"@)
    } else {
        r matches Ok(plan) && plan.len() == paths.len() && forall|k: int| 0 <= k < plan.len() ==> {
            &&& (#[trigger] plan@[k]).path@ == paths[k]@
            &&& plan@[k].risk@ == plan_risk(engine, matches[k])
            &&& match matches[k] {
                Some(i) => plan@[k].rule_id matches Some(id) && id@ == engine.cleanup_rules@[i].def.id@,
                None => plan@[k].rule_id is None,
            }
        }
    }
}

/// The plan for the paths, given what the glob sets answered for each
/// path: each path falls under the rule `select_rule` chooses for its
/// answers; refused when a path falls under a `danger` rule and the
/// confirmation text was not typed.
pub fn plan_cleanup_from_answers(
    engine: &RulesEngine,
    paths: &Vec<String>,
    answers: &Vec<GlobAnswers>,
    danger_confirm_token: Option<&str>,
) -> (r: Result<Vec<CleanupPlanItem>, AppError>)
    requires
        answers.len() == paths.len(),
        forall|k: int| 0 <= k < answers.len() ==> (#[trigger] answers@[k]).hits.len() == engine.cleanup_rules.len(),
    ensures
        exists|matches: Seq<Option<int>>| {
            &&& #[trigger] selected_for_answers(engine.cleanup_rules@, answers@, matches)
            &&& plan_described(*engine, paths@, matches, opt_view(danger_confirm_token), r)
        },
{
    let mut plan: Vec<CleanupPlanItem> = Vec::new();
    let ghost mut matches: Seq<Option<int>> = Seq::empty();
    let mut has_danger = false;
    let danger = chars_of("danger");
    for k in 0..paths.len()
        invariant
            danger@ == "danger"@,
            answers.len() == paths.len(),
            forall|k: int| 0 <= k < answers.len() ==> (#[trigger] answers@[k]).hits.len() == engine.cleanup_rules.len(),
            plan.len() == k,
            matches.len() == k,
            forall|j: int| 0 <= j < k ==> #[trigger] rule_selected(engine.cleanup_rules@, answers@[j].danger,
                answers@[j].hits@, matches[j]),
            forall|j: int| 0 <= j < k ==> (#[trigger] matches[j] matches Some(i) ==> 0 <= i < engine.cleanup_rules.len()),
            has_danger == exists|j: int| 0 <= j < k && #[trigger] plan_risk(*engine, matches[j]) == "danger"@
                && matches[j] is Some,
            forall|j: int| 0 <= j < k ==> {
                &&& (#[trigger] plan@[j]).path@ == paths@[j]@
                &&& plan@[j].risk@ == plan_risk(*engine, matches[j])
                &&& match matches[j] {
                    Some(i) => plan@[j].rule_id matches Some(id) && id@ == engine.cleanup_rules@[i].def.id@,
                    None => plan@[j].rule_id is None,
                }
            },
    {
        let m = engine.select_rule(answers[k].danger, &answers[k].hits);
        let ghost prev = matches;
        let ghost old_has_danger = has_danger;
        proof {
            matches = matches.push(opt_index(m));
            reveal_strlit("caution");
            reveal_strlit("danger");
            assert("caution"@[0] != "danger"@[0]);
            assert(matches[k as int] == opt_index(m));
            assert forall|j: int| 0 <= j < k implies matches[j] == prev[j] by {}
        }
        let item = match m {
            Some(i) => {
                let def = &engine.cleanup_rules[i].def;
                if eq_chars(&chars_of(def.risk.as_str()), &danger) {
                    has_danger = true;
                }
                CleanupPlanItem { path: paths[k].clone(), risk: def.risk.clone(), rule_id: Some(def.id.clone()) }
            },
            None => CleanupPlanItem { path: paths[k].clone(), risk: "caution".to_owned(), rule_id: None },
        };
        plan.push(item);
        assert(plan@[k as int].path@ == paths@[k as int]@);
        proof {
            assert forall|j: int| 0 <= j < k implies matches[j] == prev[j] by {}
            if has_danger {
                if old_has_danger {
                    let j = choose|j: int| 0 <= j < k && #[trigger] plan_risk(*engine, prev[j]) == "danger"@
                        && prev[j] is Some;
                    assert(matches[j] == prev[j]);
                    assert(plan_risk(*engine, matches[j]) == "danger"@);
                } else {
                    assert(plan_risk(*engine, matches[k as int]) == "danger"@);
                }
            } else {
                assert forall|j: int| 0 <= j < k + 1 implies !(#[trigger] plan_risk(*engine, matches[j]) == "danger"@
                    && matches[j] is Some) by {
                    if j < k {
                        assert(matches[j] == prev[j]);
                    }
                }
            }
        }
    }
    assert(selected_for_answers(engine.cleanup_rules@, answers@, matches));
    let confirmed = match danger_confirm_token {
        Some(t) => eq_chars(&chars_of(t), &chars_of(DANGER_CONFIRM_TEXT)),
        None => false,
    };
    if has_danger && !confirmed {
        let e = err_at(ErrorCode::DangerNotConfirmed, "请输入「确认清理」以继续", "cleanup");
        assert(plan_described(*engine, paths@, matches, opt_view(danger_confirm_token), Err(e)));
        return Err(e);
    }
    assert(plan_described(*engine, paths@, matches, opt_view(danger_confirm_token), Ok(plan)));
    Ok(plan)
}

/// Matches every path against the rules and builds the plan: refused when
/// a path falls under a `danger` rule and the confirmation text was not typed.
pub fn plan_cleanup(engine: &RulesEngine, paths: &Vec<String>, danger_confirm_token: Option<&str>) -> (r: Result<
    Vec<CleanupPlanItem>,
    AppError,
>)
    ensures
        exists|answers: Seq<GlobAnswers>, matches: Seq<Option<int>>| {
            &&& answers.len() == paths.len()
            &&& forall|k: int| 0 <= k < answers.len() ==> #[trigger] engine.answers_for(paths@[k]@, answers[k].danger,
                answers[k].hits@)
            &&& #[trigger] selected_for_answers(engine.cleanup_rules@, answers, matches)
            &&& #[trigger] plan_described(*engine, paths@, matches, opt_view(danger_confirm_token), r)
        },
{
    let mut answers: Vec<GlobAnswers> = Vec::new();
    for k in 0..paths.len()
        invariant
            answers.len() == k,
            forall|j: int| 0 <= j < k ==> (#[trigger] answers@[j]).hits.len() == engine.cleanup_rules.len(),
            forall|j: int| 0 <= j < k ==> engine.answers_for(paths@[j]@, (#[trigger] answers@[j]).danger, answers@[j].hits@),
    {
        let a = engine.glob_answers(paths[k].as_str());
        answers.push(a);
        assert(answers@[k as int] == a);
    }
    let r = plan_cleanup_from_answers(engine, paths, &answers, danger_confirm_token);
    assert(forall|k: int| 0 <= k < answers@.len() ==> #[trigger] engine.answers_for(paths@[k]@, answers@[k].danger,
        answers@[k].hits@));
    r
}

/// Safe cleanup: when a path falls under a rule of risk `danger` and the
/// confirmation text was not typed, the cleanup is refused and nothing is
/// planned; once it is typed, every path is planned under the rule it falls
/// under.
pub proof fn law_danger_needs_confirmation(
    engine: RulesEngine,
    paths: Seq<String>,
    answers: Seq<GlobAnswers>,
    matches: Seq<Option<int>>,
    token: Option<Seq<char>>,
    r: Result<Vec<CleanupPlanItem>, AppError>,
    k: int,
)
    requires
        selected_for_answers(engine.cleanup_rules@, answers, matches),
        plan_described(engine, paths, matches, token, r),
        answers.len() == paths.len(),
        0 <= k < matches.len(),
        matches[k] matches Some(i) && engine.cleanup_rules@[i].def.risk@ == "danger"@,
    ensures
        token != Some("确认清理"@) ==> (r matches Err(e) && e.code == ErrorCode::DangerNotConfirmed),
        token == Some("确认清理"@) ==> (r matches Ok(plan) && plan.len() == paths.len()
            && (plan@[k].risk@ == "danger"@)),
{
    assert(rule_selected(engine.cleanup_rules@, answers[k].danger, answers[k].hits@, matches[k]));
    assert(plan_risk(engine, matches[k]) == "danger"@);
    assert(any_danger(engine, matches));
}

/// The running count of a cleanup.
#[derive(Debug)]
pub struct CleanupTally {
    pub success_count: u32,
    pub released_bytes: u64,
    pub failed: Vec<CleanupFailedItem>,
}

impl CleanupTally {
    pub fn new() -> (t: Self)
        ensures
            t.success_count == 0,
            t.released_bytes == 0,
            t.failed.len() == 0,
    {
        CleanupTally { success_count: 0, released_bytes: 0, failed: Vec::new() }
    }

    /// A path of `size_bytes` went to the quarantine.
    pub fn record_success(&mut self, size_bytes: u64)
        requires
            old(self).success_count < u32::MAX,
            old(self).released_bytes + size_bytes <= u64::MAX,
        ensures
            final(self).success_count == old(self).success_count + 1,
            final(self).released_bytes == old(self).released_bytes + size_bytes,
            final(self).failed@ == old(self).failed@,
    {
        self.success_count = self.success_count + 1;
        self.released_bytes = self.released_bytes + size_bytes;
    }

    /// A path could not be moved, for this reason.
    pub fn record_failure(&mut self, path: String, reason: String)
        ensures
            final(self).success_count == old(self).success_count,
            final(self).released_bytes == old(self).released_bytes,
            final(self).failed.len() == old(self).failed.len() + 1,
            final(self).failed@.take(old(self).failed.len() as int) == old(self).failed@,
            final(self).failed@.last().path@ == path@,
            final(self).failed@.last().reason@ == reason@,
    {
        self.failed.push(CleanupFailedItem { path, reason });
    }

    /// The audit summary and result when anything was moved: how many items
    /// and bytes, and `success` or, with failures, `partial`.
    pub fn summary(&self) -> (r: Option<(String, &'static str)>)
        ensures
            self.success_count == 0 ==> r is None,
            self.success_count > 0 ==> (r matches Some(s) && s.0@ == "移入隔离区 "@ + decimal(
                self.success_count as nat,
            ) + " 项，释放约 "@ + decimal(self.released_bytes as nat) + " 字节"@ && s.1@ == if self.failed.len()
                == 0 {
                "success"@
            } else {
                "partial"@
            }),
    {
        if self.success_count == 0 {
            return None;
        }
        let mut out = chars_of("移入隔离区 ");
        push_all(&mut out, &decimal_chars(self.success_count as u64));
        push_all(&mut out, &chars_of(" 项，释放约 "));
        push_all(&mut out, &decimal_chars(self.released_bytes));
        push_all(&mut out, &chars_of(" 字节"));
        let result = if self.failed.len() == 0 { "success" } else { "partial" };
        Some((string_of(&out), result))
    }

    /// The result of the cleanup.
    pub fn into_result(self) -> (r: CleanupExecuteResult)
        ensures
            r.success_count == self.success_count,
            r.failed@ == self.failed@,
    {
        CleanupExecuteResult { success_count: self.success_count, failed: self.failed }
    }
}

} // verus!
