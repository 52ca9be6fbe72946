//! The AI assistant's rules: which model answers, what a question and its
//! context look like before they leave the machine, and how provider
//! failures are classified.

use vstd::prelude::*;
use crate::error::{err, AppError, ErrorCode};
use crate::models::opt_string_view;
use crate::paths::{desensitize_defined, desensitize_path_checked, desensitized};
use crate::text::{
    chars_of, concat_chars, decimal, decimal_chars, ends_with, push_all, starts_with, starts_with_chars,
    string_of, sub_chars, trim, trim_chars, eq_chars,
};

verus! {

/// Shown under every AI answer.
pub const DISCLAIMER: &'static str = "以上仅供参考，删除操作请在安全清理中自行确认。";

/// The most context items sent with one question.
pub const MAX_CONTEXT_ITEMS: usize = 20;

/// An indexed entry the user attached to a question.
#[derive(Debug, Clone)]
pub struct ContextItem {
    pub path: String,
    pub size_bytes: u64,
    pub is_dir: bool,
    pub risk: Option<String>,
    pub rule_description: Option<String>,
}

/// An answer and the disclaimer shown with it.
#[derive(Debug)]
pub struct AiChatResult {
    pub message: String,
    pub disclaimer: String,
}

/// The outcome of a connection test.
#[derive(Debug)]
pub struct AiTestConnectionResult {
    pub status: String,
    pub message: String,
    pub provider: String,
}

/// The assistant (its chat and connection test talk to the providers).
pub struct AiService;

/// A chat provider: answers a user prompt under a system prompt.
pub trait AiProvider {
    fn chat(&self, system_prompt: &str, user_prompt: &str) -> Result<String, AppError>;
}

/// An installed Ollama model serves the configured one: the same name, the
/// name with a tag after `:`, or a prefix of the configured name.
pub open spec fn model_matches_spec(installed: Seq<char>, target: Seq<char>) -> bool {
    installed == target || starts_with(installed, target.push(':')) || starts_with(target, installed)
}

pub fn model_matches(installed: &str, target: &str) -> (b: bool)
    ensures
        b == model_matches_spec(installed@, target@),
{
    let i = chars_of(installed);
    let t = chars_of(target);
    let mut tagged = t.clone();
    tagged.push(':');
    eq_chars(&i, &t) || starts_with_chars(&i, &tagged) || starts_with_chars(&t, &i)
}

/// At most `max` characters of `text`; a cut text ends with `…`.
pub open spec fn truncated(text: Seq<char>, max: nat) -> Seq<char> {
    if text.len() <= max { text } else { text.take(max as int).push('…') }
}

pub fn truncate(text: &str, max_chars: usize) -> (r: String)
    ensures
        r@ == truncated(text@, max_chars as nat),
{
    let t = chars_of(text);
    if t.len() <= max_chars {
        return text.to_owned();
    }
    let mut cut = sub_chars(&t, 0, max_chars);
    cut.push('…');
    string_of(&cut)
}

/// The question with surrounding whitespace removed; a blank question is refused.
pub fn validate_question(question: &str) -> (r: Result<String, AppError>)
    ensures
        trim(question@).len() == 0 <==> r is Err,
        r matches Ok(q) ==> q@ == trim(question@),
        r matches Err(e) ==> e.code == ErrorCode::BadArgument,
{
    let q = trim_chars(&chars_of(question));
    if q.len() == 0 {
        return Err(err(ErrorCode::BadArgument, "问题不能为空"));
    }
    Ok(string_of(&q))
}

/// The audit summary of a question: its first 40 characters and how many
/// context items (at most 20) went with it.
pub open spec fn chat_summary_spec(question: Seq<char>, context_len: nat) -> Seq<char> {
    let n = if context_len < 20 { context_len } else { 20 };
    "AI 咨询："@ + truncated(question, 40) + "（"@ + decimal(n) + " 条上下文）"@
}

pub fn chat_summary(question: &str, context_len: usize) -> (r: String)
    ensures
        r@ == chat_summary_spec(question@, context_len as nat),
{
    let n: usize = if context_len < MAX_CONTEXT_ITEMS { context_len } else { MAX_CONTEXT_ITEMS };
    let mut out = chars_of("AI 咨询：");
    push_all(&mut out, &chars_of(truncate(question, 40).as_str()));
    push_all(&mut out, &chars_of("（"));
    push_all(&mut out, &decimal_chars(n as u64));
    push_all(&mut out, &chars_of(" 条上下文）"));
    string_of(&out)
}

/// The system prompt: the assistant's role and its hard limits.
pub open spec fn system_prompt_spec() -> Seq<char> {
    "你是 Disk Helper 的磁盘空间分析助手，帮助用户理解文件/文件夹用途与清理风险。"@ + "\n"@
        + "硬性约束："@ + "\n"@
        + "1. 你不能代替用户执行删除，只能给出分析与建议。"@ + "\n"@
        + "2. 若上下文含 risk 字段，以规则引擎 risk 为准；danger 项必须明确警告。"@ + "\n"@
        + "3. 回答结构：是什么 / 能否删除 / 可能影响 / 如何恢复（若适用）。"@ + "\n"@
        + "4. 使用 Markdown，简洁清晰，中文回复。"@
}

pub fn build_system_prompt() -> (r: String)
    ensures
        r@ == system_prompt_spec(),
{
    let nl = chars_of("\n");
    let mut out = chars_of("你是 Disk Helper 的磁盘空间分析助手，帮助用户理解文件/文件夹用途与清理风险。");
    push_all(&mut out, &nl);
    push_all(&mut out, &chars_of("硬性约束："));
    push_all(&mut out, &nl);
    push_all(&mut out, &chars_of("1. 你不能代替用户执行删除，只能给出分析与建议。"));
    push_all(&mut out, &nl);
    push_all(&mut out, &chars_of("2. 若上下文含 risk 字段，以规则引擎 risk 为准；danger 项必须明确警告。"));
    push_all(&mut out, &nl);
    push_all(&mut out, &chars_of("3. 回答结构：是什么 / 能否删除 / 可能影响 / 如何恢复（若适用）。"));
    push_all(&mut out, &nl);
    push_all(&mut out, &chars_of("4. 使用 Markdown，简洁清晰，中文回复。"));
    string_of(&out)
}

/// The user prompt: the question, then the context as JSON text (its paths
/// already desensitized, at most `MAX_CONTEXT_ITEMS` items).
pub open spec fn user_prompt_spec(question: Seq<char>, context_json: Seq<char>) -> Seq<char> {
    "用户问题："@ + question + "\n\n上下文（JSON，路径已脱敏，最多 "@ + decimal(MAX_CONTEXT_ITEMS as nat)
        + " 条）：\n"@ + context_json
}

/// The user prompt around context that is already JSON text.
pub fn user_prompt_text(question: &str, context_json: &str) -> (r: String)
    ensures
        r@ == user_prompt_spec(question@, context_json@),
{
    let mut out = chars_of("用户问题：");
    push_all(&mut out, &chars_of(question));
    push_all(&mut out, &chars_of("\n\n上下文（JSON，路径已脱敏，最多 "));
    push_all(&mut out, &decimal_chars(MAX_CONTEXT_ITEMS as u64));
    push_all(&mut out, &chars_of(" 条）：\n"));
    push_all(&mut out, &chars_of(context_json));
    string_of(&out)
}

/// The context that goes with a question: the first 20 items, each with its
/// path desensitized; `None` when a path cannot be shortened (its cut would
/// fall inside a character).
pub fn prompt_context(items: &Vec<ContextItem>) -> (r: Option<Vec<ContextItem>>)
    ensures
        r is Some <==> forall|i: int| 0 <= i < items.len() && i < 20 ==> desensitize_defined(#[trigger] items@[i].path@),
        r matches Some(v) ==> {
            &&& v.len() == if items.len() < 20 { items.len() } else { 20 }
            &&& forall|i: int| 0 <= i < v.len() ==> {
                &&& (#[trigger] v@[i]).path@ == desensitized(items@[i].path@)
                &&& v@[i].size_bytes == items@[i].size_bytes
                &&& v@[i].is_dir == items@[i].is_dir
                &&& opt_string_view(v@[i].risk) == opt_string_view(items@[i].risk)
                &&& opt_string_view(v@[i].rule_description) == opt_string_view(items@[i].rule_description)
            }
        },
{
    let n: usize = if items.len() < MAX_CONTEXT_ITEMS { items.len() } else { MAX_CONTEXT_ITEMS };
    let mut out: Vec<ContextItem> = Vec::new();
    for i in 0..n
        invariant
            n == if items.len() < 20 { items.len() } else { 20 },
            out.len() == i,
            forall|k: int| 0 <= k < i ==> desensitize_defined(#[trigger] items@[k].path@),
            forall|k: int| 0 <= k < i ==> {
                &&& (#[trigger] out@[k]).path@ == desensitized(items@[k].path@)
                &&& out@[k].size_bytes == items@[k].size_bytes
                &&& out@[k].is_dir == items@[k].is_dir
                &&& opt_string_view(out@[k].risk) == opt_string_view(items@[k].risk)
                &&& opt_string_view(out@[k].rule_description) == opt_string_view(items@[k].rule_description)
            },
    {
        let item = &items[i];
        match desensitize_path_checked(item.path.as_str()) {
            Some(p) => {
                out.push(ContextItem {
                    path: p,
                    size_bytes: item.size_bytes,
                    is_dir: item.is_dir,
                    risk: crate::models::clone_opt_string(&item.risk),
                    rule_description: crate::models::clone_opt_string(&item.rule_description),
                });
            },
            None => return None,
        }
    }
    Some(out)
}

/// A context item as plain values: path, size, folder or not, risk, and
/// the rule's description.
pub open spec fn context_view(item: ContextItem) -> (Seq<char>, u64, bool, Option<Seq<char>>, Option<Seq<char>>) {
    (item.path@, item.size_bytes, item.is_dir, opt_string_view(item.risk), opt_string_view(item.rule_description))
}

pub open spec fn context_views(items: Seq<ContextItem>) -> Seq<(Seq<char>, u64, bool, Option<Seq<char>>, Option<Seq<char>>)> {
    items.map_values(|item: ContextItem| context_view(item))
}

/// The context items as `serde_json` writes them with `to_string_pretty`:
/// an array of objects with the keys `path`, `size_bytes`, `is_dir`, `risk`
/// and `rule_description`.
pub uninterp spec fn context_json_text(
    items: Seq<(Seq<char>, u64, bool, Option<Seq<char>>, Option<Seq<char>>)>,
) -> Seq<char>;

/// Each item as a `serde_json::Value` object, the array written with
/// `serde_json::to_string_pretty` (`[]` should writing fail). Claimed: the
/// text is `context_json_text` of the items' plain values.
#[verifier::external_body]
fn context_json(items: &Vec<ContextItem>) -> (r: String)
    ensures
        r@ == context_json_text(context_views(items@)),
{
    let mut values: Vec<serde_json::Value> = Vec::new();
    for item in items {
        let mut m = serde_json::Map::new();
        m.insert("path".to_owned(), item.path.clone().into());
        m.insert("size_bytes".to_owned(), item.size_bytes.into());
        m.insert("is_dir".to_owned(), item.is_dir.into());
        m.insert("risk".to_owned(), item.risk.clone().into());
        m.insert("rule_description".to_owned(), item.rule_description.clone().into());
        values.push(serde_json::Value::Object(m));
    }
    match serde_json::to_string_pretty(&values) {
        Ok(t) => t,
        Err(_) => "[]".to_owned(),
    }
}

/// What of the context reaches the prompt: the first 20 items, each path
/// desensitized, the other fields as they are.
pub open spec fn prompt_items(items: Seq<ContextItem>) -> Seq<(Seq<char>, u64, bool, Option<Seq<char>>, Option<Seq<char>>)> {
    let n = if items.len() < 20 { items.len() as int } else { 20 };
    Seq::new(n as nat, |i: int| (desensitized(items[i].path@), items[i].size_bytes, items[i].is_dir,
        opt_string_view(items[i].risk), opt_string_view(items[i].rule_description)))
}

/// The user prompt: the question, then the first 20 context items as JSON,
/// each path desensitized.
pub fn build_user_prompt(question: &str, context_items: &Vec<ContextItem>) -> (r: String)
    requires
        forall|i: int| 0 <= i < context_items.len() && i < 20 ==> desensitize_defined(#[trigger] context_items@[i].path@),
    ensures
        r@ == user_prompt_spec(question@, context_json_text(prompt_items(context_items@))),
{
    let limited = match prompt_context(context_items) {
        Some(v) => v,
        None => return String::new(),
    };
    let text = context_json(&limited);
    proof {
        assert(context_views(limited@) =~= prompt_items(context_items@));
    }
    user_prompt_text(question, text.as_str())
}

/// The key a connection test uses: the one given, unless it is absent or
/// blank, in which case the stored key must be read (`None`).
pub fn choose_test_key(api_key: Option<String>) -> (r: Option<String>)
    ensures
        match api_key {
            Some(k) => if trim(k@).len() > 0 { r matches Some(x) && x@ == k@ } else { r is None },
            None => r is None,
        },
{
    match api_key {
        Some(key) => {
            if trim_chars(&chars_of(key.as_str())).len() > 0 {
                Some(key)
            } else {
                None
            }
        },
        None => None,
    }
}

pub open spec fn is_success(status: u16) -> bool {
    200 <= status <= 299
}

pub open spec fn is_server_error(status: u16) -> bool {
    500 <= status <= 599
}

/// The error code for a failed DeepSeek reply: an invalid key (401), a rate
/// limit (429), or a provider error otherwise.
pub open spec fn deepseek_error_code_spec(status: u16) -> ErrorCode {
    if status == 401 {
        ErrorCode::AiInvalidKey
    } else if status == 429 {
        ErrorCode::AiRateLimit
    } else {
        ErrorCode::AiProviderError
    }
}

pub fn deepseek_error_code(status: u16) -> (c: ErrorCode)
    requires
        !is_success(status),
    ensures
        c == deepseek_error_code_spec(status),
{
    if status == 401 {
        ErrorCode::AiInvalidKey
    } else if status == 429 {
        ErrorCode::AiRateLimit
    } else {
        ErrorCode::AiProviderError
    }
}

/// The error code for a failed Ollama reply: a missing model (404) or a
/// provider error otherwise.
pub open spec fn ollama_error_code_spec(status: u16) -> ErrorCode {
    if status == 404 { ErrorCode::AiModelNotFound } else { ErrorCode::AiProviderError }
}

pub fn ollama_error_code(status: u16) -> (c: ErrorCode)
    requires
        !is_success(status),
    ensures
        c == ollama_error_code_spec(status),
{
    if status == 404 { ErrorCode::AiModelNotFound } else { ErrorCode::AiProviderError }
}

pub fn status_is_success(status: u16) -> (b: bool)
    ensures
        b == is_success(status),
{
    200 <= status && status <= 299
}

pub fn status_is_server_error(status: u16) -> (b: bool)
    ensures
        b == is_server_error(status),
{
    500 <= status && status <= 599
}

/// Ollama's answer to `/api/tags`, read as JSON: `None` when the text is
/// not JSON; `Some(None)` when it has no array under `models`; otherwise,
/// for each entry of that array, its `name` where that is a string.
pub uninterp spec fn tags_model_names(body: Seq<char>) -> Option<Option<Seq<Option<Seq<char>>>>>;

pub open spec fn opt_names_view(v: Seq<Option<String>>) -> Seq<Option<Seq<char>>> {
    v.map_values(|o: Option<String>| opt_string_view(o))
}

/// `serde_json::from_str` into a `Value`, then `pointer("/models")` and
/// `as_array`, and for each entry `get("name")` and `as_str`. Claimed: what
/// comes back is `tags_model_names(body)`, with the parse error's text on
/// failure (what that text says is left unstated).
#[verifier::external_body]
fn parse_model_names(body: &str) -> (r: Result<Option<Vec<Option<String>>>, String>)
    ensures
        match r {
            Err(_) => tags_model_names(body@) is None,
            Ok(None) => tags_model_names(body@) == Some(None::<Seq<Option<Seq<char>>>>),
            Ok(Some(v)) => tags_model_names(body@) == Some(Some(opt_names_view(v@))),
        },
{
    let payload: serde_json::Value = match serde_json::from_str(body) {
        Ok(v) => v,
        Err(e) => return Err(e.to_string()),
    };
    let models = match payload.pointer("/models").and_then(serde_json::Value::as_array) {
        Some(m) => m,
        None => return Ok(None),
    };
    let mut names: Vec<Option<String>> = Vec::new();
    for entry in models {
        names.push(entry.get("name").and_then(serde_json::Value::as_str).map(str::to_owned));
    }
    Ok(Some(names))
}

/// Some entry names an installed model that serves `target`.
pub open spec fn some_name_matches(names: Seq<Option<Seq<char>>>, target: Seq<char>) -> bool {
    exists|i: int| 0 <= i < names.len() && (#[trigger] names[i] matches Some(n) && model_matches_spec(n, target))
}

/// What the model check answers for the names in Ollama's model list: fine
/// when one of them serves the configured model, otherwise the advice to
/// pull it.
pub open spec fn model_check_spec(names: Seq<Option<Seq<char>>>, model: Seq<char>, r: Result<(), AppError>) -> bool {
    if some_name_matches(names, model) {
        r is Ok
    } else {
        r matches Err(e) && e.code == ErrorCode::AiModelNotFound && e.message@ == "未找到模型 "@ + model
            + "，请执行 ollama pull "@ + model && e.target is None
    }
}

/// Whether the configured model is among the installed ones (entries
/// without a name are passed over).
pub fn model_check(names: &Vec<Option<String>>, model: &str) -> (r: Result<(), AppError>)
    ensures
        model_check_spec(opt_names_view(names@), model@, r),
{
    let ghost v = opt_names_view(names@);
    for i in 0..names.len()
        invariant
            v == opt_names_view(names@),
            forall|k: int| 0 <= k < i ==> !(#[trigger] v[k] matches Some(n) && model_matches_spec(n, model@)),
    {
        if let Some(n) = &names[i] {
            assert(v[i as int] == Some(n@));
            if model_matches(n.as_str(), model) {
                assert(v[i as int] matches Some(x) && model_matches_spec(x, model@));
                return Ok(());
            }
        }
    }
    let m = chars_of(model);
    let mut out = chars_of("未找到模型 ");
    push_all(&mut out, &m);
    push_all(&mut out, &chars_of("，请执行 ollama pull "));
    push_all(&mut out, &m);
    let text = string_of(&out);
    Err(err(ErrorCode::AiModelNotFound, text.as_str()))
}

/// The model check of the local provider, from Ollama's answer to
/// `/api/tags` (its status, the status as text, and the body): refused when
/// the status is not a success, when the body is not JSON or has no model
/// list, and when no listed model serves the configured one.
pub fn ollama_tags_outcome(status: u16, status_text: &str, body: &str, model: &str) -> (r: Result<(), AppError>)
    ensures
        !is_success(status) ==> (r matches Err(e) && e.code == ErrorCode::AiOllamaUnavailable && e.message@
            == "Ollama 健康检查失败 ("@ + status_text@ + ")"@),
        is_success(status) ==> match tags_model_names(body@) {
            None => r matches Err(e) && e.code == ErrorCode::AiOllamaUnavailable && starts_with(
                e.message@,
                "Ollama 响应解析失败: "@,
            ),
            Some(None) => r matches Err(e) && e.code == ErrorCode::AiOllamaUnavailable && e.message@
                == "Ollama 响应格式异常"@,
            Some(Some(names)) => model_check_spec(names, model@, r),
        },
{
    if !status_is_success(status) {
        let mut out = chars_of("Ollama 健康检查失败 (");
        push_all(&mut out, &chars_of(status_text));
        push_all(&mut out, &chars_of(")"));
        let text = string_of(&out);
        return Err(err(ErrorCode::AiOllamaUnavailable, text.as_str()));
    }
    match parse_model_names(body) {
        Err(e) => {
            let prefix = chars_of("Ollama 响应解析失败: ");
            let text = string_of(&concat_chars(&prefix, &chars_of(e.as_str())));
            proof {
                assert(text@.subrange(0, prefix@.len() as int) =~= prefix@);
            }
            Err(err(ErrorCode::AiOllamaUnavailable, text.as_str()))
        },
        Ok(None) => Err(err(ErrorCode::AiOllamaUnavailable, "Ollama 响应格式异常")),
        Ok(Some(names)) => model_check(&names, model),
    }
}

/// A chat reply, read as JSON: `None` when the text is not JSON;
/// `Some(None)` when there is no string at `/choices/0/message/content`;
/// otherwise that string.
pub uninterp spec fn reply_content(body: Seq<char>) -> Option<Option<Seq<char>>>;

/// `serde_json::from_str` into a `Value`, then
/// `pointer("/choices/0/message/content")` and `as_str`. Claimed: what
/// comes back is `reply_content(body)`, with the parse error's text on
/// failure (what that text says is left unstated).
#[verifier::external_body]
fn parse_reply_content(body: &str) -> (r: Result<Option<String>, String>)
    ensures
        match r {
            Err(_) => reply_content(body@) is None,
            Ok(c) => reply_content(body@) == Some(opt_string_view(c)),
        },
{
    let payload: serde_json::Value = match serde_json::from_str(body) {
        Ok(v) => v,
        Err(e) => return Err(e.to_string()),
    };
    Ok(payload.pointer("/choices/0/message/content").and_then(serde_json::Value::as_str).map(str::to_owned))
}

/// The provider named in messages: DeepSeek in the cloud, Ollama locally.
pub open spec fn provider_name(cloud: bool) -> Seq<char> {
    if cloud { "DeepSeek"@ } else { "Ollama"@ }
}

/// The error for a failed chat reply: a fixed message for an invalid key
/// (401) or a rate limit (429) from DeepSeek and for a missing model (404)
/// from Ollama; otherwise a service fault (5xx) or a failed request, with
/// the status and the first 200 characters of the reply's text.
pub open spec fn reply_failure(cloud: bool, status: u16, status_text: Seq<char>, text: Seq<char>) -> (ErrorCode, Seq<char>) {
    let code = if cloud { deepseek_error_code_spec(status) } else { ollama_error_code_spec(status) };
    let shown = if text.len() <= 200 { text } else { text.take(200) };
    if cloud && status == 401 {
        (code, "DeepSeek API Key 无效"@)
    } else if cloud && status == 429 {
        (code, "DeepSeek 请求过于频繁"@)
    } else if !cloud && status == 404 {
        (code, "Ollama 模型未找到，请确认已 pull 目标模型"@)
    } else if is_server_error(status) {
        (code, provider_name(cloud) + " 服务异常 ("@ + status_text + "): "@ + shown)
    } else {
        (code, provider_name(cloud) + " 请求失败 ("@ + status_text + "): "@ + shown)
    }
}

/// The answer of a chat provider, from its reply (the status, the status as
/// text, and the reply's text): the content of the first choice on success,
/// otherwise the error that the provider and the status call for.
pub fn reply_outcome(cloud: bool, status: u16, status_text: &str, body: &str) -> (r: Result<String, AppError>)
    ensures
        is_success(status) ==> match reply_content(body@) {
            None => r matches Err(e) && e.code == ErrorCode::AiProviderError && starts_with(
                e.message@,
                provider_name(cloud) + " 响应解析失败: "@,
            ),
            Some(None) => r matches Err(e) && e.code == ErrorCode::AiProviderError && e.message@
                == provider_name(cloud) + " 响应缺少 content"@,
            Some(Some(c)) => r matches Ok(out) && out@ == c,
        },
        !is_success(status) ==> (r matches Err(e) && (e.code, e.message@) == reply_failure(cloud, status,
            status_text@, body@)),
{
    let name = if cloud { chars_of("DeepSeek") } else { chars_of("Ollama") };
    if status_is_success(status) {
        return match parse_reply_content(body) {
            Err(e) => {
                let prefix = concat_chars(&name, &chars_of(" 响应解析失败: "));
                let text = string_of(&concat_chars(&prefix, &chars_of(e.as_str())));
                proof {
                    assert(text@.subrange(0, prefix@.len() as int) =~= prefix@);
                }
                Err(err(ErrorCode::AiProviderError, text.as_str()))
            },
            Ok(None) => {
                let text = string_of(&concat_chars(&name, &chars_of(" 响应缺少 content")));
                Err(err(ErrorCode::AiProviderError, text.as_str()))
            },
            Ok(Some(c)) => Ok(c),
        };
    }
    let code = if cloud { deepseek_error_code(status) } else { ollama_error_code(status) };
    if cloud && status == 401 {
        return Err(err(code, "DeepSeek API Key 无效"));
    }
    if cloud && status == 429 {
        return Err(err(code, "DeepSeek 请求过于频繁"));
    }
    if !cloud && status == 404 {
        return Err(err(code, "Ollama 模型未找到，请确认已 pull 目标模型"));
    }
    let all = chars_of(body);
    let shown = if all.len() <= 200 { all } else { sub_chars(&all, 0, 200) };
    let mut out = name;
    if status_is_server_error(status) {
        push_all(&mut out, &chars_of(" 服务异常 ("));
    } else {
        push_all(&mut out, &chars_of(" 请求失败 ("));
    }
    push_all(&mut out, &chars_of(status_text));
    push_all(&mut out, &chars_of("): "));
    push_all(&mut out, &shown);
    let text = string_of(&out);
    Err(err(code, text.as_str()))
}

/// The system prompt of the cloud connection test.
pub const PROBE_SYSTEM_PROMPT: &'static str = "You are a connectivity probe. Reply with OK only.";

/// The user prompt of the cloud connection test.
pub const PROBE_USER_PROMPT: &'static str = "ping";

/// The result of a connection test that went through: with DeepSeek in the
/// cloud, or with the configured Ollama model locally.
pub fn connection_success(cloud: bool, model: &str) -> (r: AiTestConnectionResult)
    ensures
        r.status@ == "success"@,
        cloud ==> r.message@ == "DeepSeek API 连接成功"@ && r.provider@ == "deepseek"@,
        !cloud ==> r.message@ == "Ollama 连接成功，模型 "@ + model@ + " 可用"@ && r.provider@ == "ollama"@,
{
    if cloud {
        return AiTestConnectionResult {
            status: String::from_str("success"),
            message: String::from_str("DeepSeek API 连接成功"),
            provider: String::from_str("deepseek"),
        };
    }
    let mut out = chars_of("Ollama 连接成功，模型 ");
    push_all(&mut out, &chars_of(model));
    push_all(&mut out, &chars_of(" 可用"));
    AiTestConnectionResult {
        status: String::from_str("success"),
        message: string_of(&out),
        provider: String::from_str("ollama"),
    }
}

/// An installed model serves the configured one exactly when its name is
/// the configured name, the configured name followed by `:` and a tag, or a
/// leading part of the configured name: a name that goes on past the
/// configured one with anything but `:` does not.
pub proof fn law_model_match_forms(installed: Seq<char>, target: Seq<char>)
    ensures
        installed == target ==> model_matches_spec(installed, target),
        installed.len() <= target.len() && target.take(installed.len() as int) == installed
            ==> model_matches_spec(installed, target),
        installed.len() > target.len() && installed.take(target.len() as int) == target
            ==> (model_matches_spec(installed, target) <==> installed[target.len() as int] == ':'),
        installed.len() > target.len() && installed.take(target.len() as int) != target
            ==> !model_matches_spec(installed, target),
        installed.len() <= target.len() && target.take(installed.len() as int) != installed
            ==> !model_matches_spec(installed, target),
{
    let tagged = target.push(':');
    if installed.len() > target.len() && installed.take(target.len() as int) == target {
        if installed[target.len() as int] == ':' {
            assert(installed.take(tagged.len() as int) =~= tagged);
        } else {
            assert(installed.take(tagged.len() as int)[target.len() as int] != tagged[target.len() as int]);
        }
    }
    if installed == target {
        assert(target.take(installed.len() as int) =~= installed);
    }
    if installed.len() > target.len() && installed.take(target.len() as int) != target {
        if starts_with(installed, tagged) {
            assert(installed.take(target.len() as int) =~= tagged.take(target.len() as int));
            assert(tagged.take(target.len() as int) =~= target);
        }
    }
}

/// A text within the limit is kept whole; a longer one keeps exactly its
/// first `max` characters and is marked by a trailing `…`.
pub proof fn law_truncated_keeps_start(text: Seq<char>, max: nat)
    ensures
        text.len() <= max ==> truncated(text, max) == text,
        text.len() > max ==> truncated(text, max).len() == max + 1 && truncated(text, max).take(max as int)
            == text.take(max as int) && truncated(text, max).last() == '…',
{
    if text.len() > max {
        assert(truncated(text, max).take(max as int) =~= text.take(max as int));
    }
}

/// The audit summary of a question counts at most 20 context items: any
/// larger number reads as 20, and a smaller one as itself.
pub proof fn law_chat_summary_caps_context(question: Seq<char>, n: nat, m: nat)
    ensures
        n >= 20 && m >= 20 ==> chat_summary_spec(question, n) == chat_summary_spec(question, m),
        n < 20 ==> chat_summary_spec(question, n) == "AI 咨询："@ + truncated(question, 40) + "（"@ + decimal(n)
            + " 条上下文）"@,
        n >= 20 ==> chat_summary_spec(question, n) == "AI 咨询："@ + truncated(question, 40) + "（"@ + decimal(20)
            + " 条上下文）"@,
{
}

/// A failed reply is reported with the provider's name, the status and at
/// most the first 200 characters of the reply, unless the status has a
/// message of its own: an invalid key (401) or a rate limit (429) at
/// DeepSeek, a missing model (404) at Ollama. Every other failure is a
/// provider error.
pub proof fn law_reply_failure_reports(cloud: bool, status: u16, status_text: Seq<char>, text: Seq<char>)
    ensures
        cloud && status == 401 ==> reply_failure(cloud, status, status_text, text).0 == ErrorCode::AiInvalidKey,
        cloud && status == 429 ==> reply_failure(cloud, status, status_text, text).0 == ErrorCode::AiRateLimit,
        !cloud && status == 404 ==> reply_failure(cloud, status, status_text, text).0 == ErrorCode::AiModelNotFound,
        !(cloud && (status == 401 || status == 429)) && !(!cloud && status == 404) ==> {
            let m = reply_failure(cloud, status, status_text, text).1;
            let shown = if text.len() <= 200 { text } else { text.take(200) };
            &&& reply_failure(cloud, status, status_text, text).0 == ErrorCode::AiProviderError
            &&& starts_with(m, provider_name(cloud))
            &&& ends_with(m, status_text + "): "@ + shown)
            &&& shown.len() <= 200
        },
{
    let shown = if text.len() <= 200 { text } else { text.take(200) };
    let m = reply_failure(cloud, status, status_text, text).1;
    let name = provider_name(cloud);
    if !(cloud && (status == 401 || status == 429)) && !(!cloud && status == 404) {
        let mid = if is_server_error(status) { " 服务异常 ("@ } else { " 请求失败 ("@ };
        assert(m == name + mid + status_text + "): "@ + shown);
        assert(m.take(name.len() as int) =~= name);
        let tail = status_text + "): "@ + shown;
        assert(m =~= (name + mid) + tail);
        assert(m.skip(m.len() - tail.len()) =~= tail);
    }
}

} // verus!
