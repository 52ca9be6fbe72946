//! Application settings: their defaults and how a save request changes them.

use vstd::prelude::*;
use crate::models::opt_string_view;
use crate::paths::{joined_below, not_verbatim, path_join};
use crate::text::{
    chars_of, lemma_trim_end_char_last, string_of, trim, trim_chars, trim_end_char, trim_end_char_chars,
};

verus! {

/// Where AI questions go: the local Ollama or the DeepSeek cloud.
#[derive(Debug, Clone, Copy, PartialEq, Eq, Structural)]
pub enum AiMode {
    Local,
    Cloud,
}

/// Where cleaned-up files go.
#[derive(Debug, Clone, Copy, PartialEq, Eq, Structural)]
pub enum SoftDeleteTarget {
    Quarantine,
    RecycleBin,
}

/// The user's settings.
#[derive(Debug)]
pub struct AppSettings {
    pub theme: String,
    pub ai_mode: AiMode,
    pub ollama_base_url: String,
    pub ollama_model: String,
    pub has_api_key: bool,
    pub quarantine_root: String,
    pub retention_days: u32,
    pub admin_scan_enabled: bool,
    pub warning_threshold_gb: u32,
    pub critical_threshold_gb: u32,
    pub soft_delete_target: SoftDeleteTarget,
}

/// A save request: every field present is changed, the others kept.
#[derive(Debug)]
pub struct ConfigSaveInput {
    pub theme: Option<String>,
    pub ai_mode: Option<AiMode>,
    pub ollama_base_url: Option<String>,
    pub ollama_model: Option<String>,
    pub api_key: Option<String>,
    pub quarantine_root: Option<String>,
    pub retention_days: Option<u32>,
    pub admin_scan_enabled: Option<bool>,
    pub warning_threshold_gb: Option<u32>,
    pub critical_threshold_gb: Option<u32>,
    pub soft_delete_target: Option<SoftDeleteTarget>,
}

impl Default for ConfigSaveInput {
    fn default() -> (i: Self)
        ensures
            i.theme is None,
            i.ai_mode is None,
            i.ollama_base_url is None,
            i.ollama_model is None,
            i.api_key is None,
            i.quarantine_root is None,
            i.retention_days is None,
            i.admin_scan_enabled is None,
            i.warning_threshold_gb is None,
            i.critical_threshold_gb is None,
            i.soft_delete_target is None,
    {
        ConfigSaveInput {
            theme: None,
            ai_mode: None,
            ollama_base_url: None,
            ollama_model: None,
            api_key: None,
            quarantine_root: None,
            retention_days: None,
            admin_scan_enabled: None,
            warning_threshold_gb: None,
            critical_threshold_gb: None,
            soft_delete_target: None,
        }
    }
}

/// The settings as plain values.
pub struct SettingsView {
    pub theme: Seq<char>,
    pub ai_mode: AiMode,
    pub ollama_base_url: Seq<char>,
    pub ollama_model: Seq<char>,
    pub has_api_key: bool,
    pub quarantine_root: Seq<char>,
    pub retention_days: u32,
    pub admin_scan_enabled: bool,
    pub warning_threshold_gb: u32,
    pub critical_threshold_gb: u32,
    pub soft_delete_target: SoftDeleteTarget,
}

impl View for AppSettings {
    type V = SettingsView;

    open spec fn view(&self) -> SettingsView {
        SettingsView {
            theme: self.theme@,
            ai_mode: self.ai_mode,
            ollama_base_url: self.ollama_base_url@,
            ollama_model: self.ollama_model@,
            has_api_key: self.has_api_key,
            quarantine_root: self.quarantine_root@,
            retention_days: self.retention_days,
            admin_scan_enabled: self.admin_scan_enabled,
            warning_threshold_gb: self.warning_threshold_gb,
            critical_threshold_gb: self.critical_threshold_gb,
            soft_delete_target: self.soft_delete_target,
        }
    }
}

impl AppSettings {
    /// The settings before the user changed any: system theme, local AI
    /// with `deepseek-r1:1.5b` at `http://127.0.0.1:11434`, no API key,
    /// quarantine under the data folder, 30 days' retention, no admin scan,
    /// warnings at 10 GB and 2 GB free, soft delete to the quarantine.
    pub fn defaults(data_dir: &str) -> (s: Self)
        ensures
            s.theme@ == "system"@,
            s.ai_mode == AiMode::Local,
            s.ollama_base_url@ == "http://127.0.0.1:11434"@,
            s.ollama_model@ == "deepseek-r1:1.5b"@,
            !s.has_api_key,
            not_verbatim(data_dir@) ==> joined_below(data_dir@, "quarantine"@, s.quarantine_root@),
            s.retention_days == 30,
            !s.admin_scan_enabled,
            s.warning_threshold_gb == 10,
            s.critical_threshold_gb == 2,
            s.soft_delete_target == SoftDeleteTarget::Quarantine,
    {
        proof {
            reveal_strlit("quarantine");
        }
        let quarantine_root = path_join(data_dir, "quarantine");
        AppSettings {
            theme: "system".to_owned(),
            ai_mode: AiMode::Local,
            ollama_base_url: "http://127.0.0.1:11434".to_owned(),
            ollama_model: "deepseek-r1:1.5b".to_owned(),
            has_api_key: false,
            quarantine_root,
            retention_days: 30,
            admin_scan_enabled: false,
            warning_threshold_gb: 10,
            critical_threshold_gb: 2,
            soft_delete_target: SoftDeleteTarget::Quarantine,
        }
    }
}

/// What a save does to the stored API key.
#[derive(Debug)]
pub enum ApiKeyChange {
    /// Leave it as it is.
    Keep,
    /// Remove it.
    Delete,
    /// Store this (trimmed) key.
    Store(String),
}

pub open spec fn pick<T>(o: Option<T>, current: T) -> T {
    match o {
        Some(v) => v,
        None => current,
    }
}

pub open spec fn pick_text(o: Option<String>, current: Seq<char>) -> Seq<char> {
    match o {
        Some(v) => v@,
        None => current,
    }
}

/// The settings after a save request: each field given replaces the old
/// one, except that the Ollama address loses its trailing `/`s and the
/// retention is at least one day; an API key given makes `has_api_key`
/// say whether it is non-blank after trimming.
pub open spec fn applied(old: SettingsView, input: ConfigSaveInput) -> SettingsView {
    SettingsView {
        theme: pick_text(input.theme, old.theme),
        ai_mode: pick(input.ai_mode, old.ai_mode),
        ollama_base_url: match input.ollama_base_url {
            Some(u) => trim_end_char(u@, '/'),
            None => old.ollama_base_url,
        },
        ollama_model: pick_text(input.ollama_model, old.ollama_model),
        has_api_key: match input.api_key {
            Some(k) => trim(k@).len() > 0,
            None => old.has_api_key,
        },
        quarantine_root: pick_text(input.quarantine_root, old.quarantine_root),
        retention_days: match input.retention_days {
            Some(d) => if d < 1 { 1 } else { d },
            None => old.retention_days,
        },
        admin_scan_enabled: pick(input.admin_scan_enabled, old.admin_scan_enabled),
        warning_threshold_gb: pick(input.warning_threshold_gb, old.warning_threshold_gb),
        critical_threshold_gb: pick(input.critical_threshold_gb, old.critical_threshold_gb),
        soft_delete_target: pick(input.soft_delete_target, old.soft_delete_target),
    }
}

/// The change to the stored key that a save request asks for.
pub open spec fn key_change_spec(input: ConfigSaveInput, change: ApiKeyChange) -> bool {
    match input.api_key {
        None => change is Keep,
        Some(k) => if trim(k@).len() == 0 {
            change is Delete
        } else {
            change matches ApiKeyChange::Store(s) && s@ == trim(k@)
        },
    }
}

/// Applies a save request to the current settings, and says what to do
/// with the stored API key.
pub fn apply_config_input(settings: AppSettings, input: ConfigSaveInput) -> (r: (AppSettings, ApiKeyChange))
    ensures
        r.0@ == applied(settings@, input),
        key_change_spec(input, r.1),
{
    let ghost given = input;
    let mut s = settings;
    let ConfigSaveInput {
        theme,
        ai_mode,
        ollama_base_url,
        ollama_model,
        api_key,
        quarantine_root,
        retention_days,
        admin_scan_enabled,
        warning_threshold_gb,
        critical_threshold_gb,
        soft_delete_target,
    } = input;
    if let Some(t) = theme {
        s.theme = t;
    }
    if let Some(m) = ai_mode {
        s.ai_mode = m;
    }
    if let Some(url) = ollama_base_url {
        s.ollama_base_url = string_of(&trim_end_char_chars(&chars_of(url.as_str()), '/'));
    }
    if let Some(model) = ollama_model {
        s.ollama_model = model;
    }
    if let Some(root) = quarantine_root {
        s.quarantine_root = root;
    }
    if let Some(days) = retention_days {
        s.retention_days = if days < 1 { 1 } else { days };
    }
    if let Some(enabled) = admin_scan_enabled {
        s.admin_scan_enabled = enabled;
    }
    if let Some(warn) = warning_threshold_gb {
        s.warning_threshold_gb = warn;
    }
    if let Some(crit) = critical_threshold_gb {
        s.critical_threshold_gb = crit;
    }
    if let Some(target) = soft_delete_target {
        s.soft_delete_target = target;
    }
    let change = match api_key {
        Some(key) => {
            let trimmed = trim_chars(&chars_of(key.as_str()));
            if trimmed.len() == 0 {
                s.has_api_key = false;
                ApiKeyChange::Delete
            } else {
                s.has_api_key = true;
                ApiKeyChange::Store(string_of(&trimmed))
            }
        },
        None => ApiKeyChange::Keep,
    };
    (s, change)
}

/// A save request that gives no field leaves the settings as they were.
pub proof fn law_empty_save_keeps_settings(current: SettingsView, input: ConfigSaveInput)
    requires
        input.theme is None,
        input.ai_mode is None,
        input.ollama_base_url is None,
        input.ollama_model is None,
        input.api_key is None,
        input.quarantine_root is None,
        input.retention_days is None,
        input.admin_scan_enabled is None,
        input.warning_threshold_gb is None,
        input.critical_threshold_gb is None,
        input.soft_delete_target is None,
    ensures
        applied(current, input) == current,
{
}

/// Saving the same request again changes nothing more.
pub proof fn law_save_idempotent(current: SettingsView, input: ConfigSaveInput)
    ensures
        applied(applied(current, input), input) == applied(current, input),
{
}

/// After a save the retention is at least a day, and the Ollama address
/// given does not end with `/`.
pub proof fn law_saved_settings_normalized(current: SettingsView, input: ConfigSaveInput)
    requires
        current.retention_days >= 1,
    ensures
        applied(current, input).retention_days >= 1,
        input.ollama_base_url is Some ==> {
            let u = applied(current, input).ollama_base_url;
            u.len() == 0 || u.last() != '/'
        },
{
    if let Some(url) = input.ollama_base_url {
        lemma_trim_end_char_last(url@, '/');
    }
}

/// The audit summary for a save that changed the AI mode, or `None` when
/// the mode stayed.
pub fn mode_change_summary(previous: AiMode, current: AiMode) -> (r: Option<&'static str>)
    ensures
        previous == current ==> r is None,
        previous != current && current == AiMode::Local ==> (r matches Some(t) && t@ == "AI 模式切换为本地 Ollama"@),
        previous != current && current == AiMode::Cloud ==> (r matches Some(t) && t@ == "AI 模式切换为云端 DeepSeek"@),
{
    if previous == current {
        None
    } else {
        match current {
            AiMode::Local => Some("AI 模式切换为本地 Ollama"),
            AiMode::Cloud => Some("AI 模式切换为云端 DeepSeek"),
        }
    }
}

/// A save request sets every field it gives, and only those: a given
/// theme, mode, model, quarantine folder, switch, threshold or delete target
/// is taken as it is; a given Ollama address without a trailing `/` and a
/// retention of at least one day too; a given API key decides whether one
/// is stored; a field not given keeps its old value.
pub proof fn law_save_sets_given_fields(current: SettingsView, input: ConfigSaveInput)
    ensures
        input.theme matches Some(t) ==> applied(current, input).theme == t@,
        input.ai_mode matches Some(m) ==> applied(current, input).ai_mode == m,
        input.ollama_model matches Some(m) ==> applied(current, input).ollama_model == m@,
        input.quarantine_root matches Some(q) ==> applied(current, input).quarantine_root == q@,
        input.admin_scan_enabled matches Some(b) ==> applied(current, input).admin_scan_enabled == b,
        input.warning_threshold_gb matches Some(w) ==> applied(current, input).warning_threshold_gb == w,
        input.critical_threshold_gb matches Some(c) ==> applied(current, input).critical_threshold_gb == c,
        input.soft_delete_target matches Some(t) ==> applied(current, input).soft_delete_target == t,
        input.retention_days matches Some(d) ==> (d >= 1 ==> applied(current, input).retention_days == d)
            && (d == 0 ==> applied(current, input).retention_days == 1),
        input.ollama_base_url matches Some(u) ==> ((u@.len() == 0 || u@.last() != '/')
            ==> applied(current, input).ollama_base_url == u@),
        input.api_key matches Some(k) ==> applied(current, input).has_api_key == (trim(k@).len() > 0),
        input.theme is None ==> applied(current, input).theme == current.theme,
        input.ai_mode is None ==> applied(current, input).ai_mode == current.ai_mode,
        input.ollama_base_url is None ==> applied(current, input).ollama_base_url == current.ollama_base_url,
        input.ollama_model is None ==> applied(current, input).ollama_model == current.ollama_model,
        input.api_key is None ==> applied(current, input).has_api_key == current.has_api_key,
        input.quarantine_root is None ==> applied(current, input).quarantine_root == current.quarantine_root,
        input.retention_days is None ==> applied(current, input).retention_days == current.retention_days,
        input.admin_scan_enabled is None ==> applied(current, input).admin_scan_enabled
            == current.admin_scan_enabled,
        input.warning_threshold_gb is None ==> applied(current, input).warning_threshold_gb
            == current.warning_threshold_gb,
        input.critical_threshold_gb is None ==> applied(current, input).critical_threshold_gb
            == current.critical_threshold_gb,
        input.soft_delete_target is None ==> applied(current, input).soft_delete_target
            == current.soft_delete_target,
{
}

/// What a save does to the stored key: nothing without a key; a blank key
/// removes it; any other key is stored without surrounding whitespace.
pub proof fn law_save_key_change(input: ConfigSaveInput, change: ApiKeyChange)
    requires
        key_change_spec(input, change),
    ensures
        input.api_key is None ==> change is Keep,
        input.api_key matches Some(k) ==> (trim(k@).len() == 0 ==> change is Delete),
        input.api_key matches Some(k) ==> (trim(k@).len() > 0 ==> (change matches ApiKeyChange::Store(s)
            && s@ == trim(k@))),
{
}

} // verus!
