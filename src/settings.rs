//! Applies one user setting, given as a key and a plain value, to a
//! configuration. A value of the wrong type or an unknown name leaves the
//! field as it was and yields a warning; unknown keys are ignored.

use vstd::prelude::*;
use crate::config::{BaseDirStrategy, Config, ContextGating, StatStrategy, WorkspaceRootStrategy};

verus! {

/// A setting's value as read from the settings document.
pub enum SettingValue {
    Bool(bool),
    /// A non-negative integer.
    UInt(u64),
    Text(String),
    /// A list; each element is its text, or `None` when it is not a string.
    List(Vec<Option<String>>),
    /// Anything else.
    Other,
}

/// Position of a known setting name, or -1.
pub open spec fn setting_index(key: Seq<char>) -> int {
    if key == "enable"@ {
        0
    } else if key == "path_prefix_fallback"@ {
        1
    } else if key == "context_gating"@ {
        2
    } else if key == "base_dir"@ {
        3
    } else if key == "workspace_root_strategy"@ {
        4
    } else if key == "max_results"@ {
        5
    } else if key == "show_hidden"@ {
        6
    } else if key == "include_files"@ {
        7
    } else if key == "include_directories"@ {
        8
    } else if key == "directory_trailing_slash"@ {
        9
    } else if key == "ignore_globs"@ {
        10
    } else if key == "prefer_forward_slashes"@ {
        11
    } else if key == "expand_tilde"@ {
        12
    } else if key == "windows_enable_drive_prefix"@ {
        13
    } else if key == "windows_enable_unc"@ {
        14
    } else if key == "cache_ttl_ms"@ {
        15
    } else if key == "cache_max_dirs"@ {
        16
    } else if key == "stat_strategy"@ {
        17
    } else {
        -1
    }
}

/// Every field but the one at position `k` is the same in `a` and `b`.
pub open spec fn unchanged_but(a: Config, b: Config, k: int) -> bool {
    &&& k == 0 || a.enable == b.enable
    &&& k == 1 || a.path_prefix_fallback == b.path_prefix_fallback
    &&& k == 2 || a.context_gating == b.context_gating
    &&& k == 3 || a.base_dir == b.base_dir
    &&& k == 4 || a.workspace_root_strategy == b.workspace_root_strategy
    &&& k == 5 || a.max_results == b.max_results
    &&& k == 6 || a.show_hidden == b.show_hidden
    &&& k == 7 || a.include_files == b.include_files
    &&& k == 8 || a.include_directories == b.include_directories
    &&& k == 9 || a.directory_trailing_slash == b.directory_trailing_slash
    &&& k == 10 || a.ignore_globs@ == b.ignore_globs@
    &&& k == 11 || a.prefer_forward_slashes == b.prefer_forward_slashes
    &&& k == 12 || a.expand_tilde == b.expand_tilde
    &&& k == 13 || a.windows_enable_drive_prefix == b.windows_enable_drive_prefix
    &&& k == 14 || a.windows_enable_unc == b.windows_enable_unc
    &&& k == 15 || a.cache_ttl_ms == b.cache_ttl_ms
    &&& k == 16 || a.cache_max_dirs == b.cache_max_dirs
    &&& k == 17 || a.stat_strategy == b.stat_strategy
}

pub open spec fn gating_named(s: Seq<char>) -> Option<ContextGating> {
    if s == "off"@ {
        Some(ContextGating::Off)
    } else if s == "smart"@ {
        Some(ContextGating::Smart)
    } else if s == "strict"@ {
        Some(ContextGating::Strict)
    } else {
        None
    }
}

pub open spec fn base_dir_named(s: Seq<char>) -> Option<BaseDirStrategy> {
    if s == "file_dir"@ {
        Some(BaseDirStrategy::FileDir)
    } else if s == "workspace_root"@ {
        Some(BaseDirStrategy::WorkspaceRoot)
    } else if s == "both"@ {
        Some(BaseDirStrategy::Both)
    } else {
        None
    }
}

pub open spec fn root_strategy_named(s: Seq<char>) -> Option<WorkspaceRootStrategy> {
    if s == "lsp_root_uri"@ {
        Some(WorkspaceRootStrategy::LspRootUri)
    } else if s == "disabled"@ {
        Some(WorkspaceRootStrategy::Disabled)
    } else {
        None
    }
}

pub open spec fn stat_named(s: Seq<char>) -> Option<StatStrategy> {
    if s == "none"@ {
        Some(StatStrategy::Disabled)
    } else if s == "lazy"@ {
        Some(StatStrategy::Lazy)
    } else if s == "eager"@ {
        Some(StatStrategy::Eager)
    } else {
        None
    }
}

/// The strings of a list value, in order.
pub open spec fn list_strings(items: Seq<Option<String>>) -> Seq<Seq<char>>
    decreases items.len(),
{
    if items.len() == 0 {
        Seq::empty()
    } else {
        let rest = list_strings(items.drop_last());
        match items.last() {
            Some(s) => rest.push(s@),
            None => rest,
        }
    }
}

/// The value has the type that setting `k` takes, with a known name where
/// the setting takes one; a list has strings only.
pub open spec fn value_fits(k: int, v: SettingValue) -> bool {
    if k == 2 {
        v matches SettingValue::Text(s) && gating_named(s@) is Some
    } else if k == 3 {
        v matches SettingValue::Text(s) && base_dir_named(s@) is Some
    } else if k == 4 {
        v matches SettingValue::Text(s) && root_strategy_named(s@) is Some
    } else if k == 17 {
        v matches SettingValue::Text(s) && stat_named(s@) is Some
    } else if k == 5 || k == 15 || k == 16 {
        v is UInt
    } else if k == 10 {
        v matches SettingValue::List(items) && forall|i: int|
            0 <= i < items@.len() ==> items@[i] is Some
    } else {
        v is Bool
    }
}

/// The boolean field at position `k`.
pub open spec fn bool_field(c: Config, k: int) -> bool {
    if k == 0 {
        c.enable
    } else if k == 1 {
        c.path_prefix_fallback
    } else if k == 6 {
        c.show_hidden
    } else if k == 7 {
        c.include_files
    } else if k == 8 {
        c.include_directories
    } else if k == 9 {
        c.directory_trailing_slash
    } else if k == 11 {
        c.prefer_forward_slashes
    } else if k == 12 {
        c.expand_tilde
    } else if k == 13 {
        c.windows_enable_drive_prefix
    } else {
        c.windows_enable_unc
    }
}

pub open spec fn is_bool_setting(k: int) -> bool {
    k == 0 || k == 1 || (6 <= k <= 9) || (11 <= k <= 14)
}

/// What a setting does to the field it names.
pub open spec fn setting_applied(a: Config, b: Config, k: int, v: SettingValue) -> bool {
    if is_bool_setting(k) {
        bool_field(b, k) == match v {
            SettingValue::Bool(x) => x,
            _ => bool_field(a, k),
        }
    } else if k == 2 {
        b.context_gating == match v {
            SettingValue::Text(s) => match gating_named(s@) {
                Some(g) => g,
                None => a.context_gating,
            },
            _ => a.context_gating,
        }
    } else if k == 3 {
        b.base_dir == match v {
            SettingValue::Text(s) => match base_dir_named(s@) {
                Some(g) => g,
                None => a.base_dir,
            },
            _ => a.base_dir,
        }
    } else if k == 4 {
        b.workspace_root_strategy == match v {
            SettingValue::Text(s) => match root_strategy_named(s@) {
                Some(g) => g,
                None => a.workspace_root_strategy,
            },
            _ => a.workspace_root_strategy,
        }
    } else if k == 17 {
        b.stat_strategy == match v {
            SettingValue::Text(s) => match stat_named(s@) {
                Some(g) => g,
                None => a.stat_strategy,
            },
            _ => a.stat_strategy,
        }
    } else if k == 5 {
        b.max_results as int == match v {
            SettingValue::UInt(n) => n as usize as int,
            _ => a.max_results as int,
        }
    } else if k == 15 {
        b.cache_ttl_ms == match v {
            SettingValue::UInt(n) => n,
            _ => a.cache_ttl_ms,
        }
    } else if k == 16 {
        b.cache_max_dirs as int == match v {
            SettingValue::UInt(n) => n as usize as int,
            _ => a.cache_max_dirs as int,
        }
    } else if k == 10 {
        b.ignore_globs@.map_values(|g: String| g@) == match v {
            SettingValue::List(items) => if list_strings(items@).len() > 0 {
                list_strings(items@)
            } else {
                a.ignore_globs@.map_values(|g: String| g@)
            },
            _ => a.ignore_globs@.map_values(|g: String| g@),
        }
    } else {
        true
    }
}

fn text_is(s: &String, lit: &str) -> (r: bool)
    ensures
        r == (s@ == lit@),
{
    let c = crate::text::chars_of(s.as_str());
    let n = c.len();
    assert(c@.subrange(0, n as int) =~= c@);
    crate::context::range_is(&c, 0, n, lit)
}

fn setting_index_exec(key: &String) -> (r: i32)
    ensures
        r as int == setting_index(key@),
{
    if text_is(key, "enable") {
        0
    } else if text_is(key, "path_prefix_fallback") {
        1
    } else if text_is(key, "context_gating") {
        2
    } else if text_is(key, "base_dir") {
        3
    } else if text_is(key, "workspace_root_strategy") {
        4
    } else if text_is(key, "max_results") {
        5
    } else if text_is(key, "show_hidden") {
        6
    } else if text_is(key, "include_files") {
        7
    } else if text_is(key, "include_directories") {
        8
    } else if text_is(key, "directory_trailing_slash") {
        9
    } else if text_is(key, "ignore_globs") {
        10
    } else if text_is(key, "prefer_forward_slashes") {
        11
    } else if text_is(key, "expand_tilde") {
        12
    } else if text_is(key, "windows_enable_drive_prefix") {
        13
    } else if text_is(key, "windows_enable_unc") {
        14
    } else if text_is(key, "cache_ttl_ms") {
        15
    } else if text_is(key, "cache_max_dirs") {
        16
    } else if text_is(key, "stat_strategy") {
        17
    } else {
        -1
    }
}

fn set_bool_field(config: &mut Config, k: i32, v: bool)
    requires
        is_bool_setting(k as int),
    ensures
        unchanged_but(*old(config), *final(config), k as int),
        bool_field(*final(config), k as int) == v,
{
    if k == 0 {
        config.enable = v;
    } else if k == 1 {
        config.path_prefix_fallback = v;
    } else if k == 6 {
        config.show_hidden = v;
    } else if k == 7 {
        config.include_files = v;
    } else if k == 8 {
        config.include_directories = v;
    } else if k == 9 {
        config.directory_trailing_slash = v;
    } else if k == 11 {
        config.prefer_forward_slashes = v;
    } else if k == 12 {
        config.expand_tilde = v;
    } else if k == 13 {
        config.windows_enable_drive_prefix = v;
    } else {
        config.windows_enable_unc = v;
    }
}

/// A warning that names the setting.
fn warning_for(key: &String) -> (r: String) {
    let mut w = "invalid ".to_owned();
    w.append(key.as_str());
    w.append(" value");
    w
}

fn gating_of(s: &String) -> (r: Option<ContextGating>)
    ensures
        r == gating_named(s@),
{
    if text_is(s, "off") {
        Some(ContextGating::Off)
    } else if text_is(s, "smart") {
        Some(ContextGating::Smart)
    } else if text_is(s, "strict") {
        Some(ContextGating::Strict)
    } else {
        None
    }
}

fn base_dir_of(s: &String) -> (r: Option<BaseDirStrategy>)
    ensures
        r == base_dir_named(s@),
{
    if text_is(s, "file_dir") {
        Some(BaseDirStrategy::FileDir)
    } else if text_is(s, "workspace_root") {
        Some(BaseDirStrategy::WorkspaceRoot)
    } else if text_is(s, "both") {
        Some(BaseDirStrategy::Both)
    } else {
        None
    }
}

fn root_strategy_of(s: &String) -> (r: Option<WorkspaceRootStrategy>)
    ensures
        r == root_strategy_named(s@),
{
    if text_is(s, "lsp_root_uri") {
        Some(WorkspaceRootStrategy::LspRootUri)
    } else if text_is(s, "disabled") {
        Some(WorkspaceRootStrategy::Disabled)
    } else {
        None
    }
}

fn stat_of(s: &String) -> (r: Option<StatStrategy>)
    ensures
        r == stat_named(s@),
{
    if text_is(s, "none") {
        Some(StatStrategy::Disabled)
    } else if text_is(s, "lazy") {
        Some(StatStrategy::Lazy)
    } else if text_is(s, "eager") {
        Some(StatStrategy::Eager)
    } else {
        None
    }
}

fn strings_of(items: &Vec<Option<String>>) -> (r: (Vec<String>, bool))
    ensures
        r.0@.map_values(|g: String| g@) == list_strings(items@),
        r.1 == (forall|i: int| 0 <= i < items@.len() ==> items@[i] is Some),
{
    let mut out: Vec<String> = Vec::new();
    let mut all = true;
    let mut i: usize = 0;
    while i < items.len()
        invariant
            i <= items@.len(),
            out@.map_values(|g: String| g@) == list_strings(items@.take(i as int)),
            all == (forall|j: int| 0 <= j < i ==> items@[j] is Some),
        decreases items@.len() - i,
    {
        assert(items@.take(i + 1).drop_last() =~= items@.take(i as int));
        match &items[i] {
            Some(s) => {
                let ghost before = out@;
                out.push(s.clone());
                assert(out@.map_values(|g: String| g@) =~= before.map_values(|g: String| g@).push(
                    s@,
                ));
            },
            None => {
                all = false;
            },
        }
        i = i + 1;
    }
    assert(items@.take(items@.len() as int) =~= items@);
    (out, all)
}

/// Applies setting `key` with value `value`; returns the warnings it gives,
/// none exactly when the key is unknown or the value fits the setting.
#[verifier::rlimit(60)]
pub fn apply_setting(config: &mut Config, key: &String, value: &SettingValue) -> (r: Vec<String>)
    ensures
        unchanged_but(*old(config), *final(config), setting_index(key@)),
        setting_applied(*old(config), *final(config), setting_index(key@), *value),
        (r@.len() == 0) == (setting_index(key@) < 0 || value_fits(setting_index(key@), *value)),
{
    let k = setting_index_exec(key);
    let mut warnings: Vec<String> = Vec::new();
    if k < 0 {
        return warnings;
    }
    if k == 0 || k == 1 || (6 <= k && k <= 9) || (11 <= k && k <= 14) {
        match value {
            SettingValue::Bool(b) => set_bool_field(config, k, *b),
            _ => warnings.push(warning_for(key)),
        }
    } else if k == 2 {
        match value {
            SettingValue::Text(s) => match gating_of(s) {
                Some(g) => config.context_gating = g,
                None => warnings.push(warning_for(key)),
            },
            _ => warnings.push(warning_for(key)),
        }
    } else if k == 3 {
        match value {
            SettingValue::Text(s) => match base_dir_of(s) {
                Some(g) => config.base_dir = g,
                None => warnings.push(warning_for(key)),
            },
            _ => warnings.push(warning_for(key)),
        }
    } else if k == 4 {
        match value {
            SettingValue::Text(s) => match root_strategy_of(s) {
                Some(g) => config.workspace_root_strategy = g,
                None => warnings.push(warning_for(key)),
            },
            _ => warnings.push(warning_for(key)),
        }
    } else if k == 17 {
        match value {
            SettingValue::Text(s) => match stat_of(s) {
                Some(g) => config.stat_strategy = g,
                None => warnings.push(warning_for(key)),
            },
            _ => warnings.push(warning_for(key)),
        }
    } else if k == 5 || k == 15 || k == 16 {
        match value {
            SettingValue::UInt(n) => {
                if k == 5 {
                    config.max_results = *n as usize;
                } else if k == 15 {
                    config.cache_ttl_ms = *n;
                } else {
                    config.cache_max_dirs = *n as usize;
                }
            },
            _ => warnings.push(warning_for(key)),
        }
    } else {
        match value {
            SettingValue::List(items) => {
                let (globs, all) = strings_of(items);
                if !all {
                    warnings.push(warning_for(key));
                }
                if globs.len() > 0 {
                    config.ignore_globs = globs;
                }
            },
            _ => warnings.push(warning_for(key)),
        }
    }
    warnings
}

} // verus!
