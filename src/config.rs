//! Settings that steer completion, with their defaults.

use vstd::prelude::*;

verus! {

/// When completion is offered inside a string.
#[derive(Clone, Copy, Debug, PartialEq, Eq, Structural)]
pub enum ContextGating {
    /// Always.
    Off,
    /// When the text has a path prefix, or the code around it expects a path.
    Smart,
    /// Only when the code around the string expects a path.
    Strict,
}

/// Which directory a relative path is resolved against.
#[derive(Clone, Copy, Debug, PartialEq, Eq, Structural)]
pub enum BaseDirStrategy {
    FileDir,
    WorkspaceRoot,
    Both,
}

/// Where the workspace root comes from.
#[derive(Clone, Copy, Debug, PartialEq, Eq, Structural)]
pub enum WorkspaceRootStrategy {
    LspRootUri,
    Disabled,
}

/// Whether directory entries are told apart from files.
#[derive(Clone, Copy, Debug, PartialEq, Eq, Structural)]
pub enum StatStrategy {
    /// Entry kinds are not read: every entry counts as a file.
    Disabled,
    Lazy,
    Eager,
}

/// The settings of one request.
#[derive(Clone, Debug)]
pub struct Config {
    pub enable: bool,
    pub path_prefix_fallback: bool,
    pub context_gating: ContextGating,
    pub base_dir: BaseDirStrategy,
    pub workspace_root_strategy: WorkspaceRootStrategy,
    pub max_results: usize,
    pub show_hidden: bool,
    pub include_files: bool,
    pub include_directories: bool,
    pub directory_trailing_slash: bool,
    pub ignore_globs: Vec<String>,
    pub prefer_forward_slashes: bool,
    pub expand_tilde: bool,
    pub windows_enable_drive_prefix: bool,
    pub windows_enable_unc: bool,
    pub cache_ttl_ms: u64,
    pub cache_max_dirs: usize,
    pub stat_strategy: StatStrategy,
}

/// The default ignore patterns, in order.
pub open spec fn default_ignore_globs() -> Seq<Seq<char>> {
    seq![
        "**/.git/**"@,
        "**/.venv/**"@,
        "**/venv/**"@,
        "**/__pycache__/**"@,
        "**/.pytest_cache/**"@,
        "**/.mypy_cache/**"@,
        "**/.ruff_cache/**"@,
        "**/node_modules/**"@,
    ]
}

impl Default for Config {
    fn default() -> (r: Config)
        ensures
            r.enable,
            r.path_prefix_fallback,
            r.context_gating == ContextGating::Smart,
            r.base_dir == BaseDirStrategy::FileDir,
            r.workspace_root_strategy == WorkspaceRootStrategy::LspRootUri,
            r.max_results == 80,
            !r.show_hidden,
            r.include_files,
            r.include_directories,
            r.directory_trailing_slash,
            r.ignore_globs@.map_values(|g: String| g@) == default_ignore_globs(),
            r.prefer_forward_slashes,
            r.expand_tilde,
            r.windows_enable_drive_prefix,
            r.windows_enable_unc,
            r.cache_ttl_ms == 500,
            r.cache_max_dirs == 64,
            r.stat_strategy == StatStrategy::Lazy,
    {
        let mut globs: Vec<String> = Vec::new();
        globs.push("**/.git/**".to_owned());
        globs.push("**/.venv/**".to_owned());
        globs.push("**/venv/**".to_owned());
        globs.push("**/__pycache__/**".to_owned());
        globs.push("**/.pytest_cache/**".to_owned());
        globs.push("**/.mypy_cache/**".to_owned());
        globs.push("**/.ruff_cache/**".to_owned());
        globs.push("**/node_modules/**".to_owned());
        assert(globs@.map_values(|g: String| g@) =~= default_ignore_globs());
        Config {
            enable: true,
            path_prefix_fallback: true,
            context_gating: ContextGating::Smart,
            base_dir: BaseDirStrategy::FileDir,
            workspace_root_strategy: WorkspaceRootStrategy::LspRootUri,
            max_results: 80,
            show_hidden: false,
            include_files: true,
            include_directories: true,
            directory_trailing_slash: true,
            ignore_globs: globs,
            prefer_forward_slashes: true,
            expand_tilde: true,
            windows_enable_drive_prefix: true,
            windows_enable_unc: true,
            cache_ttl_ms: 500,
            cache_max_dirs: 64,
            stat_strategy: StatStrategy::Lazy,
        }
    }
}

} // verus!
