//! Path completion for string literals in source text: lexing the current
//! line, classifying what was typed as a path query, deciding from the nearby
//! code whether a path is expected, resolving the directories to list,
//! caching listings, filtering entries and assembling the final candidates.

pub mod assemble;
pub mod cache;
pub mod config;
pub mod context;
pub mod filter;
pub mod glob;
pub mod lexer;
pub mod lines;
pub mod query;
pub mod release;
pub mod resolve;
pub mod settings;
pub mod text;

pub use assemble::{
    collect_candidates, finish_candidates, is_completion_allowed, listing_entries,
    plan_completion, CompletionCandidate, CompletionPlan,
};
pub use cache::{DirCache, DirEntryInfo};
pub use config::{BaseDirStrategy, Config, ContextGating, StatStrategy, WorkspaceRootStrategy};
pub use context::{detect_call_context, is_path_context, CallContext};
pub use filter::filter_entries;
pub use glob::{glob_match, normalize_for_match};
pub use lexer::{find_string_info, StringInfo};
pub use lines::{get_line, line_start_offset, utf16_col_to_byte};
pub use query::{
    build_relative_query, find_prefix_query, is_windows_drive_prefix, prefix_kind_for_path,
    segment_start_offset, separator_for_insertion, PathQuery, PrefixKind,
};
pub use release::{
    archive_checksum_matches, asset_name_for, cache_root, cached_binary_path, choose_launch,
    digest_matches, download_plan, extracted_binary_path, parse_checksum, to_hex, ArchiveKind,
    DownloadPlan, ExtensionConfig, LaunchChoice, PlatformInfo,
};
pub use resolve::resolve_list_dirs;
pub use settings::{apply_setting, SettingValue};
pub use text::utf16_len;
