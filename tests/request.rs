use pathy::{
    apply_setting, archive_checksum_matches, asset_name_for, cache_root, cached_binary_path,
    collect_candidates, digest_matches, extracted_binary_path, finish_candidates, get_line,
    is_completion_allowed, line_start_offset, listing_entries, normalize_for_match,
    parse_checksum, plan_completion, choose_launch, download_plan, LaunchChoice, resolve_list_dirs, to_hex, utf16_col_to_byte, ArchiveKind,
    BaseDirStrategy, Config, ContextGating, DirCache, DirEntryInfo, ExtensionConfig,
    PlatformInfo, SettingValue, StatStrategy, WorkspaceRootStrategy,
};

fn entry(name: &str, is_dir: bool) -> DirEntryInfo {
    DirEntryInfo { name: name.to_string(), is_dir }
}

fn names(items: &[DirEntryInfo]) -> Vec<(String, bool)> {
    items.iter().map(|e| (e.name.clone(), e.is_dir)).collect()
}

#[test]
fn line_start_offset_basic() {
    let text = "a\nb\nc";
    assert_eq!(line_start_offset(text, 1), Some(2));
    assert_eq!(line_start_offset(text, 2), Some(4));
}

#[test]
fn lines_and_columns() {
    let text = "first\nsécond\n";
    assert_eq!(get_line(text, 0), Some("first"));
    assert_eq!(get_line(text, 1), Some("sécond"));
    assert_eq!(get_line(text, 2), Some(""));
    assert_eq!(get_line(text, 3), None);
    assert_eq!(line_start_offset(text, 2), Some(14));
    assert_eq!(line_start_offset(text, 3), None);
    assert_eq!(utf16_col_to_byte("sécond", 2), Some(3));
    assert_eq!(utf16_col_to_byte("sécond", 6), Some(7));
    assert_eq!(utf16_col_to_byte("sécond", 7), None);
    assert_eq!(utf16_col_to_byte("a😀b", 2), Some(1));
    assert_eq!(utf16_col_to_byte("a😀b", 3), Some(5));
    assert_eq!(utf16_col_to_byte("", 0), Some(0));
}

#[test]
fn cache_returns_stored_listing_within_ttl() {
    let mut cache = DirCache::new(500, 4);
    cache.insert("/d", vec![entry("a", true), entry("b.txt", false)], 1000);
    let got = cache.get("/d", 1500).unwrap();
    assert_eq!(names(&got), vec![("a".to_string(), true), ("b.txt".to_string(), false)]);
    assert!(cache.get("/other", 1500).is_none());
}

#[test]
fn cache_expires_after_ttl() {
    let mut cache = DirCache::new(500, 4);
    cache.insert("/d", vec![entry("a", false)], 1000);
    assert!(cache.get("/d", 1501).is_none());
    assert!(cache.get("/d", 1200).is_none());
}

#[test]
fn cache_evicts_least_recently_used() {
    let mut cache = DirCache::new(10_000, 2);
    cache.insert("/a", vec![entry("1", false)], 0);
    cache.insert("/b", vec![entry("2", false)], 1);
    assert!(cache.get("/a", 2).is_some());
    cache.insert("/c", vec![entry("3", false)], 3);
    assert!(cache.get("/b", 4).is_none());
    assert!(cache.get("/a", 4).is_some());
    assert!(cache.get("/c", 4).is_some());
    cache.insert("/c", vec![entry("4", false)], 5);
    assert_eq!(names(&cache.get("/c", 6).unwrap()), vec![("4".to_string(), false)]);
}

#[test]
fn cache_update_limits_shrinks_and_keeps_stamps() {
    let mut cache = DirCache::new(10_000, 3);
    cache.insert("/a", vec![], 0);
    cache.insert("/b", vec![], 100);
    cache.insert("/c", vec![], 200);
    cache.update_limits(150, 2);
    assert!(cache.get("/a", 210).is_none());
    assert!(cache.get("/b", 210).is_some());
    assert!(cache.get("/c", 400).is_none());
    let mut empty = DirCache::new(500, 0);
    empty.insert("/a", vec![entry("x", false)], 0);
    assert!(empty.get("/a", 0).is_none());
}

fn query(kind_text: &str) -> pathy::PathQuery {
    pathy::find_prefix_query(kind_text, &Config::default()).unwrap()
}

#[test]
fn resolves_relative_home_and_absolute() {
    let config = Config::default();
    let dirs = resolve_list_dirs(&query("./sub/../x/./y/"), Some("/proj/src"), Some("/proj"), None, &config);
    assert_eq!(dirs, vec!["/proj/src/x/y".to_string()]);
    let dirs = resolve_list_dirs(&query("../../../.."), Some("/proj/src"), None, None, &config);
    assert_eq!(dirs, vec!["/".to_string()]);
    let dirs = resolve_list_dirs(&query("~/Do"), None, None, Some("/home/me/"), &config);
    assert_eq!(dirs, vec!["/home/me".to_string()]);
    let dirs = resolve_list_dirs(&query("~/a/b"), None, None, Some("/home/me"), &config);
    assert_eq!(dirs, vec!["/home/me/a".to_string()]);
    assert!(resolve_list_dirs(&query("~/a"), None, None, None, &config).is_empty());
    let mut no_tilde = Config::default();
    no_tilde.expand_tilde = false;
    assert!(resolve_list_dirs(&query("~/a"), None, None, Some("/h"), &no_tilde).is_empty());
    let dirs = resolve_list_dirs(&query("/usr/lo"), None, None, None, &config);
    assert_eq!(dirs, vec!["/usr/".to_string()]);
    let dirs = resolve_list_dirs(&query("C:\\Users\\m"), None, None, None, &config);
    assert_eq!(dirs, vec!["C:\\Users\\".to_string()]);
}

#[test]
fn resolves_by_base_dir_strategy() {
    let q = pathy::build_relative_query("data/f");
    let mut config = Config::default();
    config.base_dir = BaseDirStrategy::Both;
    let dirs = resolve_list_dirs(&q, Some("/p/src"), Some("/p"), None, &config);
    assert_eq!(dirs, vec!["/p/src/data".to_string(), "/p/data".to_string()]);
    let dirs = resolve_list_dirs(&q, Some("/p"), Some("/p"), None, &config);
    assert_eq!(dirs, vec!["/p/data".to_string()]);
    config.base_dir = BaseDirStrategy::WorkspaceRoot;
    let dirs = resolve_list_dirs(&q, Some("/p/src"), Some("/p"), None, &config);
    assert_eq!(dirs, vec!["/p/data".to_string()]);
    config.workspace_root_strategy = WorkspaceRootStrategy::Disabled;
    assert!(resolve_list_dirs(&q, Some("/p/src"), Some("/p"), None, &config).is_empty());
    config.base_dir = BaseDirStrategy::FileDir;
    assert!(resolve_list_dirs(&q, None, Some("/p"), None, &config).is_empty());
}

#[test]
fn gating_modes() {
    let text = "print(\"hello\")";
    let off = 5;
    assert!(is_completion_allowed(ContextGating::Off, text, false, off));
    assert!(!is_completion_allowed(ContextGating::Strict, text, true, off));
    assert!(is_completion_allowed(ContextGating::Smart, text, true, off));
    assert!(!is_completion_allowed(ContextGating::Smart, text, false, off));
}

#[test]
fn end_to_end_open_lists_dirs_first() {
    let config = Config::default();
    let text = "with open(\"./fo";
    let plan = plan_completion(text, 0, 15, Some("/proj"), None, None, &config).unwrap();
    assert_eq!(plan.list_dirs, vec!["/proj".to_string()]);
    assert_eq!(plan.query.segment_prefix, "fo");
    assert_eq!(plan.edit_start, 13);
    let listing = vec![entry("foo.txt", false), entry("bar", true), entry("foo", true)];
    let entries = listing_entries(&plan.list_dirs[0], &listing);
    assert_eq!(entries[0].2, "/proj/foo.txt");
    let out = collect_candidates(
        vec![entries],
        &plan.query.segment_prefix,
        &plan.info.content_before_cursor,
        &config,
    );
    let got: Vec<(String, bool, String)> =
        out.iter().map(|c| (c.label.clone(), c.is_dir, c.insert_text.clone())).collect();
    assert_eq!(
        got,
        vec![
            ("foo".to_string(), true, "foo/".to_string()),
            ("foo.txt".to_string(), false, "foo.txt".to_string()),
        ]
    );
}

#[test]
fn end_to_end_print_gives_nothing() {
    let config = Config::default();
    let text = "print(\"hello\")";
    assert!(plan_completion(text, 0, 12, Some("/proj"), Some("/proj"), None, &config).is_none());
}

#[test]
fn plan_refusals() {
    let mut off = Config::default();
    off.enable = false;
    assert!(plan_completion("open(\"./a", 0, 9, Some("/p"), None, None, &off).is_none());
    let config = Config::default();
    assert!(plan_completion("open(\"./a", 1, 0, Some("/p"), None, None, &config).is_none());
    assert!(plan_completion("open(\"./a", 0, 40, Some("/p"), None, None, &config).is_none());
    assert!(plan_completion("open(\"./a", 0, 9, None, None, None, &config).is_none());
    let plan = plan_completion("x\nopen(\"data/", 1, 11, Some("/p"), None, None, &config).unwrap();
    assert_eq!(plan.query.dir_part, "data/");
    assert_eq!(plan.list_dirs, vec!["/p/data".to_string()]);
    assert_eq!(plan.edit_start, 11);
}

#[test]
fn candidates_dedupe_then_truncate() {
    let mut config = Config::default();
    config.max_results = 2;
    let a = listing_entries("/x", &vec![entry("b", false), entry("a", true)]);
    let b = listing_entries("/y", &vec![entry("a", false), entry("c", false)]);
    let out = collect_candidates(vec![a, b], "", "", &config);
    let got: Vec<(String, bool)> = out.iter().map(|c| (c.label.clone(), c.is_dir)).collect();
    assert_eq!(got, vec![("a".to_string(), true), ("b".to_string(), false)]);
    let merged = vec![("d".to_string(), true), ("d".to_string(), false)];
    let mut plain = Config::default();
    plain.directory_trailing_slash = false;
    let out = finish_candidates(&merged, '\\', &plain);
    assert_eq!(out.len(), 1);
    assert_eq!(out[0].insert_text, "d");
    let out = finish_candidates(&merged, '\\', &Config::default());
    assert_eq!(out[0].insert_text, "d\\");
}

#[test]
fn normalizes_backslashes() {
    assert_eq!(normalize_for_match("C:\\a\\b/c"), "C:/a/b/c");
}

#[test]
fn loads_defaults_when_missing() {
    let cfg = Config::default();
    assert!(cfg.enable);
    assert_eq!(cfg.max_results, 80);
}

#[test]
fn applies_overrides() {
    let mut cfg = Config::default();
    let mut warnings = Vec::new();
    warnings.extend(apply_setting(&mut cfg, &"enable".to_string(), &SettingValue::Bool(false)));
    warnings.extend(apply_setting(&mut cfg, &"max_results".to_string(), &SettingValue::UInt(20)));
    warnings.extend(apply_setting(
        &mut cfg,
        &"context_gating".to_string(),
        &SettingValue::Text("strict".to_string()),
    ));
    warnings.extend(apply_setting(
        &mut cfg,
        &"ignore_globs".to_string(),
        &SettingValue::List(vec![Some("**/.git/**".to_string())]),
    ));
    assert!(!cfg.enable);
    assert_eq!(cfg.max_results, 20);
    assert_eq!(cfg.context_gating, ContextGating::Strict);
    assert_eq!(cfg.ignore_globs.len(), 1);
    assert!(warnings.is_empty());
}

#[test]
fn bad_settings_warn_and_keep_values() {
    let mut cfg = Config::default();
    assert_eq!(apply_setting(&mut cfg, &"enable".to_string(), &SettingValue::UInt(1)).len(), 1);
    assert!(cfg.enable);
    let w = apply_setting(&mut cfg, &"base_dir".to_string(), &SettingValue::Text("nowhere".to_string()));
    assert_eq!(w.len(), 1);
    assert_eq!(cfg.base_dir, BaseDirStrategy::FileDir);
    let w = apply_setting(&mut cfg, &"stat_strategy".to_string(), &SettingValue::Text("none".to_string()));
    assert!(w.is_empty());
    assert_eq!(cfg.stat_strategy, StatStrategy::Disabled);
    let w = apply_setting(&mut cfg, &"ignore_globs".to_string(), &SettingValue::List(vec![None]));
    assert_eq!(w.len(), 1);
    assert_eq!(cfg.ignore_globs.len(), 8);
    assert!(apply_setting(&mut cfg, &"unknown".to_string(), &SettingValue::Other).is_empty());
    let w = apply_setting(&mut cfg, &"cache_ttl_ms".to_string(), &SettingValue::UInt(7));
    assert!(w.is_empty());
    assert_eq!(cfg.cache_ttl_ms, 7);
}

#[test]
fn asset_name_mapping() {
    let platform = PlatformInfo { os: "linux".into(), arch: "x86_64".into() };
    let (name, _ty) = asset_name_for("0.4.0", &platform).unwrap();
    assert_eq!(name, "pathy-server_0.4.0_linux_x86_64.tar.gz");
}

#[test]
fn asset_names_and_refusals() {
    let win = PlatformInfo { os: "windows".into(), arch: "aarch64".into() };
    let (name, kind) = asset_name_for("1.2", &win).unwrap();
    assert_eq!(name, "pathy-server_1.2_windows_aarch64.zip");
    assert_eq!(kind, ArchiveKind::Zip);
    let x86 = PlatformInfo { os: "linux".into(), arch: "x86".into() };
    assert_eq!(asset_name_for("1", &x86).unwrap_err(), "unsupported architecture");
    let bsd = PlatformInfo { os: "freebsd".into(), arch: "x86_64".into() };
    assert_eq!(asset_name_for("1", &bsd).unwrap_err(), "unsupported platform");
}

#[test]
fn checksum_parsing() {
    let data = "abcd1234  pathy-server_0.4.0_linux_x86_64.tar.gz\n";
    let hash = parse_checksum(data, "pathy-server_0.4.0_linux_x86_64.tar.gz").unwrap();
    assert_eq!(hash, "abcd1234");
}

#[test]
fn checksum_parsing_edges() {
    let data = "11 a.zip\r\n22 b.zip\n";
    assert_eq!(parse_checksum(data, "b.zip").as_deref(), Some("22"));
    assert_eq!(parse_checksum(data, "c.zip"), None);
    assert_eq!(parse_checksum("\n33 c.zip\n", "c.zip"), None);
}

#[test]
fn cache_dir_relative() {
    let mut config = ExtensionConfig::default();
    config.cache_dir = Some("my-cache".to_string());
    let path = cache_root(&config).unwrap();
    assert_eq!(path, "my-cache");
}

#[test]
fn cache_dir_default_and_absolute() {
    assert_eq!(cache_root(&ExtensionConfig::default()).unwrap(), "cache");
    let mut config = ExtensionConfig::default();
    config.cache_dir = Some("/var/cache/pathy".to_string());
    assert!(cache_root(&config).is_err());
}

#[test]
fn binary_paths() {
    let linux = PlatformInfo { os: "linux".into(), arch: "x86_64".into() };
    assert_eq!(cached_binary_path("cache", "0.4.0", &linux), "cache/pathy/0.4.0/linux/x86_64/pathy-server");
    let win = PlatformInfo { os: "windows".into(), arch: "x86_64".into() };
    assert_eq!(extracted_binary_path("cache/", &win), "cache/pathy-server.exe");
}

#[test]
fn sha256_checksums() {
    let abc = "ba7816bf8f01cfea414140de5dae2223b00361a396177a9cb410ff61f20015ad";
    assert!(archive_checksum_matches(b"abc", abc));
    assert!(!archive_checksum_matches(b"abd", abc));
    assert_eq!(to_hex(&[0x00, 0x0f, 0xa5, 0xff]), "000fa5ff");
    assert!(digest_matches(&[0xde, 0xad], "dead"));
    assert!(!digest_matches(&[0xde, 0xad], "DEAD"));
}

#[test]
fn launch_choices() {
    let mut config = ExtensionConfig::default();
    config.server_path = Some("/opt/pathy".to_string());
    match choose_launch(&config, true) {
        Ok(LaunchChoice::UseServerPath(p)) => assert_eq!(p, "/opt/pathy"),
        _ => panic!("expected the configured binary"),
    }
    assert_eq!(choose_launch(&config, false).err().unwrap(), "server_path not found: /opt/pathy");
    let mut config = ExtensionConfig::default();
    assert!(matches!(choose_launch(&config, false), Ok(LaunchChoice::Download)));
    config.release_channel = "nightly".to_string();
    assert_eq!(choose_launch(&config, false).err().unwrap(), "only stable release_channel is supported");
    config.auto_download = false;
    assert_eq!(
        choose_launch(&config, false).err().unwrap(),
        "auto_download disabled and no server_path provided"
    );
}

#[test]
fn download_addresses() {
    let linux = PlatformInfo { os: "linux".into(), arch: "x86_64".into() };
    let plan = download_plan(&ExtensionConfig::default(), "0.4.0", &linux, "cache").unwrap();
    assert_eq!(plan.asset_name, "pathy-server_0.4.0_linux_x86_64.tar.gz");
    assert_eq!(plan.archive_kind, ArchiveKind::GzipTar);
    assert_eq!(
        plan.archive_url,
        "https://github.com/placeholder/zed-pathy/releases/download/v0.4.0/pathy-server_0.4.0_linux_x86_64.tar.gz"
    );
    assert_eq!(plan.archive_path, "cache/pathy-server_0.4.0_linux_x86_64.tar.gz");
    assert_eq!(
        plan.checksum_url,
        "https://github.com/placeholder/zed-pathy/releases/download/v0.4.0/checksums-0.4.0.txt"
    );
    assert_eq!(plan.checksum_path, "cache/checksums-0.4.0.txt");
    let mut config = ExtensionConfig::default();
    config.base_url = Some("http://mirror".to_string());
    let plan = download_plan(&config, "1", &linux, "c").unwrap();
    assert_eq!(plan.checksum_url, "http://mirror/checksums-1.txt");
    let bad = PlatformInfo { os: "plan9".into(), arch: "x86_64".into() };
    assert!(download_plan(&config, "1", &bad, "c").is_err());
}
