use pathy::{
    build_relative_query, filter_entries, find_prefix_query, find_string_info, glob_match,
    is_windows_drive_prefix, segment_start_offset, separator_for_insertion, utf16_len, Config,
    PrefixKind, StringInfo,
};

#[test]
fn detects_string_context_simple() {
    let line = "open(\"./foo\")";
    let cursor = line.find("./foo").unwrap() + "./foo".len();
    let info = find_string_info(line, cursor).unwrap();
    assert_eq!(info.content_before_cursor, "./foo");
}

#[test]
fn detects_path_query_with_segment() {
    let config = Config::default();
    let query = find_prefix_query("./dir/pa", &config).unwrap();
    assert_eq!(query.dir_part, "./dir/");
    assert_eq!(query.segment_prefix, "pa");
}

#[test]
fn detects_path_query_home() {
    let config = Config::default();
    let query = find_prefix_query("~/Do", &config).unwrap();
    assert_eq!(query.dir_part, "~/");
    assert_eq!(query.segment_prefix, "Do");
}

#[test]
fn filter_and_sort_dirs_first() {
    let entries = vec![
        ("b.txt".to_string(), false, "/tmp/b.txt".to_string()),
        ("a".to_string(), true, "/tmp/a".to_string()),
        ("a.txt".to_string(), false, "/tmp/a.txt".to_string()),
    ];
    let config = Config::default();
    let filtered = filter_entries(entries, "", &config);
    assert_eq!(filtered[0].0, "a");
    assert!(filtered[0].1);
}

#[test]
fn detects_windows_drive_prefix() {
    assert!(is_windows_drive_prefix("C:\\Users"));
    assert!(is_windows_drive_prefix("D:/Data"));
    assert!(!is_windows_drive_prefix("/tmp"));
}

#[test]
fn segment_start_offset_after_separator() {
    let offset = segment_start_offset("./foo/bar");
    assert_eq!(offset, "./foo/".len());
}

#[test]
fn ignores_fstring_interpolation() {
    let line = "f\"{value}/data\"";
    let cursor_in_expr = line.find("value").unwrap();
    let cursor_in_text = line.find("data").unwrap();
    let info_expr = find_string_info(line, cursor_in_expr);
    let info_text = find_string_info(line, cursor_in_text);
    assert!(info_expr.is_none());
    assert!(info_text.is_some());
}

#[test]
fn glob_match_basic() {
    assert!(glob_match("**/node_modules/**", "/proj/node_modules/pkg"));
    assert!(glob_match("**/.git/**", "/proj/.git/config"));
    assert!(!glob_match("**/.venv/**", "/proj/src/main.py"));
}

#[test]
fn replacement_range_uses_segment_start() {
    let info = StringInfo {
        content_before_cursor: "./foo/bar".into(),
        is_raw: false,
        is_fstring: false,
        string_start_byte: 6,
        string_start_utf16: 6,
    };
    let segment_start = segment_start_offset(&info.content_before_cursor);
    let utf16 = utf16_len(&info.content_before_cursor[..segment_start]);
    assert_eq!(utf16, "./foo/".len() as u32);
}

#[test]
fn string_info_offsets_and_flags() {
    let line = "x = rb'a/b";
    let info = find_string_info(line, line.len()).unwrap();
    assert_eq!(info.content_before_cursor, "a/b");
    assert!(info.is_raw);
    assert!(!info.is_fstring);
    assert_eq!(info.string_start_byte, 6);
    assert_eq!(info.string_start_utf16, 7);
}

#[test]
fn string_info_counts_utf16_units() {
    let line = "é😀 = open(\"./d";
    let info = find_string_info(line, line.len()).unwrap();
    assert_eq!(info.content_before_cursor, "./d");
    assert_eq!(info.string_start_byte, "é😀 = open(".len());
    assert_eq!(info.string_start_utf16, 1 + 2 + 9);
}

#[test]
fn utf16_length_counts_surrogate_pairs() {
    assert_eq!(utf16_len("a😀é"), 4);
    assert_eq!(utf16_len(""), 0);
}

#[test]
fn string_info_none_outside_and_after_comment() {
    assert!(find_string_info("open(x)", 5).is_none());
    assert!(find_string_info("x # \"abc", 8).is_none());
    assert!(find_string_info("\"abc\" + y", 9).is_none());
    let line = "é\"x";
    assert!(find_string_info(line, 1).is_none());
}

#[test]
fn string_info_prefix_after_word_is_plain() {
    let info = find_string_info("_f\"{a", 5).unwrap();
    assert!(!info.is_fstring);
    assert_eq!(info.content_before_cursor, "{a");
}

#[test]
fn string_info_triple_quotes_and_escapes() {
    let line = "s = \"\"\"a\"b";
    let info = find_string_info(line, line.len()).unwrap();
    assert_eq!(info.content_before_cursor, "a\"b");
    let esc = "'a\\'b";
    let info = find_string_info(esc, esc.len()).unwrap();
    assert_eq!(info.content_before_cursor, "a\\'b");
}

#[test]
fn string_info_doubled_braces_are_literal() {
    let line = "f\"{{x";
    assert!(find_string_info(line, line.len()).is_some());
    let nested = "f\"{a}{b";
    assert!(find_string_info(nested, nested.len()).is_none());
}

#[test]
fn content_shrinks_when_cursor_moves_back() {
    let line = "open(\"./abc/def";
    let late = find_string_info(line, line.len()).unwrap();
    let early = find_string_info(line, line.len() - 3).unwrap();
    assert_eq!(early.string_start_byte, late.string_start_byte);
    assert!(late.content_before_cursor.starts_with(&early.content_before_cursor));
    assert_eq!(early.content_before_cursor, "./abc/");
}

#[test]
fn query_parts_join_back() {
    let config = Config::default();
    for text in ["./a/b", "../x", "/usr/lo", "C:\\Users\\me", "~/Do", "see ./data/f"] {
        let q = find_prefix_query(text, &config).unwrap();
        assert_eq!(format!("{}{}", q.dir_part, q.segment_prefix), q.path_str);
        assert!(!q.segment_prefix.contains('/') && !q.segment_prefix.contains('\\'));
    }
    let rel = build_relative_query("data/sub/fi");
    assert_eq!(rel.dir_part, "data/sub/");
    assert_eq!(rel.segment_prefix, "fi");
    assert_eq!(rel.prefix_kind, PrefixKind::Relative);
}

#[test]
fn bare_tilde_lists_home() {
    let config = Config::default();
    let q = find_prefix_query("~", &config).unwrap();
    assert_eq!(q.prefix_kind, PrefixKind::Home);
    assert_eq!(q.dir_part, "~/");
    assert_eq!(q.segment_prefix, "");
    assert_eq!(q.path_str, "~");
}

#[test]
fn last_prefix_wins_and_kinds() {
    let config = Config::default();
    let q = find_prefix_query("./a b/c", &config).unwrap();
    assert_eq!(q.path_str, "./a b/c");
    let q = find_prefix_query("x /abs/p", &config).unwrap();
    assert_eq!(q.path_str, "/abs/p");
    assert_eq!(q.prefix_kind, PrefixKind::Absolute);
    let q = find_prefix_query("\\\\srv\\share", &config).unwrap();
    assert_eq!(q.prefix_kind, PrefixKind::WindowsUnc);
    let q = find_prefix_query("D:/Data/x", &config).unwrap();
    assert_eq!(q.prefix_kind, PrefixKind::WindowsDrive);
    assert!(find_prefix_query("data.csv", &config).is_none());
    assert!(find_prefix_query("", &config).is_none());
    let mut no_win = Config::default();
    no_win.windows_enable_drive_prefix = false;
    assert!(find_prefix_query("D:/Data/x", &no_win).is_none());
}

#[test]
fn separator_choice() {
    let config = Config::default();
    assert_eq!(separator_for_insertion("a\\b", &config), '/');
    let mut back = Config::default();
    back.prefer_forward_slashes = false;
    assert_eq!(separator_for_insertion("a\\b", &back), '\\');
    assert_eq!(separator_for_insertion("a/b", &back), '/');
    assert_eq!(separator_for_insertion("ab", &back), std::path::MAIN_SEPARATOR);
}

#[test]
fn filter_applies_every_rule() {
    let entries = vec![
        ("zeta".to_string(), true, "/p/zeta".to_string()),
        (".hidden".to_string(), false, "/p/.hidden".to_string()),
        ("node_modules".to_string(), true, "/p/node_modules/x".to_string()),
        ("alpha.py".to_string(), false, "/p/alpha.py".to_string()),
        ("beta".to_string(), true, "/p/beta".to_string()),
        ("Alpha".to_string(), false, "C:\\p\\.git\\Alpha".to_string()),
    ];
    let config = Config::default();
    let out = filter_entries(entries.clone(), "", &config);
    let names: Vec<&str> = out.iter().map(|e| e.0.as_str()).collect();
    assert_eq!(names, vec!["beta", "zeta", "alpha.py"]);
    let out = filter_entries(entries.clone(), "a", &config);
    assert_eq!(out, vec![("alpha.py".to_string(), false)]);
    let mut files_only = Config::default();
    files_only.include_directories = false;
    files_only.show_hidden = true;
    let out = filter_entries(entries, "", &files_only);
    let names: Vec<&str> = out.iter().map(|e| e.0.as_str()).collect();
    assert_eq!(names, vec![".hidden", "alpha.py"]);
}

#[test]
fn glob_star_stays_in_segment() {
    assert!(glob_match("*.py", "main.py"));
    assert!(!glob_match("*.py", "src/main.py"));
    assert!(glob_match("**.py", "src/main.py"));
    assert!(glob_match("a*b*c*d*e*f", "axxbxxcxxdxxexxf"));
    assert!(!glob_match("*a*a*a*a*a*a*a*a*a*a*a*b", "aaaaaaaaaaaaaaaaaaaaaaaaaaaaaaaaaaaaaaaa"));
    assert!(glob_match("", ""));
    assert!(!glob_match("", "x"));
}
