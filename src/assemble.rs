//! One completion request from start to end: find the string at the cursor,
//! classify what was typed, decide whether to offer paths, pick the
//! directories to list, and turn their listings into candidates with the
//! text they insert.

use vstd::prelude::*;
use crate::cache::DirEntryInfo;
use crate::config::{Config, ContextGating};
use crate::context::{is_path_context, path_context_at};
use crate::filter::{filter_entries, keep_entry, listed_view, named_view, sorted_entries, ListedView, NamedView, drop_path};
use crate::lexer::{content_start, describes, find_string_info, string_at, OpenString, StringInfo};
use crate::lines::{
    col_index, get_line, lemma_col_index, lemma_line_start, lemma_next_newline, line_of,
    line_start_char, line_start_offset, next_newline, utf16_col_to_byte,
};
use crate::query::{
    after_last_sep, build_relative_query, find_prefix_query, last_sep, lemma_last_sep_bounds,
    prefix_query_of, query_dir, query_matches, separator_for_insertion, PathQuery, PrefixKind,
};
use crate::resolve::{join_dir, list_dirs_of, opt_view, resolve_list_dirs};
use crate::text::{
    byte_len, chars_of, is_char_offset, lemma_byte_len_mono, lemma_char_offset_unique,
    lemma_encode_utf8_append, lemma_take_full, lemma_utf16_count_append, lemma_utf16_count_mono,
    str_byte_len, string_from_chars, utf16_count, utf16_offset,
};

verus! {

/// Whether the gating mode lets completion go ahead.
pub open spec fn gate_allows(g: ContextGating, has_prefix: bool, path_shaped: bool) -> bool {
    match g {
        ContextGating::Off => true,
        ContextGating::Strict => path_shaped,
        ContextGating::Smart => has_prefix || path_shaped,
    }
}

/// Applies the gating mode: `Off` always allows, `Strict` asks the code
/// around the string, `Smart` trusts a path prefix and else asks the code.
pub fn is_completion_allowed(
    gating: ContextGating,
    text: &str,
    has_prefix_query: bool,
    string_start_offset: usize,
) -> (r: bool)
    ensures
        r == gate_allows(
            gating,
            has_prefix_query,
            path_context_at(text@, string_start_offset as int),
        ),
{
    match gating {
        ContextGating::Strict => is_path_context(text, string_start_offset),
        ContextGating::Off => true,
        ContextGating::Smart => {
            if has_prefix_query {
                true
            } else {
                is_path_context(text, string_start_offset)
            }
        },
    }
}

/// The string at the cursor of a request: the line, the cursor's character
/// index in it, and the string literal.
pub open spec fn request_string(text: Seq<char>, line: nat, col: int) -> Option<
    (Seq<char>, int, OpenString),
> {
    match line_of(text, line) {
        Some(l) => {
            if col <= utf16_count(l) {
                let k = col_index(l, col, 0);
                match string_at(l, k) {
                    Some(s) => Some((l, k, s)),
                    None => None,
                }
            } else {
                None
            }
        },
        None => None,
    }
}

/// Byte offset in the buffer of the opening quote of string `s` on `line`.
pub open spec fn quote_offset(text: Seq<char>, line: nat, s: OpenString) -> int {
    byte_len(text.take(line_start_char(text, line) + s.start)) as int
}

/// What a request works on once completion is decided.
pub struct CompletionPlan {
    pub info: StringInfo,
    pub query: PathQuery,
    /// The directories to list, in order.
    pub list_dirs: Vec<String>,
    /// UTF-16 column where the replaced text starts; it ends at the cursor.
    pub edit_start: u32,
}

/// A candidate offered to the user.
pub struct CompletionCandidate {
    pub label: String,
    pub is_dir: bool,
    /// The name, with a separator after a directory when so configured.
    pub insert_text: String,
}

/// Decides a request at UTF-16 column `col` of line number `line` of `text`:
/// `None` when completion is disabled, the cursor is in no string, gating
/// says no, or no directory is left to list.
#[verifier::rlimit(50)]
pub fn plan_completion(
    text: &str,
    line: u32,
    col: u32,
    file_dir: Option<&str>,
    root_dir: Option<&str>,
    home: Option<&str>,
    config: &Config,
) -> (r: Option<CompletionPlan>)
    ensures
        match request_string(text@, line as nat, col as int) {
            None => r is None,
            Some((l, k, s)) => {
                let content = l.subrange(content_start(s), k);
                let pq = if config.path_prefix_fallback {
                    prefix_query_of(
                        content,
                        config.windows_enable_unc,
                        config.windows_enable_drive_prefix,
                    )
                } else {
                    None
                };
                let path = match pq {
                    Some((p, _)) => p,
                    None => content,
                };
                let kind = match pq {
                    Some((_, kd)) => kd,
                    None => PrefixKind::Relative,
                };
                let dirs = list_dirs_of(
                    kind,
                    query_dir(path, kind),
                    opt_view(file_dir),
                    opt_view(root_dir),
                    opt_view(home),
                    config.expand_tilde,
                    config.base_dir,
                    config.workspace_root_strategy,
                );
                if config.enable && gate_allows(
                    config.context_gating,
                    pq is Some,
                    path_context_at(text@, quote_offset(text@, line as nat, s)),
                ) && dirs.len() > 0 {
                    r matches Some(p) && describes(l, k, p.info) && query_matches(
                        p.query,
                        path,
                        kind,
                    ) && p.list_dirs@.map_values(|d: String| d@) == dirs && p.edit_start
                        == p.info.string_start_utf16 + utf16_count(
                        content.take(last_sep(content) + 1),
                    )
                } else {
                    r is None
                }
            },
        },
{
    if !config.enable {
        return None;
    }
    let l = match get_line(text, line) {
        Some(l) => l,
        None => return None,
    };
    let cursor_byte = match utf16_col_to_byte(l, col) {
        Some(b) => b,
        None => return None,
    };
    let ghost ls = line_start_char(text@, line as nat);
    let ghost k = col_index(l@, col as int, 0);
    proof {
        lemma_col_index(l@, col as int, 0);
        assert(is_char_offset(l@, k, cursor_byte as int));
        if string_at(l@, k) is Some {
            lemma_utf16_count_mono(l@, content_start(string_at(l@, k)->0), k);
        }
    }
    let line_start = match line_start_offset(text, line) {
        Some(o) => o,
        None => return None,
    };
    let info = match find_string_info(l, cursor_byte) {
        Some(i) => i,
        None => {
            assert(string_at(l@, k) is None);
            return None;
        },
    };
    let ghost s = string_at(l@, k)->0;
    proof {
        let k2 = choose|k2: int|
            is_char_offset(l@, k2, cursor_byte as int) && describes(l@, k2, info);
        lemma_char_offset_unique(l@, k2, k, cursor_byte as int);
    }
    let _total = str_byte_len(text);
    proof {
        lemma_line_start(text@, line as nat);
        lemma_next_newline(text@, ls);
        let e = next_newline(text@, ls);
        assert(l@ == text@.subrange(ls, e));
        assert(text@.take(ls + s.start) =~= text@.take(ls) + l@.take(s.start as int));
        lemma_encode_utf8_append(text@.take(ls), l@.take(s.start as int));
        lemma_byte_len_mono(text@, ls + s.start, text@.len() as int);
        lemma_take_full(text@);
    }
    let quote = line_start + info.string_start_byte;
    let content = info.content_before_cursor.as_str();
    let prefix = if config.path_prefix_fallback {
        find_prefix_query(content, config)
    } else {
        None
    };
    if !is_completion_allowed(config.context_gating, text, prefix.is_some(), quote) {
        return None;
    }
    let query = match prefix {
        Some(q) => q,
        None => build_relative_query(content),
    };
    let dirs = resolve_list_dirs(&query, file_dir, root_dir, home, config);
    if dirs.len() == 0 {
        return None;
    }
    let cc = chars_of(content);
    let m = after_last_sep(&cc);
    let ghost cs = content_start(s);
    proof {
        lemma_last_sep_bounds(cc@);
        assert(l@.take(cs + m) =~= l@.take(cs) + cc@.take(m as int));
        lemma_utf16_count_append(l@.take(cs), cc@.take(m as int));
        lemma_utf16_count_mono(l@, cs + m, k);
    }
    let seg16 = utf16_offset(&cc, m);
    let edit_start = info.string_start_utf16 + seg16;
    Some(CompletionPlan { info, query, list_dirs: dirs, edit_start })
}

/// The entries of a listing of `dir`, each with its full path.
pub fn listing_entries(dir: &str, items: &Vec<DirEntryInfo>) -> (r: Vec<(String, bool, String)>)
    ensures
        r@.len() == items@.len(),
        forall|i: int|
            0 <= i < items@.len() ==> listed_view(#[trigger] r@[i]) == (
                items@[i].name@,
                items@[i].is_dir,
                join_dir(dir@, items@[i].name@),
            ),
{
    let base = chars_of(dir);
    let mut out: Vec<(String, bool, String)> = Vec::new();
    let mut i: usize = 0;
    while i < items.len()
        invariant
            base@ == dir@,
            i <= items@.len(),
            out@.len() == i,
            forall|j: int|
                0 <= j < i ==> listed_view(#[trigger] out@[j]) == (
                    items@[j].name@,
                    items@[j].is_dir,
                    join_dir(dir@, items@[j].name@),
                ),
        decreases items@.len() - i,
    {
        let name = &items[i].name;
        let mut p = base.clone();
        let n = p.len();
        if !(n > 0 && (p[n - 1] == '/' || p[n - 1] == '\\')) {
            p.push('/');
        }
        let ghost head = p@;
        let nc = chars_of(name.as_str());
        let mut j: usize = 0;
        while j < nc.len()
            invariant
                j <= nc@.len(),
                p@ == head + nc@.take(j as int),
            decreases nc@.len() - j,
        {
            p.push(nc[j]);
            proof {
                assert(nc@.take(j + 1) =~= nc@.take(j as int).push(nc@[j as int]));
            }
            j = j + 1;
        }
        proof {
            assert(nc@.take(nc@.len() as int) =~= nc@);
            assert(p@ =~= join_dir(dir@, name@));
        }
        let path = string_from_chars(&p);
        out.push((name.clone(), items[i].is_dir, path));
        i = i + 1;
    }
    out
}

/// Whether `s` already holds an entry named `n`.
pub open spec fn has_name(s: Seq<NamedView>, n: Seq<char>) -> bool {
    exists|i: int| 0 <= i < s.len() && s[i].0 == n
}

/// `s` with each name kept at its first occurrence only.
pub open spec fn dedupe(s: Seq<NamedView>) -> Seq<NamedView>
    decreases s.len(),
{
    if s.len() == 0 {
        Seq::empty()
    } else {
        let d = dedupe(s.drop_last());
        if has_name(d, s.last().0) {
            d
        } else {
            d.push(s.last())
        }
    }
}

/// At most the first `n` elements of `s`.
pub open spec fn at_most<A>(s: Seq<A>, n: nat) -> Seq<A> {
    if s.len() > n {
        s.take(n as int)
    } else {
        s
    }
}

/// The text a candidate inserts.
pub open spec fn insertion(name: Seq<char>, is_dir: bool, trailing: bool, sep: char) -> Seq<char> {
    if is_dir && trailing {
        name.push(sep)
    } else {
        name
    }
}

pub open spec fn candidate_view(c: CompletionCandidate) -> NamedView {
    (c.label@, c.is_dir)
}

/// A separator that may be appended for the typed text under `config`.
pub open spec fn separator_ok(sep: char, content: Seq<char>, config: Config) -> bool {
    &&& config.prefer_forward_slashes ==> sep == '/'
    &&& !config.prefer_forward_slashes && content.contains('\\') ==> sep == '\\'
    &&& !config.prefer_forward_slashes && !content.contains('\\') && content.contains('/') ==> sep
        == '/'
    &&& sep == '/' || sep == '\\'
}

/// Keeps the first entry of each name, truncates to `config.max_results`, and
/// turns each entry into a candidate that inserts its name, followed by `sep`
/// for a directory when trailing separators are enabled.
pub fn finish_candidates(merged: &Vec<(String, bool)>, sep: char, config: &Config) -> (r: Vec<
    CompletionCandidate,
>)
    ensures
        r@.map_values(|c: CompletionCandidate| candidate_view(c)) == at_most(
            dedupe(merged@.map_values(|x: (String, bool)| named_view(x))),
            config.max_results as nat,
        ),
        forall|i: int|
            0 <= i < r@.len() ==> (#[trigger] r@[i]).insert_text@ == insertion(
                r@[i].label@,
                r@[i].is_dir,
                config.directory_trailing_slash,
                sep,
            ),
{
    let ghost mv = merged@.map_values(|x: (String, bool)| named_view(x));
    let mut out: Vec<CompletionCandidate> = Vec::new();
    let mut i: usize = 0;
    while i < merged.len()
        invariant
            i <= merged@.len(),
            mv == merged@.map_values(|x: (String, bool)| named_view(x)),
            out@.map_values(|c: CompletionCandidate| candidate_view(c)) == dedupe(
                mv.take(i as int),
            ),
            forall|j: int|
                0 <= j < out@.len() ==> (#[trigger] out@[j]).insert_text@ == insertion(
                    out@[j].label@,
                    out@[j].is_dir,
                    config.directory_trailing_slash,
                    sep,
                ),
        decreases merged@.len() - i,
    {
        let ghost ov = out@.map_values(|c: CompletionCandidate| candidate_view(c));
        assert(mv.take(i + 1).drop_last() =~= mv.take(i as int));
        assert(mv.take(i + 1).last() == named_view(merged@[i as int]));
        let mut seen = false;
        let mut j: usize = 0;
        while j < out.len()
            invariant
                i < merged@.len(),
                j <= out@.len(),
                ov == out@.map_values(|c: CompletionCandidate| candidate_view(c)),
                seen == has_name(ov.take(j as int), merged@[i as int].0@),
            decreases out@.len() - j,
        {
            assert(ov.take(j + 1) =~= ov.take(j as int).push(ov[j as int]));
            if out[j].label == merged[i].0 {
                seen = true;
            }
            proof {
                if seen {
                    if !has_name(ov.take(j as int), merged@[i as int].0@) {
                        assert(ov.take(j + 1)[j as int].0 == merged@[i as int].0@);
                    } else {
                        let w = choose|w: int|
                            0 <= w < j && ov.take(j as int)[w].0 == merged@[i as int].0@;
                        assert(ov.take(j + 1)[w].0 == merged@[i as int].0@);
                    }
                } else {
                    assert forall|w: int| 0 <= w < j + 1 implies (#[trigger] ov.take(j + 1)[w]).0
                        != merged@[i as int].0@ by {
                        if w < j {
                            assert(ov.take(j + 1)[w] == ov.take(j as int)[w]);
                        }
                    }
                }
            }
            j = j + 1;
        }
        assert(ov.take(out@.len() as int) =~= ov);
        if !seen {
            let name = merged[i].0.clone();
            let is_dir = merged[i].1;
            let mut text = merged[i].0.clone();
            if is_dir && config.directory_trailing_slash {
                text.push(sep);
            }
            let c = CompletionCandidate { label: name, is_dir, insert_text: text };
            out.push(c);
            assert(out@.map_values(|c: CompletionCandidate| candidate_view(c)) =~= ov.push(
                candidate_view(c),
            ));
        }
        i = i + 1;
    }
    assert(mv.take(merged@.len() as int) =~= mv);
    let ghost full = out@;
    if out.len() > config.max_results {
        out.truncate(config.max_results);
        assert(out@.map_values(|c: CompletionCandidate| candidate_view(c)) =~= full.map_values(
            |c: CompletionCandidate| candidate_view(c),
        ).take(config.max_results as int));
    }
    out
}

/// The candidates of a request: each directory's entries filtered and
/// sorted, the lists joined in directory order, then finished as
/// `finish_candidates` says with the separator for the typed `content`.
pub fn collect_candidates(
    listings: Vec<Vec<(String, bool, String)>>,
    segment_prefix: &str,
    content: &str,
    config: &Config,
) -> (r: Vec<CompletionCandidate>)
    ensures
        exists|f: Seq<Seq<NamedView>>, sep: char|
            {
                &&& f.len() == listings@.len()
                &&& forall|i: int|
                    0 <= i < f.len() ==> sorted_entries(#[trigger] f[i]) && f[i].to_multiset()
                        == listings@[i]@.map_values(|e: (String, bool, String)| listed_view(e)).filter(
                        |e: ListedView|
                            keep_entry(
                                e,
                                segment_prefix@,
                                config.show_hidden,
                                config.include_files,
                                config.include_directories,
                                config.ignore_globs@.map_values(|g: String| g@),
                            ),
                    ).map_values(|e: ListedView| drop_path(e)).to_multiset()
                &&& separator_ok(sep, content@, *config)
                &&& r@.map_values(|c: CompletionCandidate| candidate_view(c)) == at_most(
                    dedupe(f.flatten()),
                    config.max_results as nat,
                )
                &&& forall|i: int|
                    0 <= i < r@.len() ==> (#[trigger] r@[i]).insert_text@ == insertion(
                        r@[i].label@,
                        r@[i].is_dir,
                        config.directory_trailing_slash,
                        sep,
                    )
            },
{
    let ghost kept = |l: Vec<(String, bool, String)>|
        l@.map_values(|e: (String, bool, String)| listed_view(e)).filter(
            |e: ListedView|
                keep_entry(
                    e,
                    segment_prefix@,
                    config.show_hidden,
                    config.include_files,
                    config.include_directories,
                    config.ignore_globs@.map_values(|g: String| g@),
                ),
        ).map_values(|e: ListedView| drop_path(e)).to_multiset();
    let mut merged: Vec<(String, bool)> = Vec::new();
    let ghost mut f: Seq<Seq<NamedView>> = Seq::empty();
    let mut rest = listings;
    let ghost orig = rest@;
    while rest.len() > 0
        invariant
            f.len() + rest@.len() == orig.len(),
            rest@ == orig.skip(f.len() as int),
            forall|i: int|
                0 <= i < f.len() ==> sorted_entries(#[trigger] f[i]) && f[i].to_multiset()
                    == kept(orig[i]),
            merged@.map_values(|x: (String, bool)| named_view(x)) == f.flatten(),
            kept == (|l: Vec<(String, bool, String)>|
                l@.map_values(|e: (String, bool, String)| listed_view(e)).filter(
                    |e: ListedView|
                        keep_entry(
                            e,
                            segment_prefix@,
                            config.show_hidden,
                            config.include_files,
                            config.include_directories,
                            config.ignore_globs@.map_values(|g: String| g@),
                        ),
                ).map_values(|e: ListedView| drop_path(e)).to_multiset()),
        decreases rest@.len(),
    {
        let ghost before = rest@;
        let l = rest.remove(0);
        assert(l == orig[f.len() as int]);
        assert(rest@ =~= orig.skip(f.len() as int + 1));
        let mut filtered = filter_entries(l, segment_prefix, config);
        let ghost fv = filtered@.map_values(|x: (String, bool)| named_view(x));
        let ghost mold = merged@;
        let ghost fsrc = filtered@;
        merged.append(&mut filtered);
        proof {
            assert(merged@ =~= mold + fsrc);
            assert(merged@.map_values(|x: (String, bool)| named_view(x)) =~= mold.map_values(
                |x: (String, bool)| named_view(x),
            ) + fv);
            f.lemma_flatten_push(fv);
            f = f.push(fv);
        }
    }
    let sep = separator_for_insertion(content, config);
    let r = finish_candidates(&merged, sep, config);
    assert(f.len() == orig.len());
    assert(orig == listings@);
    assert(separator_ok(sep, content@, *config));
    assert forall|i: int|
        0 <= i < f.len() implies sorted_entries(#[trigger] f[i]) && f[i].to_multiset()
            == listings@[i]@.map_values(|e: (String, bool, String)| listed_view(e)).filter(
            |e: ListedView|
                keep_entry(
                    e,
                    segment_prefix@,
                    config.show_hidden,
                    config.include_files,
                    config.include_directories,
                    config.ignore_globs@.map_values(|g: String| g@),
                ),
        ).map_values(|e: ListedView| drop_path(e)).to_multiset() by {
        assert(f[i].to_multiset() == kept(orig[i]));
    }
    r
}

} // verus!
