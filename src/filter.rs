//! Filters a directory listing by visibility, kind, typed prefix and ignore
//! patterns, then orders it: directories first, then by name.

use vstd::prelude::*;
use vstd::utf8::encode_utf8;
use crate::config::Config;
use crate::glob::{glob_match, glob_matches, normalize_for_match};
use crate::text::chars_of;

verus! {

broadcast use vstd::seq_lib::group_seq_properties;

/// A listed entry as plain values: name, whether a directory, full path.
pub type ListedView = (Seq<char>, bool, Seq<char>);

/// A candidate as plain values: name and whether a directory.
pub type NamedView = (Seq<char>, bool);

pub open spec fn listed_view(e: (String, bool, String)) -> ListedView {
    (e.0@, e.1, e.2@)
}

pub open spec fn named_view(e: (String, bool)) -> NamedView {
    (e.0@, e.1)
}

pub open spec fn drop_path(e: ListedView) -> NamedView {
    (e.0, e.1)
}

/// `p` begins `s`.
pub open spec fn has_prefix(s: Seq<char>, p: Seq<char>) -> bool {
    p.len() <= s.len() && s.take(p.len() as int) == p
}

pub open spec fn slashed(path: Seq<char>) -> Seq<char> {
    path.map_values(|c: char| if c == '\\' { '/' } else { c })
}

/// Some ignore pattern matches the path, with backslashes read as slashes.
pub open spec fn ignored(path: Seq<char>, globs: Seq<Seq<char>>) -> bool {
    exists|k: int|
        0 <= k < globs.len() && glob_matches(encode_utf8(globs[k]), encode_utf8(slashed(path)))
}

/// The entry survives the filters of a configuration.
pub open spec fn keep_entry(
    e: ListedView,
    prefix: Seq<char>,
    show_hidden: bool,
    include_files: bool,
    include_directories: bool,
    globs: Seq<Seq<char>>,
) -> bool {
    &&& show_hidden || !(e.0.len() > 0 && e.0[0] == '.')
    &&& include_directories || !e.1
    &&& include_files || e.1
    &&& has_prefix(e.0, prefix)
    &&& !ignored(e.2, globs)
}

/// Lexicographic order of characters by code point, which is the byte order
/// of their UTF-8 encodings.
pub open spec fn lex_le(a: Seq<char>, b: Seq<char>) -> bool
    decreases a.len(),
{
    if a.len() == 0 {
        true
    } else if b.len() == 0 {
        false
    } else if (a[0] as u32) < (b[0] as u32) {
        true
    } else if (a[0] as u32) > (b[0] as u32) {
        false
    } else {
        lex_le(a.skip(1), b.skip(1))
    }
}

/// Directories before files; by name within each kind.
pub open spec fn entry_le(a: NamedView, b: NamedView) -> bool {
    (a.1 && !b.1) || (a.1 == b.1 && lex_le(a.0, b.0))
}

pub open spec fn sorted_entries(s: Seq<NamedView>) -> bool {
    forall|i: int, j: int| 0 <= i < j < s.len() ==> entry_le(s[i], s[j])
}

proof fn lemma_lex_total(a: Seq<char>, b: Seq<char>)
    ensures
        lex_le(a, b) || lex_le(b, a),
    decreases a.len(),
{
    if a.len() > 0 && b.len() > 0 && a[0] as u32 == b[0] as u32 {
        lemma_lex_total(a.skip(1), b.skip(1));
    }
}

proof fn lemma_lex_trans(a: Seq<char>, b: Seq<char>, c: Seq<char>)
    requires
        lex_le(a, b),
        lex_le(b, c),
    ensures
        lex_le(a, c),
    decreases a.len(),
{
    if a.len() > 0 && b.len() > 0 && c.len() > 0 {
        if a[0] as u32 == b[0] as u32 && b[0] as u32 == c[0] as u32 {
            lemma_lex_trans(a.skip(1), b.skip(1), c.skip(1));
        }
    }
}

proof fn lemma_entry_total(a: NamedView, b: NamedView)
    ensures
        entry_le(a, b) || entry_le(b, a),
{
    lemma_lex_total(a.0, b.0);
}

proof fn lemma_entry_trans(a: NamedView, b: NamedView, c: NamedView)
    requires
        entry_le(a, b),
        entry_le(b, c),
    ensures
        entry_le(a, c),
{
    if a.1 == b.1 && b.1 == c.1 {
        lemma_lex_trans(a.0, b.0, c.0);
    }
}

fn lex_le_exec(a: &String, b: &String) -> (r: bool)
    ensures
        r == lex_le(a@, b@),
{
    let x = chars_of(a.as_str());
    let y = chars_of(b.as_str());
    let mut i: usize = 0;
    while i < x.len() && i < y.len() && (x[i] as u32) == (y[i] as u32)
        invariant
            x@ == a@,
            y@ == b@,
            i <= x@.len(),
            i <= y@.len(),
            lex_le(x@.skip(i as int), y@.skip(i as int)) == lex_le(a@, b@),
        decreases x@.len() - i,
    {
        proof {
            assert(x@.skip(i as int).skip(1) =~= x@.skip(i + 1));
            assert(y@.skip(i as int).skip(1) =~= y@.skip(i + 1));
        }
        i = i + 1;
    }
    proof {
        if i < x@.len() {
            assert(x@.skip(i as int)[0] == x@[i as int]);
        }
        if i < y@.len() {
            assert(y@.skip(i as int)[0] == y@[i as int]);
        }
    }
    if i == x.len() {
        true
    } else if i == y.len() {
        false
    } else {
        (x[i] as u32) < (y[i] as u32)
    }
}

fn entry_le_exec(a: &(String, bool), b: &(String, bool)) -> (r: bool)
    ensures
        r == entry_le(named_view(*a), named_view(*b)),
{
    (a.1 && !b.1) || (a.1 == b.1 && lex_le_exec(&a.0, &b.0))
}

fn starts_with_chars(s: &String, p: &str) -> (r: bool)
    ensures
        r == has_prefix(s@, p@),
{
    let x = chars_of(s.as_str());
    let y = chars_of(p);
    if y.len() > x.len() {
        return false;
    }
    let mut i: usize = 0;
    while i < y.len()
        invariant
            x@ == s@,
            y@ == p@,
            y@.len() <= x@.len(),
            i <= y@.len(),
            forall|j: int| 0 <= j < i ==> x@[j] == y@[j],
        decreases y@.len() - i,
    {
        if x[i] != y[i] {
            return false;
        }
        i = i + 1;
    }
    assert(x@.take(y@.len() as int) =~= y@);
    true
}

fn is_ignored(path: &String, globs: &Vec<String>) -> (r: bool)
    ensures
        r == ignored(path@, globs@.map_values(|g: String| g@)),
{
    let normalized = normalize_for_match(path.as_str());
    let ghost gv = globs@.map_values(|g: String| g@);
    let mut k: usize = 0;
    while k < globs.len()
        invariant
            k <= globs@.len(),
            gv == globs@.map_values(|g: String| g@),
            normalized@ == slashed(path@),
            forall|j: int|
                0 <= j < k ==> !glob_matches(encode_utf8(gv[j]), encode_utf8(slashed(path@))),
        decreases globs@.len() - k,
    {
        if glob_match(globs[k].as_str(), normalized.as_str()) {
            assert(gv[k as int] == globs@[k as int]@);
            return true;
        }
        k = k + 1;
    }
    false
}

fn keep_exec(e: &(String, bool, String), segment_prefix: &str, config: &Config) -> (r: bool)
    ensures
        r == keep_entry(
            listed_view(*e),
            segment_prefix@,
            config.show_hidden,
            config.include_files,
            config.include_directories,
            config.ignore_globs@.map_values(|g: String| g@),
        ),
{
    let name = chars_of(e.0.as_str());
    if !config.show_hidden && name.len() > 0 && name[0] == '.' {
        return false;
    }
    if !config.include_directories && e.1 {
        return false;
    }
    if !config.include_files && !e.1 {
        return false;
    }
    if !starts_with_chars(&e.0, segment_prefix) {
        return false;
    }
    !is_ignored(&e.2, &config.ignore_globs)
}

/// Inserts `e` into sorted `out` after every entry that orders before it.
fn insert_sorted(out: &mut Vec<(String, bool)>, e: (String, bool))
    requires
        sorted_entries(old(out)@.map_values(|x: (String, bool)| named_view(x))),
    ensures
        sorted_entries(final(out)@.map_values(|x: (String, bool)| named_view(x))),
        final(out)@.map_values(|x: (String, bool)| named_view(x)).to_multiset() == old(
            out,
        )@.map_values(|x: (String, bool)| named_view(x)).to_multiset().insert(named_view(e)),
{
    let ghost s = out@.map_values(|x: (String, bool)| named_view(x));
    let mut p: usize = 0;
    while p < out.len() && entry_le_exec(&out[p], &e)
        invariant
            s == out@.map_values(|x: (String, bool)| named_view(x)),
            p <= out@.len(),
            forall|j: int| 0 <= j < p ==> entry_le(s[j], named_view(e)),
        decreases out@.len() - p,
    {
        p = p + 1;
    }
    let ghost ev = named_view(e);
    out.insert(p, e);
    let ghost t = out@.map_values(|x: (String, bool)| named_view(x));
    assert(t =~= s.insert(p as int, ev));
    proof {
        if p < s.len() {
            lemma_entry_total(s[p as int], ev);
        }
        assert forall|k: int| p <= k < s.len() implies entry_le(ev, s[k]) by {
            if k > p {
                lemma_entry_trans(ev, s[p as int], s[k]);
            }
        }
        assert forall|i: int, j: int| 0 <= i < j < t.len() implies entry_le(t[i], t[j]) by {
            if j < p {
                assert(t[i] == s[i] && t[j] == s[j]);
            } else if j == p {
                assert(t[i] == s[i]);
            } else if i < p {
                assert(t[i] == s[i] && t[j] == s[j - 1]);
                lemma_entry_trans(s[i], ev, s[j - 1]);
            } else if i == p {
                assert(t[j] == s[j - 1]);
            } else {
                assert(t[i] == s[i - 1] && t[j] == s[j - 1]);
            }
        }
        assert(t.remove(p as int) =~= s);
        assert(t[p as int] == ev);
        assert(t.to_multiset().remove(ev) == s.to_multiset());
        assert(t.to_multiset().count(ev) > 0);
        assert(t.to_multiset() =~= s.to_multiset().insert(ev));
    }
}

/// The entries that pass the filters, directories first, then by name.
pub fn filter_entries(entries: Vec<(String, bool, String)>, segment_prefix: &str, config: &Config) -> (r: Vec<(String, bool)>)
    ensures
        sorted_entries(r@.map_values(|x: (String, bool)| named_view(x))),
        r@.map_values(|x: (String, bool)| named_view(x)).to_multiset() == entries@.map_values(
            |e: (String, bool, String)| listed_view(e),
        ).filter(
            |e: ListedView|
                keep_entry(
                    e,
                    segment_prefix@,
                    config.show_hidden,
                    config.include_files,
                    config.include_directories,
                    config.ignore_globs@.map_values(|g: String| g@),
                ),
        ).map_values(|e: ListedView| drop_path(e)).to_multiset(),
{
    let ghost pred = |e: ListedView|
        keep_entry(
            e,
            segment_prefix@,
            config.show_hidden,
            config.include_files,
            config.include_directories,
            config.ignore_globs@.map_values(|g: String| g@),
        );
    let ghost all = entries@.map_values(|e: (String, bool, String)| listed_view(e));
    let mut out: Vec<(String, bool)> = Vec::new();
    let mut i: usize = 0;
    while i < entries.len()
        invariant
            i <= entries@.len(),
            all == entries@.map_values(|e: (String, bool, String)| listed_view(e)),
            pred == (|e: ListedView|
                keep_entry(
                    e,
                    segment_prefix@,
                    config.show_hidden,
                    config.include_files,
                    config.include_directories,
                    config.ignore_globs@.map_values(|g: String| g@),
                )),
            sorted_entries(out@.map_values(|x: (String, bool)| named_view(x))),
            out@.map_values(|x: (String, bool)| named_view(x)).to_multiset() == all.take(
                i as int,
            ).filter(pred).map_values(|e: ListedView| drop_path(e)).to_multiset(),
        decreases entries@.len() - i,
    {
        let ghost before = all.take(i as int);
        assert(all.take(i + 1) =~= before.push(all[i as int]));
        let keep = keep_exec(&entries[i], segment_prefix, config);
        assert(all[i as int] == listed_view(entries@[i as int]));
        if keep {
            let item = (entries[i].0.clone(), entries[i].1);
            insert_sorted(&mut out, item);
            proof {
                assert(pred(all[i as int]));
                before.lemma_filter_push(all[i as int], pred);
                assert(before.push(all[i as int]).filter(pred) == before.filter(pred).push(
                    all[i as int],
                ));
                assert(before.filter(pred).push(all[i as int]).map_values(
                    |e: ListedView| drop_path(e),
                ) =~= before.filter(pred).map_values(|e: ListedView| drop_path(e)).push(
                    named_view(item),
                ));
            }
        } else {
            proof {
                assert(!pred(all[i as int]));
                before.lemma_filter_push(all[i as int], pred);
                assert(before.push(all[i as int]).filter(pred) == before.filter(pred));
            }
        }
        i = i + 1;
    }
    assert(all.take(entries@.len() as int) =~= all);
    out
}

} // verus!
