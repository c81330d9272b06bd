//! Turns a path query into the directories to list. `.` and `..` are applied
//! to the text of the path; the file system is never consulted.

use vstd::prelude::*;
use crate::config::{BaseDirStrategy, Config, WorkspaceRootStrategy};
use crate::query::{is_sep, last_sep, PathQuery, PrefixKind};
use crate::text::{chars_of, string_from_chars};

verus! {

/// `p` without trailing separators, a lone root kept.
pub open spec fn trim_trailing_seps(p: Seq<char>) -> Seq<char>
    decreases p.len(),
{
    if p.len() > 1 && is_sep(p.last()) {
        trim_trailing_seps(p.drop_last())
    } else {
        p
    }
}

/// The directory above `p`; `p` itself at a root or without a separator.
pub open spec fn parent_dir(p: Seq<char>) -> Seq<char> {
    let ls = last_sep(p);
    if ls < 0 || p.len() <= 1 {
        p
    } else if ls == 0 {
        p.take(1)
    } else {
        p.take(ls)
    }
}

/// `part` appended to `p` as a new last component.
pub open spec fn join_dir(p: Seq<char>, part: Seq<char>) -> Seq<char> {
    if p.len() > 0 && is_sep(p.last()) {
        p + part
    } else {
        p.push('/') + part
    }
}

/// Applies one component: empty and `.` stay, `..` climbs, others descend.
pub open spec fn step_dir(cur: Seq<char>, comp: Seq<char>) -> Seq<char> {
    if comp.len() == 0 || comp == seq!['.'] {
        cur
    } else if comp == seq!['.', '.'] {
        parent_dir(cur)
    } else {
        join_dir(cur, comp)
    }
}

/// Applies the components of `d`, split at separators, left to right, with
/// `comp` the part of the current component read so far.
pub open spec fn walk_dir(cur: Seq<char>, comp: Seq<char>, d: Seq<char>) -> Seq<char>
    decreases d.len(),
{
    if d.len() == 0 {
        step_dir(cur, comp)
    } else if is_sep(d[0]) {
        walk_dir(step_dir(cur, comp), Seq::empty(), d.skip(1))
    } else {
        walk_dir(cur, comp.push(d[0]), d.skip(1))
    }
}

/// The directory that the relative directory part `d` names from `base`.
pub open spec fn relative_dir(base: Seq<char>, d: Seq<char>) -> Seq<char> {
    walk_dir(trim_trailing_seps(base), Seq::empty(), d)
}

/// `s` without its leading `~` characters.
pub open spec fn strip_tildes(s: Seq<char>) -> Seq<char>
    decreases s.len(),
{
    if s.len() > 0 && s[0] == '~' {
        strip_tildes(s.skip(1))
    } else {
        s
    }
}

pub open spec fn opt_view(o: Option<&str>) -> Option<Seq<char>> {
    match o {
        Some(s) => Some(s@),
        None => None,
    }
}

/// The directories to list for a query, in order.
pub open spec fn list_dirs_of(
    kind: PrefixKind,
    dir_part: Seq<char>,
    file_dir: Option<Seq<char>>,
    root_dir: Option<Seq<char>>,
    home: Option<Seq<char>>,
    expand_tilde: bool,
    base: BaseDirStrategy,
    root_strategy: WorkspaceRootStrategy,
) -> Seq<Seq<char>> {
    match kind {
        PrefixKind::Home => {
            if !expand_tilde {
                Seq::empty()
            } else {
                match home {
                    Some(h) => seq![relative_dir(h, strip_tildes(dir_part))],
                    None => Seq::empty(),
                }
            }
        },
        PrefixKind::Relative => {
            let root = if root_strategy == WorkspaceRootStrategy::LspRootUri {
                root_dir
            } else {
                None
            };
            let from_file = match file_dir {
                Some(f) => seq![relative_dir(f, dir_part)],
                None => Seq::empty(),
            };
            let from_root = match root {
                Some(r) => seq![relative_dir(r, dir_part)],
                None => Seq::empty(),
            };
            match base {
                BaseDirStrategy::FileDir => from_file,
                BaseDirStrategy::WorkspaceRoot => from_root,
                BaseDirStrategy::Both => {
                    if from_root.len() > 0 && from_file.len() > 0 && from_root[0] == from_file[0] {
                        from_file
                    } else {
                        from_file + from_root
                    }
                },
            }
        },
        _ => seq![dir_part],
    }
}

fn chars_equal(a: &Vec<char>, b: &Vec<char>) -> (r: bool)
    ensures
        r == (a@ == b@),
{
    if a.len() != b.len() {
        return false;
    }
    let mut i: usize = 0;
    while i < a.len()
        invariant
            a@.len() == b@.len(),
            i <= a@.len(),
            forall|j: int| 0 <= j < i ==> a@[j] == b@[j],
        decreases a@.len() - i,
    {
        if a[i] != b[i] {
            return false;
        }
        i = i + 1;
    }
    assert(a@ =~= b@);
    true
}

fn parent_exec(cur: &mut Vec<char>)
    ensures
        final(cur)@ == parent_dir(old(cur)@),
{
    let n = cur.len();
    if n <= 1 {
        return;
    }
    let mut i = n;
    proof {
        assert(cur@.take(n as int) =~= cur@);
    }
    while i > 0
        invariant
            cur@ == old(cur)@,
            n == cur@.len(),
            n > 1,
            i <= n,
            last_sep(cur@.take(i as int)) == last_sep(cur@),
        decreases i,
    {
        proof {
            assert(cur@.take(i as int).drop_last() =~= cur@.take(i - 1));
        }
        if cur[i - 1] == '/' || cur[i - 1] == '\\' {
            let keep = if i - 1 == 0 {
                1
            } else {
                i - 1
            };
            cur.truncate(keep);
            return;
        }
        i = i - 1;
    }
}

fn step_exec(cur: &mut Vec<char>, comp: &Vec<char>)
    ensures
        final(cur)@ == step_dir(old(cur)@, comp@),
{
    let n = comp.len();
    if n == 0 || (n == 1 && comp[0] == '.') {
        assert(n == 0 || comp@ =~= seq!['.']);
        return;
    }
    if n == 2 && comp[0] == '.' && comp[1] == '.' {
        assert(comp@ =~= seq!['.', '.']);
        parent_exec(cur);
        return;
    }
    proof {
        if comp@ == seq!['.'] || comp@ == seq!['.', '.'] {
            assert(comp@[0] == '.');
        }
    }
    let m = cur.len();
    if !(m > 0 && (cur[m - 1] == '/' || cur[m - 1] == '\\')) {
        cur.push('/');
    }
    let ghost base = cur@;
    let mut i: usize = 0;
    while i < n
        invariant
            n == comp@.len(),
            i <= n,
            cur@ == base + comp@.take(i as int),
        decreases n - i,
    {
        cur.push(comp[i]);
        proof {
            assert(comp@.take(i + 1) =~= comp@.take(i as int).push(comp@[i as int]));
        }
        i = i + 1;
    }
    assert(comp@.take(n as int) =~= comp@);
}

/// The directory that relative directory part `dir_part` names from `base`.
fn apply_relative_dir(base: &str, dir_part: &str) -> (r: String)
    ensures
        r@ == relative_dir(base@, dir_part@),
{
    let mut cur = chars_of(base);
    while cur.len() > 1 && (cur[cur.len() - 1] == '/' || cur[cur.len() - 1] == '\\')
        invariant
            trim_trailing_seps(cur@) == trim_trailing_seps(base@),
        decreases cur@.len(),
    {
        let ghost before = cur@;
        cur.pop();
        assert(cur@ =~= before.drop_last());
    }
    let d = chars_of(dir_part);
    let n = d.len();
    let mut comp: Vec<char> = Vec::new();
    let mut i: usize = 0;
    assert(d@.skip(0) =~= d@);
    while i < n
        invariant
            n == d@.len(),
            i <= n,
            walk_dir(cur@, comp@, d@.skip(i as int)) == relative_dir(base@, dir_part@),
        decreases n - i,
    {
        let ghost rest = d@.skip(i as int);
        assert(rest.skip(1) =~= d@.skip(i + 1));
        if d[i] == '/' || d[i] == '\\' {
            step_exec(&mut cur, &comp);
            comp = Vec::new();
        } else {
            comp.push(d[i]);
        }
        i = i + 1;
    }
    step_exec(&mut cur, &comp);
    string_from_chars(&cur)
}

fn strip_tildes_exec(s: &str) -> (r: String)
    ensures
        r@ == strip_tildes(s@),
{
    let c = chars_of(s);
    let mut i: usize = 0;
    assert(c@.skip(0) =~= c@);
    while i < c.len() && c[i] == '~'
        invariant
            c@ == s@,
            i <= c@.len(),
            strip_tildes(c@.skip(i as int)) == strip_tildes(s@),
        decreases c@.len() - i,
    {
        assert(c@.skip(i as int).skip(1) =~= c@.skip(i + 1));
        i = i + 1;
    }
    let r = s.substring_char(i, c.len()).to_owned();
    assert(r@ =~= c@.skip(i as int));
    r
}

/// The directories to list for `query`: the home directory, the typed
/// absolute path, or the typed relative path applied to the file's directory
/// and/or the workspace root, per `config`. Never consults the file system.
pub fn resolve_list_dirs(
    query: &PathQuery,
    file_dir: Option<&str>,
    root_dir: Option<&str>,
    home: Option<&str>,
    config: &Config,
) -> (r: Vec<String>)
    ensures
        r@.map_values(|d: String| d@) == list_dirs_of(
            query.prefix_kind,
            query.dir_part@,
            opt_view(file_dir),
            opt_view(root_dir),
            opt_view(home),
            config.expand_tilde,
            config.base_dir,
            config.workspace_root_strategy,
        ),
{
    let mut dirs: Vec<String> = Vec::new();
    match query.prefix_kind {
        PrefixKind::Home => {
            if config.expand_tilde {
                if let Some(h) = home {
                    let rest = strip_tildes_exec(query.dir_part.as_str());
                    dirs.push(apply_relative_dir(h, rest.as_str()));
                }
            }
        },
        PrefixKind::Relative => {
            let root = match config.workspace_root_strategy {
                WorkspaceRootStrategy::LspRootUri => root_dir,
                WorkspaceRootStrategy::Disabled => None,
            };
            let use_file = match config.base_dir {
                BaseDirStrategy::WorkspaceRoot => false,
                _ => true,
            };
            let use_root = match config.base_dir {
                BaseDirStrategy::FileDir => false,
                _ => true,
            };
            let mut from_file: Option<Vec<char>> = None;
            if use_file {
                if let Some(f) = file_dir {
                    let d = apply_relative_dir(f, query.dir_part.as_str());
                    from_file = Some(chars_of(d.as_str()));
                    dirs.push(d);
                }
            }
            if use_root {
                if let Some(rd) = root {
                    let d = apply_relative_dir(rd, query.dir_part.as_str());
                    let dc = chars_of(d.as_str());
                    let dup = match &from_file {
                        Some(fc) => chars_equal(fc, &dc),
                        None => false,
                    };
                    if !dup {
                        dirs.push(d);
                    }
                }
            }
        },
        _ => {
            dirs.push(query.dir_part.clone());
        },
    }
    assert(dirs@.map_values(|d: String| d@) =~= list_dirs_of(
        query.prefix_kind,
        query.dir_part@,
        opt_view(file_dir),
        opt_view(root_dir),
        opt_view(home),
        config.expand_tilde,
        config.base_dir,
        config.workspace_root_strategy,
    ));
    dirs
}

} // verus!
