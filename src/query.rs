//! Classifies the text typed in a string as a path query and splits it into
//! the directory part and the segment being typed.

use vstd::prelude::*;
use crate::config::Config;
use crate::text::{
    ascii_alpha, byte_len, byte_offset, chars_of, is_ascii_alpha, is_unicode_whitespace,
    lemma_byte_len_mono, lemma_take_full, str_byte_len, unicode_whitespace,
};

verus! {

/// The kind of the leading token of a typed path.
#[derive(Clone, Copy, Debug, PartialEq, Eq, Structural)]
pub enum PrefixKind {
    Relative,
    Absolute,
    Home,
    WindowsDrive,
    WindowsUnc,
}

/// A typed path, split at its last separator.
pub struct PathQuery {
    /// Everything up to and including the last separator.
    pub dir_part: String,
    /// The partial last segment.
    pub segment_prefix: String,
    /// The whole typed path.
    pub path_str: String,
    pub prefix_kind: PrefixKind,
}

pub open spec fn is_sep(c: char) -> bool {
    c == '/' || c == '\\'
}

/// Index of the last separator in `s`, or -1.
pub open spec fn last_sep(s: Seq<char>) -> int
    decreases s.len(),
{
    if s.len() == 0 {
        -1
    } else if is_sep(s.last()) {
        s.len() - 1
    } else {
        last_sep(s.drop_last())
    }
}

/// The directory part of a typed path.
pub open spec fn dir_of(s: Seq<char>) -> Seq<char> {
    s.take(last_sep(s) + 1)
}

/// The segment after the last separator.
pub open spec fn segment_of(s: Seq<char>) -> Seq<char> {
    s.skip(last_sep(s) + 1)
}

/// A drive letter, a colon and a separator.
pub open spec fn drive_prefix(s: Seq<char>) -> bool {
    s.len() >= 3 && is_ascii_alpha(s[0]) && s[1] == ':' && is_sep(s[2])
}

/// `s` begins with a token that looks like the start of a path.
pub open spec fn path_prefix(s: Seq<char>, unc: bool, drive: bool) -> bool {
    ||| (s.len() >= 3 && s[0] == '.' && s[1] == '.' && s[2] == '/')
    ||| (s.len() >= 2 && s[0] == '.' && s[1] == '/')
    ||| (s.len() >= 1 && (s[0] == '/' || s[0] == '~'))
    ||| (unc && s.len() >= 2 && s[0] == '\\' && s[1] == '\\')
    ||| (drive && drive_prefix(s))
}

/// A path may start at index `i`: at the start of the text or after whitespace.
pub open spec fn path_start(s: Seq<char>, i: int, unc: bool, drive: bool) -> bool {
    0 <= i < s.len() && (i == 0 || is_unicode_whitespace(s[i - 1])) && path_prefix(
        s.skip(i),
        unc,
        drive,
    )
}

/// The right-most index below `n` where a path starts, or -1.
pub open spec fn last_path_start(s: Seq<char>, n: int, unc: bool, drive: bool) -> int
    decreases n,
{
    if n <= 0 {
        -1
    } else if path_start(s, n - 1, unc, drive) {
        n - 1
    } else {
        last_path_start(s, n - 1, unc, drive)
    }
}

pub open spec fn kind_of(s: Seq<char>, unc: bool, drive: bool) -> PrefixKind {
    if s.len() >= 1 && s[0] == '~' {
        PrefixKind::Home
    } else if s.len() >= 1 && s[0] == '/' {
        PrefixKind::Absolute
    } else if unc && s.len() >= 2 && s[0] == '\\' && s[1] == '\\' {
        PrefixKind::WindowsUnc
    } else if drive && drive_prefix(s) {
        PrefixKind::WindowsDrive
    } else {
        PrefixKind::Relative
    }
}

/// The home directory typed alone.
pub open spec fn is_bare_home(s: Seq<char>) -> bool {
    s.len() == 1 && s[0] == '~'
}

/// The query that a typed path `s` of kind `kind` stands for. A bare `~`
/// lists the home directory itself.
pub open spec fn query_matches(q: PathQuery, s: Seq<char>, kind: PrefixKind) -> bool {
    &&& q.path_str@ == s
    &&& q.prefix_kind == kind
    &&& q.dir_part@ == query_dir(s, kind)
    &&& q.segment_prefix@ == query_segment(s, kind)
}

/// The directory part of the query for typed path `s` of kind `kind`.
pub open spec fn query_dir(s: Seq<char>, kind: PrefixKind) -> Seq<char> {
    if kind == PrefixKind::Home && is_bare_home(s) {
        seq!['~', '/']
    } else {
        dir_of(s)
    }
}

/// The segment prefix of the query for typed path `s` of kind `kind`.
pub open spec fn query_segment(s: Seq<char>, kind: PrefixKind) -> Seq<char> {
    if kind == PrefixKind::Home && is_bare_home(s) {
        Seq::empty()
    } else {
        segment_of(s)
    }
}

/// The query that the content typed before the cursor holds, if any path
/// prefix occurs in it.
pub open spec fn prefix_query_of(content: Seq<char>, unc: bool, drive: bool) -> Option<
    (Seq<char>, PrefixKind),
> {
    let start = last_path_start(content, content.len() as int, unc, drive);
    if start < 0 {
        None
    } else {
        Some((content.skip(start), kind_of(content.skip(start), unc, drive)))
    }
}

pub proof fn lemma_last_sep_bounds(s: Seq<char>)
    ensures
        -1 <= last_sep(s) < s.len(),
        last_sep(s) >= 0 ==> is_sep(s[last_sep(s)]),
        forall|j: int| last_sep(s) < j < s.len() ==> !is_sep(#[trigger] s[j]),
    decreases s.len(),
{
    if s.len() > 0 && !is_sep(s.last()) {
        lemma_last_sep_bounds(s.drop_last());
        assert forall|j: int| last_sep(s) < j < s.len() implies !is_sep(#[trigger] s[j]) by {
            if j < s.len() - 1 {
                assert(s[j] == s.drop_last()[j]);
            }
        }
    }
}

/// The directory part and the segment of a typed path join back to the path,
/// and the segment holds no separator.
pub proof fn lemma_split_round_trip(s: Seq<char>)
    ensures
        dir_of(s) + segment_of(s) == s,
        forall|j: int| 0 <= j < segment_of(s).len() ==> !is_sep(#[trigger] segment_of(s)[j]),
{
    lemma_last_sep_bounds(s);
    assert(dir_of(s) + segment_of(s) =~= s);
    assert forall|j: int| 0 <= j < segment_of(s).len() implies !is_sep(
        #[trigger] segment_of(s)[j],
    ) by {
        assert(segment_of(s)[j] == s[last_sep(s) + 1 + j]);
    }
}

/// Every query joins back to its typed path, but for a bare `~`, whose
/// directory part is the home directory itself.
pub proof fn lemma_query_round_trip(q: PathQuery, s: Seq<char>, kind: PrefixKind)
    requires
        query_matches(q, s, kind),
        !(kind == PrefixKind::Home && is_bare_home(s)),
    ensures
        q.dir_part@ + q.segment_prefix@ == q.path_str@,
        forall|j: int|
            0 <= j < q.segment_prefix@.len() ==> !is_sep(#[trigger] q.segment_prefix@[j]),
{
    lemma_split_round_trip(s);
}

/// Index one past the last separator in `c`, or 0.
pub(crate) fn after_last_sep(c: &Vec<char>) -> (r: usize)
    ensures
        r == last_sep(c@) + 1,
{
    let mut i: usize = c.len();
    proof {
        lemma_take_full(c@);
    }
    while i > 0
        invariant
            i <= c@.len(),
            last_sep(c@.take(i as int)) == last_sep(c@),
        decreases i,
    {
        proof {
            assert(c@.take(i as int).drop_last() =~= c@.take(i - 1));
        }
        if c[i - 1] == '/' || c[i - 1] == '\\' {
            return i;
        }
        i = i - 1;
    }
    0
}

fn split_dir_and_segment(path_str: &str) -> (r: (String, String))
    ensures
        r.0@ == dir_of(path_str@),
        r.1@ == segment_of(path_str@),
{
    let c = chars_of(path_str);
    let k = after_last_sep(&c);
    proof {
        lemma_last_sep_bounds(path_str@);
    }
    let dir = path_str.substring_char(0, k).to_owned();
    let seg = path_str.substring_char(k, c.len()).to_owned();
    proof {
        assert(dir@ =~= dir_of(path_str@));
        assert(seg@ =~= segment_of(path_str@));
    }
    (dir, seg)
}

fn drive_prefix_at(c: &Vec<char>, i: usize) -> (r: bool)
    requires
        i <= c@.len(),
    ensures
        r == drive_prefix(c@.skip(i as int)),
{
    c.len() - i >= 3 && ascii_alpha(c[i]) && c[i + 1] == ':' && (c[i + 2] == '\\' || c[i + 2]
        == '/')
}

fn path_prefix_at(c: &Vec<char>, i: usize, unc: bool, drive: bool) -> (r: bool)
    requires
        i <= c@.len(),
    ensures
        r == path_prefix(c@.skip(i as int), unc, drive),
{
    let left = c.len() - i;
    (left >= 3 && c[i] == '.' && c[i + 1] == '.' && c[i + 2] == '/') || (left >= 2 && c[i] == '.'
        && c[i + 1] == '/') || (left >= 1 && (c[i] == '/' || c[i] == '~')) || (unc && left >= 2
        && c[i] == '\\' && c[i + 1] == '\\') || (drive && drive_prefix_at(c, i))
}

/// The right-most index where a path starts, if any.
fn last_path_start_index(c: &Vec<char>, unc: bool, drive: bool) -> (r: Option<usize>)
    ensures
        match r {
            Some(k) => k == last_path_start(c@, c@.len() as int, unc, drive) && k < c@.len(),
            None => last_path_start(c@, c@.len() as int, unc, drive) < 0,
        },
{
    let n = c.len();
    let mut i: usize = n;
    while i > 0
        invariant
            n == c@.len(),
            i <= n,
            last_path_start(c@, n as int, unc, drive) == last_path_start(c@, i as int, unc, drive),
        decreases i,
    {
        let j = i - 1;
        if (j == 0 || unicode_whitespace(c[j - 1])) && path_prefix_at(c, j, unc, drive) {
            return Some(j);
        }
        i = i - 1;
    }
    None
}

/// A drive letter, a colon and a separator begin `s`.
pub fn is_windows_drive_prefix(s: &str) -> (r: bool)
    ensures
        r == drive_prefix(s@),
{
    let c = chars_of(s);
    assert(c@.skip(0) =~= c@);
    drive_prefix_at(&c, 0)
}

/// The kind of a typed path, from its leading token.
pub fn prefix_kind_for_path(path_str: &str, config: &Config) -> (r: PrefixKind)
    ensures
        r == kind_of(path_str@, config.windows_enable_unc, config.windows_enable_drive_prefix),
{
    let c = chars_of(path_str);
    assert(c@.skip(0) =~= c@);
    let n = c.len();
    if n >= 1 && c[0] == '~' {
        PrefixKind::Home
    } else if n >= 1 && c[0] == '/' {
        PrefixKind::Absolute
    } else if config.windows_enable_unc && n >= 2 && c[0] == '\\' && c[1] == '\\' {
        PrefixKind::WindowsUnc
    } else if config.windows_enable_drive_prefix && drive_prefix_at(&c, 0) {
        PrefixKind::WindowsDrive
    } else {
        PrefixKind::Relative
    }
}

/// Finds the right-most path-looking token that starts the text or follows
/// whitespace, and classifies the text from there to the cursor.
pub fn find_prefix_query(content_before_cursor: &str, config: &Config) -> (r: Option<PathQuery>)
    ensures
        match prefix_query_of(
            content_before_cursor@,
            config.windows_enable_unc,
            config.windows_enable_drive_prefix,
        ) {
            Some((s, kind)) => r matches Some(q) && query_matches(q, s, kind),
            None => r is None,
        },
{
    let c = chars_of(content_before_cursor);
    let n = c.len();
    let unc = config.windows_enable_unc;
    let drive = config.windows_enable_drive_prefix;
    let start = match last_path_start_index(&c, unc, drive) {
        Some(k) => k,
        None => return None,
    };
    let path = content_before_cursor.substring_char(start, n).to_owned();
    proof {
        assert(path@ =~= c@.skip(start as int));
    }
    let kind = prefix_kind_for_path(&path, config);
    let bare_home = n - start == 1 && c[start] == '~';
    if kind == PrefixKind::Home && bare_home {
        proof {
            reveal_strlit("~");
            reveal_strlit("/");
            reveal_strlit("");
        }
        let mut dir = "~".to_owned();
        dir.append("/");
        assert(dir@ =~= seq!['~', '/']);
        let seg = "".to_owned();
        assert(seg@ =~= Seq::<char>::empty());
        assert(is_bare_home(path@));
        return Some(
            PathQuery {
                dir_part: dir,
                segment_prefix: seg,
                path_str: path,
                prefix_kind: kind,
            },
        );
    }
    let (dir, seg) = split_dir_and_segment(&path);
    Some(PathQuery { dir_part: dir, segment_prefix: seg, path_str: path, prefix_kind: kind })
}

/// Treats the whole typed text as a relative path.
pub fn build_relative_query(content_before_cursor: &str) -> (r: PathQuery)
    ensures
        query_matches(r, content_before_cursor@, PrefixKind::Relative),
{
    let (dir, seg) = split_dir_and_segment(content_before_cursor);
    PathQuery {
        dir_part: dir,
        segment_prefix: seg,
        path_str: content_before_cursor.to_owned(),
        prefix_kind: PrefixKind::Relative,
    }
}

/// Byte offset in `content` where the segment being typed begins: one past
/// the last separator, or 0.
pub fn segment_start_offset(content: &str) -> (r: usize)
    ensures
        r == byte_len(content@.take(last_sep(content@) + 1)),
{
    let c = chars_of(content);
    let k = after_last_sep(&c);
    let _total = str_byte_len(content);
    proof {
        lemma_last_sep_bounds(c@);
        lemma_byte_len_mono(c@, k as int, c@.len() as int);
        lemma_take_full(c@);
    }
    byte_offset(&c, k)
}

/// Relies on `std::path::MAIN_SEPARATOR`: the platform's path separator, `/` or `\\`.
#[verifier::external_body]
fn platform_separator() -> (r: char)
    ensures
        r == '/' || r == '\\',
{
    std::path::MAIN_SEPARATOR
}

/// The separator appended to a directory name: `/` when preferred, else a
/// separator that the typed text already uses (a backslash first), else the
/// platform's own.
pub fn separator_for_insertion(content_before_cursor: &str, config: &Config) -> (r: char)
    ensures
        config.prefer_forward_slashes ==> r == '/',
        !config.prefer_forward_slashes && content_before_cursor@.contains('\\') ==> r == '\\',
        !config.prefer_forward_slashes && !content_before_cursor@.contains('\\')
            && content_before_cursor@.contains('/') ==> r == '/',
        r == '/' || r == '\\',
{
    if config.prefer_forward_slashes {
        return '/';
    }
    let c = chars_of(content_before_cursor);
    let mut slash = false;
    let mut i: usize = 0;
    while i < c.len()
        invariant
            c@ == content_before_cursor@,
            !config.prefer_forward_slashes,
            i <= c@.len(),
            forall|j: int| 0 <= j < i ==> c@[j] != '\\',
            slash == (exists|j: int| 0 <= j < i && c@[j] == '/'),
        decreases c@.len() - i,
    {
        if c[i] == '\\' {
            return '\\';
        }
        if c[i] == '/' {
            slash = true;
        }
        i = i + 1;
    }
    if slash {
        return '/';
    }
    platform_separator()
}

} // verus!
