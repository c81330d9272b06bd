//! Finds the string literal that encloses the cursor on one line of source
//! text, with its raw and interpolated variants.

use vstd::prelude::*;
use crate::text::{
    ascii_alpha, byte_len, byte_offset, char_index_of_byte, chars_of, is_ascii_alpha,
    is_char_offset, is_word_char, lemma_byte_len_mono,
    utf16_count, utf16_offset_checked, word_char,
};

verus! {

/// The string literal around the cursor and what was typed in it so far.
pub struct StringInfo {
    /// Text between the opening delimiter and the cursor.
    pub content_before_cursor: String,
    pub is_raw: bool,
    pub is_fstring: bool,
    /// Byte offset of the opening quote within the line.
    pub string_start_byte: usize,
    /// UTF-16 offset of the first character after the opening delimiter.
    pub string_start_utf16: u32,
}

/// A string literal that the scan has entered and not yet left.
#[derive(Clone, Copy)]
pub struct OpenString {
    pub quote: char,
    /// 1 for a single quote, 3 for a triple quote.
    pub delim_len: usize,
    /// Character index of the opening quote.
    pub start: usize,
    pub is_raw: bool,
    pub is_fstring: bool,
}

pub open spec fn is_quote(c: char) -> bool {
    c == '\'' || c == '"'
}

/// Three copies of `q` start at index `i`.
pub open spec fn triple_at(line: Seq<char>, i: int, q: char) -> bool {
    0 <= i && i + 3 <= line.len() && line[i] == q && line[i + 1] == q && line[i + 2] == q
}

/// How many ASCII letters (at most two) stand right before index `q`.
pub open spec fn prefix_letters(line: Seq<char>, q: int) -> int {
    if q >= 1 && is_ascii_alpha(line[q - 1]) {
        if q >= 2 && is_ascii_alpha(line[q - 2]) {
            2
        } else {
            1
        }
    } else {
        0
    }
}

/// One of the prefix letters before index `q` is `lower` or `upper`.
pub open spec fn prefix_has(line: Seq<char>, q: int, lower: char, upper: char) -> bool {
    let k = prefix_letters(line, q);
    (k >= 1 && (line[q - 1] == lower || line[q - 1] == upper)) || (k >= 2 && (line[q - 2]
        == lower || line[q - 2] == upper))
}

/// Whether a quote at index `q` opens a raw string and an interpolated string.
/// The prefix letters count only when no word character stands before them.
pub open spec fn string_prefix(line: Seq<char>, q: int) -> (bool, bool) {
    let p = q - prefix_letters(line, q);
    if p > 0 && is_word_char(line[p - 1]) {
        (false, false)
    } else {
        (prefix_has(line, q, 'r', 'R'), prefix_has(line, q, 'f', 'F'))
    }
}

/// The string literal that a quote at index `i` opens.
pub open spec fn open_at(line: Seq<char>, i: int) -> OpenString {
    OpenString {
        quote: line[i],
        delim_len: if triple_at(line, i, line[i]) {
            3
        } else {
            1
        },
        start: i as usize,
        is_raw: string_prefix(line, i).0,
        is_fstring: string_prefix(line, i).1,
    }
}

/// Brace nesting depth after scanning `c` from index `i` with depth `depth`.
/// Doubled braces are literal; a backslash escapes the next character unless
/// the string is raw.
pub open spec fn interp_depth(c: Seq<char>, is_raw: bool, i: int, depth: nat) -> nat
    decreases c.len() + 1 - i,
{
    if i < 0 || i >= c.len() {
        depth
    } else if !is_raw && c[i] == '\\' {
        interp_depth(c, is_raw, i + 2, depth)
    } else if c[i] == '{' {
        if i + 1 < c.len() && c[i + 1] == '{' {
            interp_depth(c, is_raw, i + 2, depth)
        } else {
            interp_depth(c, is_raw, i + 1, depth + 1)
        }
    } else if c[i] == '}' {
        if i + 1 < c.len() && c[i + 1] == '}' {
            interp_depth(c, is_raw, i + 2, depth)
        } else {
            interp_depth(c, is_raw, i + 1, if depth > 0 { (depth - 1) as nat } else { 0 })
        }
    } else {
        interp_depth(c, is_raw, i + 1, depth)
    }
}

/// The end of `c` lies inside an interpolation expression.
pub open spec fn in_interpolation(c: Seq<char>, is_raw: bool) -> bool {
    interp_depth(c, is_raw, 0, 0) > 0
}

/// The open string literal when the scan of `line`, now at index `i` in state
/// `st`, reaches index `cursor`; `None` when no string is open there or the
/// scan never stops at `cursor` (an escaped character, a comment before it).
pub open spec fn scan(line: Seq<char>, cursor: int, i: int, st: Option<OpenString>) -> Option<
    OpenString,
>
    decreases line.len() + 1 - i,
{
    if i == cursor {
        st
    } else if i < 0 || i >= line.len() {
        if cursor == line.len() {
            st
        } else {
            None
        }
    } else {
        let ch = line[i];
        match st {
            None => {
                if ch == '#' {
                    None
                } else if is_quote(ch) {
                    scan(line, cursor, i + 1, Some(open_at(line, i)))
                } else {
                    scan(line, cursor, i + 1, None)
                }
            },
            Some(s) => {
                if !s.is_raw && ch == '\\' {
                    scan(line, cursor, i + 2, st)
                } else if s.delim_len == 1 && ch == s.quote {
                    scan(line, cursor, i + 1, None)
                } else if s.delim_len == 3 && triple_at(line, i, s.quote) {
                    scan(line, cursor, i + 3, None)
                } else {
                    scan(line, cursor, i + 1, st)
                }
            },
        }
    }
}

/// Index of the first content character of a string literal.
pub open spec fn content_start(s: OpenString) -> int {
    s.start + s.delim_len
}

/// The string literal whose content the cursor at character index `cursor`
/// sits in, outside any interpolation expression.
pub open spec fn string_at(line: Seq<char>, cursor: int) -> Option<OpenString> {
    match scan(line, cursor, 0, None) {
        Some(s) => {
            if content_start(s) <= cursor && !(s.is_fstring && in_interpolation(
                line.subrange(content_start(s), cursor),
                s.is_raw,
            )) {
                Some(s)
            } else {
                None
            }
        },
        None => None,
    }
}

/// What was typed in the string at character index `cursor` (empty when
/// there is none).
pub open spec fn typed_content(line: Seq<char>, cursor: int) -> Seq<char> {
    match string_at(line, cursor) {
        Some(s) => line.subrange(content_start(s), cursor),
        None => Seq::empty(),
    }
}

/// `info` describes the string around the cursor at character index `k`.
pub open spec fn describes(line: Seq<char>, k: int, info: StringInfo) -> bool {
    match string_at(line, k) {
        Some(s) => {
            &&& info.content_before_cursor@ == line.subrange(content_start(s), k)
            &&& info.is_raw == s.is_raw
            &&& info.is_fstring == s.is_fstring
            &&& info.string_start_byte == byte_len(line.take(s.start as int))
            &&& info.string_start_utf16 == utf16_count(line.take(content_start(s)))
        },
        None => false,
    }
}

/// A string literal that starts where `open_at` says.
pub open spec fn well_formed_open(line: Seq<char>, s: OpenString) -> bool {
    0 <= s.start < line.len() && s == open_at(line, s.start as int)
}

proof fn lemma_scan_well_formed(line: Seq<char>, cursor: int, i: int, st: Option<OpenString>)
    requires
        line.len() <= usize::MAX,
        st matches Some(s) ==> well_formed_open(line, s),
    ensures
        scan(line, cursor, i, st) matches Some(s) ==> well_formed_open(line, s),
    decreases line.len() + 1 - i,
{
    if i == cursor {
    } else if i < 0 || i >= line.len() {
    } else {
        let ch = line[i];
        match st {
            None => {
                if ch == '#' {
                } else if is_quote(ch) {
                    assert(well_formed_open(line, open_at(line, i)));
                    lemma_scan_well_formed(line, cursor, i + 1, Some(open_at(line, i)));
                } else {
                    lemma_scan_well_formed(line, cursor, i + 1, None);
                }
            },
            Some(s) => {
                if !s.is_raw && ch == '\\' {
                    lemma_scan_well_formed(line, cursor, i + 2, st);
                } else if s.delim_len == 1 && ch == s.quote {
                    lemma_scan_well_formed(line, cursor, i + 1, None);
                } else if s.delim_len == 3 && triple_at(line, i, s.quote) {
                    lemma_scan_well_formed(line, cursor, i + 3, None);
                } else {
                    lemma_scan_well_formed(line, cursor, i + 1, st);
                }
            },
        }
    }
}

/// Moving the cursor back within the same string literal leaves a typed
/// content that is a prefix of the content at the later cursor.
pub proof fn lemma_content_monotonic(line: Seq<char>, earlier: int, later: int)
    requires
        line.len() <= usize::MAX,
        0 <= earlier < later <= line.len(),
        string_at(line, earlier) is Some,
        string_at(line, later) is Some,
        string_at(line, earlier)->0.start == string_at(line, later)->0.start,
    ensures
        typed_content(line, earlier).len() <= typed_content(line, later).len(),
        typed_content(line, earlier) == typed_content(line, later).take(
            typed_content(line, earlier).len() as int,
        ),
{
    let s1 = string_at(line, earlier)->0;
    let s2 = string_at(line, later)->0;
    lemma_scan_well_formed(line, earlier, 0, None);
    lemma_scan_well_formed(line, later, 0, None);
    assert(s1 == s2);
    let cs = content_start(s1);
    assert(line.subrange(cs, earlier) =~= line.subrange(cs, later).take(earlier - cs));
}

fn detect_prefix(line: &Vec<char>, q: usize) -> (r: (bool, bool))
    requires
        q < line@.len(),
    ensures
        r == string_prefix(line@, q as int),
{
    let mut k: usize = 0;
    if q >= 1 && ascii_alpha(line[q - 1]) {
        if q >= 2 && ascii_alpha(line[q - 2]) {
            k = 2;
        } else {
            k = 1;
        }
    }
    let p = q - k;
    if p > 0 && word_char(line[p - 1]) {
        return (false, false);
    }
    let raw = (k >= 1 && (line[q - 1] == 'r' || line[q - 1] == 'R')) || (k >= 2 && (line[q - 2]
        == 'r' || line[q - 2] == 'R'));
    let fmt = (k >= 1 && (line[q - 1] == 'f' || line[q - 1] == 'F')) || (k >= 2 && (line[q - 2]
        == 'f' || line[q - 2] == 'F'));
    (raw, fmt)
}

fn open_string_at(line: &Vec<char>, i: usize) -> (r: OpenString)
    requires
        i < line@.len(),
    ensures
        r == open_at(line@, i as int),
{
    let q = line[i];
    let triple = line.len() - i > 2 && line[i + 1] == q && line[i + 2] == q;
    let (is_raw, is_fstring) = detect_prefix(line, i);
    OpenString {
        quote: q,
        delim_len: if triple {
            3
        } else {
            1
        },
        start: i,
        is_raw,
        is_fstring,
    }
}

fn scan_to(line: &Vec<char>, cursor: usize) -> (r: Option<OpenString>)
    requires
        cursor <= line@.len(),
    ensures
        r == scan(line@, cursor as int, 0, None),
        r matches Some(s) ==> s.start < cursor && s.delim_len <= 3,
{
    let n = line.len();
    let mut i: usize = 0;
    let mut st: Option<OpenString> = None;
    loop
        invariant
            n == line@.len(),
            cursor <= n,
            i <= n,
            scan(line@, cursor as int, i as int, st) == scan(line@, cursor as int, 0, None),
            st matches Some(s) ==> s.start < i && s.delim_len <= 3,
        decreases n - i,
    {
        if i == cursor {
            return st;
        }
        if i >= n {
            return None;
        }
        let ch = line[i];
        match st {
            None => {
                if ch == '#' {
                    return None;
                }
                if ch == '\'' || ch == '"' {
                    st = Some(open_string_at(line, i));
                }
                i = i + 1;
            },
            Some(s) => {
                if !s.is_raw && ch == '\\' {
                    proof {
                        assert(scan(line@, cursor as int, n + 1, st) == scan(
                            line@,
                            cursor as int,
                            n as int,
                            st,
                        ));
                    }
                    i = if i + 1 < n {
                        i + 2
                    } else {
                        n
                    };
                } else if s.delim_len == 1 && ch == s.quote {
                    st = None;
                    i = i + 1;
                } else if s.delim_len == 3 && ch == s.quote && n - i > 2 && line[i + 1] == s.quote && line[i + 2]
                    == s.quote {
                    st = None;
                    i = i + 3;
                } else {
                    i = i + 1;
                }
            },
        }
    }
}

fn is_in_interpolation(content: &str, is_raw: bool) -> (r: bool)
    ensures
        r == in_interpolation(content@, is_raw),
{
    let c = chars_of(content);
    let n = c.len();
    let mut depth: usize = 0;
    let mut i: usize = 0;
    while i < n
        invariant
            n == c@.len(),
            i <= n,
            depth <= i,
            interp_depth(c@, is_raw, i as int, depth as nat) == interp_depth(c@, is_raw, 0, 0),
        decreases n - i,
    {
        let ch = c[i];
        if !is_raw && ch == '\\' {
            proof {
                assert(interp_depth(c@, is_raw, n + 1, depth as nat) == interp_depth(
                    c@,
                    is_raw,
                    n as int,
                    depth as nat,
                ));
            }
            i = if i + 1 < n {
                i + 2
            } else {
                n
            };
        } else if ch == '{' {
            if i + 1 < n && c[i + 1] == '{' {
                i = i + 2;
            } else {
                depth = depth + 1;
                i = i + 1;
            }
        } else if ch == '}' {
            if i + 1 < n && c[i + 1] == '}' {
                i = i + 2;
            } else {
                if depth > 0 {
                    depth = depth - 1;
                }
                i = i + 1;
            }
        } else {
            i = i + 1;
        }
    }
    depth > 0
}

/// Finds the string literal that encloses the cursor at byte offset
/// `cursor_byte` of `line`, and what was typed in it before the cursor.
/// Returns `None` when the cursor is not in a string's content, sits inside
/// an interpolation expression, or is not on a character boundary, and when
/// the UTF-16 column of the string's content does not fit in a `u32`.
pub fn find_string_info(line: &str, cursor_byte: usize) -> (r: Option<StringInfo>)
    ensures
        match r {
            Some(info) => exists|k: int|
                is_char_offset(line@, k, cursor_byte as int) && describes(line@, k, info),
            None => forall|k: int|
                is_char_offset(line@, k, cursor_byte as int) ==> match string_at(line@, k) {
                    Some(s) => utf16_count(line@.take(content_start(s))) > u32::MAX,
                    None => true,
                },
        },
{
    let chars = chars_of(line);
    let cursor = match char_index_of_byte(&chars, cursor_byte) {
        Some(k) => k,
        None => return None,
    };
    proof {
        assert forall|k: int| is_char_offset(line@, k, cursor_byte as int) implies k
            == cursor by {
            crate::text::lemma_char_offset_unique(line@, k, cursor as int, cursor_byte as int);
        }
    }
    let s = match scan_to(&chars, cursor) {
        Some(s) => s,
        None => return None,
    };
    if s.delim_len > cursor - s.start {
        return None;
    }
    let cs = s.start + s.delim_len;
    let content = line.substring_char(cs, cursor).to_owned();
    if s.is_fstring && is_in_interpolation(&content, s.is_raw) {
        return None;
    }
    proof {
        lemma_byte_len_mono(chars@, s.start as int, cursor as int);
    }
    let start_byte = byte_offset(&chars, s.start);
    let start_utf16 = match utf16_offset_checked(&chars, cs) {
        Some(v) => v,
        None => return None,
    };
    let info = StringInfo {
        content_before_cursor: content,
        is_raw: s.is_raw,
        is_fstring: s.is_fstring,
        string_start_byte: start_byte,
        string_start_utf16: start_utf16,
    };
    assert(describes(line@, cursor as int, info));
    Some(info)
}

} // verus!
