//! Decides from the code before a string literal whether a path is expected
//! there: the string is an argument of a call known to take a path, or sits
//! in a path built with the join operator.

use vstd::prelude::*;
use crate::text::{
    byte_len, char_index_of_byte, chars_of, is_ascii_alpha, is_ascii_digit, is_char_offset,
    is_unicode_whitespace, lemma_byte_len_mono, lemma_byte_len_step, lemma_char_offset_unique,
    unicode_whitespace, char_utf8_width,
};

verus! {

/// How many bytes before the string the enclosing call is looked for.
pub const CALL_LOOKBACK: usize = 300;

/// How many bytes before the string a `Path(` construction is looked for.
pub const JOIN_LOOKBACK: usize = 120;

/// The call whose argument list holds the string.
pub struct CallContext {
    /// The callee as written, dots included.
    pub full_name: String,
    /// The callee after its last dot.
    pub base_name: String,
    /// Nothing but whitespace stands between the parenthesis and the string.
    pub arg_is_first: bool,
    /// The keyword when the string is a named argument.
    pub named_arg: Option<String>,
}

pub open spec fn is_name_char_spec(c: char) -> bool {
    is_ascii_alpha(c) || is_ascii_digit(c) || c == '_' || c == '.'
}

/// Index of the unmatched `(` scanning back from index `i` of `w` with
/// `depth` unmatched `)` seen so far, or -1.
pub open spec fn find_open(w: Seq<char>, i: int, depth: nat) -> int
    decreases i,
{
    if i <= 0 {
        -1
    } else if w[i - 1] == ')' {
        find_open(w, i - 1, depth + 1)
    } else if w[i - 1] == '(' {
        if depth == 0 {
            i - 1
        } else {
            find_open(w, i - 1, (depth - 1) as nat)
        }
    } else {
        find_open(w, i - 1, depth)
    }
}

/// End of `w[b..e]` once trailing whitespace is removed.
pub open spec fn trim_end_at(w: Seq<char>, b: int, e: int) -> int
    decreases e - b,
{
    if e > b && is_unicode_whitespace(w[e - 1]) {
        trim_end_at(w, b, e - 1)
    } else {
        e
    }
}

/// Start of `w[b..e]` once leading whitespace is removed.
pub open spec fn trim_start_at(w: Seq<char>, b: int, e: int) -> int
    decreases e - b,
{
    if b < e && is_unicode_whitespace(w[b]) {
        trim_start_at(w, b + 1, e)
    } else {
        b
    }
}

/// Start of the run of name characters that ends at index `e`, not before `b`.
pub open spec fn name_start_at(w: Seq<char>, b: int, e: int) -> int
    decreases e - b,
{
    if e > b && is_name_char_spec(w[e - 1]) {
        name_start_at(w, b, e - 1)
    } else {
        e
    }
}

/// Last index in `[b, e)` that holds `c`, or -1.
pub open spec fn last_index(w: Seq<char>, b: int, e: int, c: char) -> int
    decreases e - b,
{
    if e <= b {
        -1
    } else if w[e - 1] == c {
        e - 1
    } else {
        last_index(w, b, e - 1, c)
    }
}

/// What the argument text `w[b..e]` says of the string that follows it:
/// whether it is the first positional argument, and the range of its keyword.
pub open spec fn arg_model(w: Seq<char>, b: int, e: int) -> (bool, Option<(int, int)>) {
    let te = trim_end_at(w, b, e);
    let ts = trim_start_at(w, b, te);
    if ts == te {
        (true, None)
    } else if last_index(w, ts, te, ',') >= 0 {
        (false, None)
    } else {
        let q = last_index(w, ts, te, '=');
        if q >= 0 {
            let ne = trim_end_at(w, ts, q);
            let ns = trim_start_at(w, ts, ne);
            if ns < ne {
                (false, Some((ns, ne)))
            } else {
                (false, None)
            }
        } else {
            (true, None)
        }
    }
}

/// The call around the end of window `w`, as index ranges: the callee's
/// start and end, the start of its base name, and the argument model.
pub open spec fn call_model(w: Seq<char>) -> Option<(int, int, int, bool, Option<(int, int)>)> {
    let o = find_open(w, w.len() as int, 0);
    if o < 0 {
        None
    } else {
        let e = trim_end_at(w, 0, o);
        let ns = name_start_at(w, 0, e);
        if ns == e {
            None
        } else {
            let dot = last_index(w, ns, e, '.');
            let bb = if dot >= 0 {
                dot + 1
            } else {
                ns
            };
            let (first, named) = arg_model(w, o + 1, w.len() as int);
            Some((ns, e, bb, first, named))
        }
    }
}

/// The first character index at or after `k` whose byte offset is at least `lo`.
pub open spec fn window_start(s: Seq<char>, lo: int, k: int) -> int
    decreases s.len() - k,
{
    if k >= s.len() || byte_len(s.take(k)) >= lo {
        k
    } else {
        window_start(s, lo, k + 1)
    }
}

/// The text of at most `span` bytes before character index `oc`, starting
/// on a character boundary.
pub open spec fn lookback(s: Seq<char>, oc: int, span: int) -> Seq<char> {
    let off = byte_len(s.take(oc)) as int;
    let lo = if off >= span {
        off - span
    } else {
        0
    };
    s.subrange(window_start(s, lo, 0), oc)
}

/// `ctx` describes the call found in window `w`.
pub open spec fn describes_call(w: Seq<char>, ctx: CallContext) -> bool {
    match call_model(w) {
        Some((ns, e, bb, first, named)) => {
            &&& ctx.full_name@ == w.subrange(ns, e)
            &&& ctx.base_name@ == w.subrange(bb, e)
            &&& ctx.arg_is_first == first
            &&& match named {
                Some((a, b)) => ctx.named_arg matches Some(n) && n@ == w.subrange(a, b),
                None => ctx.named_arg is None,
            }
        },
        None => false,
    }
}

pub open spec fn ends_with(s: Seq<char>, suffix: Seq<char>) -> bool {
    s.len() >= suffix.len() && s.skip(s.len() - suffix.len()) == suffix
}

/// Callees known to take a path as their first argument.
pub open spec fn known_path_function(full: Seq<char>, base: Seq<char>) -> bool {
    ||| base == "open"@
    ||| base == "Path"@
    ||| base == "read_csv"@
    ||| base == "read_parquet"@
    ||| base == "read_json"@
    ||| base == "read_excel"@
    ||| base == "read_table"@
    ||| ends_with(full, ".read_csv"@)
    ||| ends_with(full, ".read_parquet"@)
    ||| ends_with(full, ".read_json"@)
    ||| ends_with(full, ".read_excel"@)
    ||| ends_with(full, ".read_table"@)
    ||| ends_with(full, ".Path"@)
}

/// Keywords that name a path argument.
pub open spec fn known_path_arg(name: Seq<char>) -> bool {
    name == "path"@ || name == "filepath"@ || name == "filename"@ || name == "file"@ || name
        == "fname"@
}

/// Start of the last occurrence of `pat` that ends at or before `e`, or -1.
pub open spec fn last_occurrence(w: Seq<char>, pat: Seq<char>, e: int) -> int
    decreases e,
{
    if e < pat.len() || e <= 0 {
        -1
    } else if w.subrange(e - pat.len(), e) == pat {
        e - pat.len()
    } else {
        last_occurrence(w, pat, e - 1)
    }
}

/// The last `Path(` in window `w` is followed by a `/`.
pub open spec fn join_context(w: Seq<char>) -> bool {
    let p = last_occurrence(w, "Path("@, w.len() as int);
    p >= 0 && last_index(w, p, w.len() as int, '/') >= 0
}

/// The call in window `w` takes a path at the string's place.
pub open spec fn call_takes_path(w: Seq<char>) -> bool {
    match call_model(w) {
        Some((ns, e, bb, first, named)) => {
            (first || named is Some) && (known_path_function(w.subrange(ns, e), w.subrange(bb, e))
                || (named matches Some((a, b)) && known_path_arg(w.subrange(a, b))))
        },
        None => false,
    }
}

/// A path is expected at the string that opens at character index `oc`.
pub open spec fn path_context(s: Seq<char>, oc: int) -> bool {
    call_takes_path(lookback(s, oc, CALL_LOOKBACK as int)) || join_context(
        lookback(s, oc, JOIN_LOOKBACK as int),
    )
}

/// A path is expected at the string that opens at byte offset `off`.
pub open spec fn path_context_at(s: Seq<char>, off: int) -> bool {
    exists|oc: int| is_char_offset(s, oc, off) && path_context(s, oc)
}

fn trim_end_exec(w: &Vec<char>, b: usize, e: usize) -> (r: usize)
    requires
        b <= e <= w@.len(),
    ensures
        r == trim_end_at(w@, b as int, e as int),
        b <= r <= e,
{
    let mut k = e;
    while k > b && unicode_whitespace(w[k - 1])
        invariant
            b <= k <= e <= w@.len(),
            trim_end_at(w@, b as int, k as int) == trim_end_at(w@, b as int, e as int),
        decreases k,
    {
        k = k - 1;
    }
    k
}

fn trim_start_exec(w: &Vec<char>, b: usize, e: usize) -> (r: usize)
    requires
        b <= e <= w@.len(),
    ensures
        r == trim_start_at(w@, b as int, e as int),
        b <= r <= e,
{
    let mut k = b;
    while k < e && unicode_whitespace(w[k])
        invariant
            b <= k <= e <= w@.len(),
            trim_start_at(w@, k as int, e as int) == trim_start_at(w@, b as int, e as int),
        decreases e - k,
    {
        k = k + 1;
    }
    k
}

fn is_name_char(c: char) -> (r: bool)
    ensures
        r == is_name_char_spec(c),
{
    ('a' <= c && c <= 'z') || ('A' <= c && c <= 'Z') || ('0' <= c && c <= '9') || c == '_' || c
        == '.'
}

fn name_start_exec(w: &Vec<char>, b: usize, e: usize) -> (r: usize)
    requires
        b <= e <= w@.len(),
    ensures
        r == name_start_at(w@, b as int, e as int),
        b <= r <= e,
{
    let mut k = e;
    while k > b && is_name_char(w[k - 1])
        invariant
            b <= k <= e <= w@.len(),
            name_start_at(w@, b as int, k as int) == name_start_at(w@, b as int, e as int),
        decreases k,
    {
        k = k - 1;
    }
    k
}

fn last_index_exec(w: &Vec<char>, b: usize, e: usize, c: char) -> (r: Option<usize>)
    requires
        b <= e <= w@.len(),
    ensures
        match r {
            Some(k) => k == last_index(w@, b as int, e as int, c) && b <= k < e,
            None => last_index(w@, b as int, e as int, c) == -1,
        },
{
    let mut k = e;
    while k > b
        invariant
            b <= k <= e <= w@.len(),
            last_index(w@, b as int, k as int, c) == last_index(w@, b as int, e as int, c),
        decreases k,
    {
        if w[k - 1] == c {
            return Some(k - 1);
        }
        k = k - 1;
    }
    None
}

fn find_open_exec(w: &Vec<char>) -> (r: Option<usize>)
    ensures
        match r {
            Some(k) => k == find_open(w@, w@.len() as int, 0) && k < w@.len(),
            None => find_open(w@, w@.len() as int, 0) == -1,
        },
{
    let n = w.len();
    let mut i = n;
    let mut depth: usize = 0;
    while i > 0
        invariant
            n == w@.len(),
            i <= w@.len(),
            depth <= w@.len() - i,
            find_open(w@, i as int, depth as nat) == find_open(w@, w@.len() as int, 0),
        decreases i,
    {
        let c = w[i - 1];
        if c == ')' {
            depth = depth + 1;
        } else if c == '(' {
            if depth == 0 {
                return Some(i - 1);
            }
            depth = depth - 1;
        }
        i = i - 1;
    }
    None
}

/// The characters of `w[b..e]` equal those of `lit`.
pub(crate) fn range_is(w: &Vec<char>, b: usize, e: usize, lit: &str) -> (r: bool)
    requires
        b <= e <= w@.len(),
    ensures
        r == (w@.subrange(b as int, e as int) == lit@),
{
    let l = chars_of(lit);
    if e - b != l.len() {
        return false;
    }
    let mut i: usize = 0;
    while i < l.len()
        invariant
            b <= e <= w@.len(),
            e - b == l@.len(),
            l@ == lit@,
            i <= l@.len(),
            forall|j: int| 0 <= j < i ==> w@[b + j] == l@[j],
        decreases l@.len() - i,
    {
        if w[b + i] != l[i] {
            return false;
        }
        i = i + 1;
    }
    assert(w@.subrange(b as int, e as int) =~= lit@);
    true
}

/// `w[b..e]` ends with the characters of `lit`.
fn range_ends_with(w: &Vec<char>, b: usize, e: usize, lit: &str) -> (r: bool)
    requires
        b <= e <= w@.len(),
    ensures
        r == ends_with(w@.subrange(b as int, e as int), lit@),
{
    let n = lit.unicode_len();
    if e - b < n {
        return false;
    }
    let r = range_is(w, e - n, e, lit);
    assert(w@.subrange(b as int, e as int).skip((e - b) - n) =~= w@.subrange(e - n, e as int));
    r
}

fn matches_known_path_function(w: &Vec<char>, ns: usize, e: usize, bb: usize) -> (r: bool)
    requires
        ns <= bb <= e <= w@.len(),
    ensures
        r == known_path_function(w@.subrange(ns as int, e as int), w@.subrange(bb as int, e as int)),
{
    range_is(w, bb, e, "open") || range_is(w, bb, e, "Path") || range_is(w, bb, e, "read_csv")
        || range_is(w, bb, e, "read_parquet") || range_is(w, bb, e, "read_json") || range_is(
        w,
        bb,
        e,
        "read_excel",
    ) || range_is(w, bb, e, "read_table") || range_ends_with(w, ns, e, ".read_csv")
        || range_ends_with(w, ns, e, ".read_parquet") || range_ends_with(w, ns, e, ".read_json")
        || range_ends_with(w, ns, e, ".read_excel") || range_ends_with(w, ns, e, ".read_table")
        || range_ends_with(w, ns, e, ".Path")
}

fn matches_named_path_arg(w: &Vec<char>, a: usize, b: usize) -> (r: bool)
    requires
        a <= b <= w@.len(),
    ensures
        r == known_path_arg(w@.subrange(a as int, b as int)),
{
    range_is(w, a, b, "path") || range_is(w, a, b, "filepath") || range_is(w, a, b, "filename")
        || range_is(w, a, b, "file") || range_is(w, a, b, "fname")
}

fn analyze_arg_text(w: &Vec<char>, b: usize, e: usize) -> (r: (bool, Option<(usize, usize)>))
    requires
        b <= e <= w@.len(),
    ensures
        r.0 == arg_model(w@, b as int, e as int).0,
        match arg_model(w@, b as int, e as int).1 {
            Some((x, y)) => r.1 == Some((x as usize, y as usize)) && b <= x <= y <= e,
            None => r.1 is None,
        },
{
    let te = trim_end_exec(w, b, e);
    let ts = trim_start_exec(w, b, te);
    if ts == te {
        return (true, None);
    }
    if last_index_exec(w, ts, te, ',').is_some() {
        return (false, None);
    }
    match last_index_exec(w, ts, te, '=') {
        Some(q) => {
            let ne = trim_end_exec(w, ts, q);
            let ns = trim_start_exec(w, ts, ne);
            if ns < ne {
                (false, Some((ns, ne)))
            } else {
                (false, None)
            }
        },
        None => (true, None),
    }
}

/// The call model of a window, computed.
fn call_in_window(w: &Vec<char>) -> (r: Option<(usize, usize, usize, bool, Option<(usize, usize)>)>)
    ensures
        match call_model(w@) {
            Some((ns, e, bb, first, named)) => r matches Some(m) && m.0 == ns && m.1 == e && m.2
                == bb && m.3 == first && ns <= bb <= e <= w@.len() && match named {
                Some((x, y)) => m.4 == Some((x as usize, y as usize)) && 0 <= x <= y <= w@.len(),
                None => m.4 is None,
            },
            None => r is None,
        },
{
    let n = w.len();
    let o = match find_open_exec(w) {
        Some(o) => o,
        None => return None,
    };
    let e = trim_end_exec(w, 0, o);
    let ns = name_start_exec(w, 0, e);
    if ns == e {
        return None;
    }
    let bb = match last_index_exec(w, ns, e, '.') {
        Some(d) => d + 1,
        None => ns,
    };
    let (first, named) = analyze_arg_text(w, o + 1, n);
    Some((ns, e, bb, first, named))
}

proof fn lemma_window_start_bound(s: Seq<char>, lo: int, k: int, oc: int)
    requires
        0 <= k <= oc <= s.len(),
        byte_len(s.take(oc)) >= lo,
    ensures
        k <= window_start(s, lo, k) <= oc,
    decreases s.len() - k,
{
    if !(k >= s.len() || byte_len(s.take(k)) >= lo) {
        if k < oc {
            lemma_window_start_bound(s, lo, k + 1, oc);
        }
    }
}

/// The characters of the window of at most `span` bytes before character
/// index `oc`, whose byte offset is `off`.
fn lookback_exec(chars: &Vec<char>, oc: usize, off: usize, span: usize) -> (r: Vec<char>)
    requires
        is_char_offset(chars@, oc as int, off as int),
    ensures
        r@ == lookback(chars@, oc as int, span as int),
{
    let lo: usize = if off >= span {
        off - span
    } else {
        0
    };
    let mut k: usize = 0;
    let mut acc: usize = 0;
    proof {
        lemma_window_start_bound(chars@, lo as int, 0, oc as int);
    }
    while k < oc && acc < lo
        invariant
            is_char_offset(chars@, oc as int, off as int),
            k <= oc,
            acc == byte_len(chars@.take(k as int)),
            window_start(chars@, lo as int, k as int) == window_start(chars@, lo as int, 0),
        decreases oc - k,
    {
        proof {
            lemma_byte_len_step(chars@, k as int);
            lemma_byte_len_mono(chars@, k + 1, oc as int);
        }
        acc = acc + char_utf8_width(chars[k]);
        k = k + 1;
    }
    proof {
        if k == oc {
            lemma_window_start_bound(chars@, lo as int, k as int, oc as int);
        }
    }
    let mut w: Vec<char> = Vec::new();
    let mut i = k;
    while i < oc
        invariant
            k <= i <= oc <= chars@.len(),
            w@ == chars@.subrange(k as int, i as int),
        decreases oc - i,
    {
        w.push(chars[i]);
        i = i + 1;
    }
    w
}

/// The string of `w[b..e]`.
fn range_string(w: &Vec<char>, b: usize, e: usize) -> (r: String)
    requires
        b <= e <= w@.len(),
    ensures
        r@ == w@.subrange(b as int, e as int),
{
    let mut out = String::new();
    let mut i = b;
    while i < e
        invariant
            b <= i <= e <= w@.len(),
            out@ == w@.subrange(b as int, i as int),
        decreases e - i,
    {
        out.push(w[i]);
        proof {
            assert(w@.subrange(b as int, i + 1) =~= w@.subrange(b as int, i as int) + seq![w@[i as int]]);
        }
        i = i + 1;
    }
    out
}

/// Finds the call whose argument list holds the string that opens at byte
/// offset `string_start_offset` of `text`, looking back at most
/// `CALL_LOOKBACK` bytes. `None` when there is no such call, or the offset
/// does not fall on a character boundary.
pub fn detect_call_context(text: &str, string_start_offset: usize) -> (r: Option<CallContext>)
    ensures
        forall|oc: int|
            is_char_offset(text@, oc, string_start_offset as int) ==> match r {
                Some(ctx) => describes_call(lookback(text@, oc, CALL_LOOKBACK as int), ctx),
                None => call_model(lookback(text@, oc, CALL_LOOKBACK as int)) is None,
            },
        (forall|oc: int| !is_char_offset(text@, oc, string_start_offset as int)) ==> r is None,
{
    let chars = chars_of(text);
    let oc = match char_index_of_byte(&chars, string_start_offset) {
        Some(k) => k,
        None => return None,
    };
    let w = lookback_exec(&chars, oc, string_start_offset, CALL_LOOKBACK);
    let r = match call_in_window(&w) {
        Some((ns, e, bb, first, named)) => {
            let full_name = range_string(&w, ns, e);
            let base_name = range_string(&w, bb, e);
            let named_arg = match named {
                Some((a, b)) => Some(range_string(&w, a, b)),
                None => None,
            };
            Some(CallContext { full_name, base_name, arg_is_first: first, named_arg })
        },
        None => None,
    };
    proof {
        assert forall|k: int| is_char_offset(text@, k, string_start_offset as int) implies k
            == oc by {
            lemma_char_offset_unique(text@, k, oc as int, string_start_offset as int);
        }
    }
    r
}

fn last_occurrence_exec(w: &Vec<char>, lit: &str) -> (r: Option<usize>)
    ensures
        match r {
            Some(k) => k == last_occurrence(w@, lit@, w@.len() as int) && k <= w@.len(),
            None => last_occurrence(w@, lit@, w@.len() as int) == -1,
        },
{
    let n = lit.unicode_len();
    let mut e = w.len();
    while e > 0 && e >= n
        invariant
            e <= w@.len(),
            n == lit@.len(),
            last_occurrence(w@, lit@, e as int) == last_occurrence(w@, lit@, w@.len() as int),
        decreases e,
    {
        if range_is(w, e - n, e, lit) {
            return Some(e - n);
        }
        e = e - 1;
    }
    None
}

/// A `Path(` construction before the string is followed by a `/`, the join
/// operator.
fn path_join_operator_context(w: &Vec<char>) -> (r: bool)
    ensures
        r == join_context(w@),
{
    match last_occurrence_exec(w, "Path(") {
        Some(p) => last_index_exec(w, p, w.len(), '/').is_some(),
        None => false,
    }
}

/// Whether a path is expected at the string that opens at byte offset
/// `string_start_offset` of `text`: the enclosing call is known to take a
/// path there (as first argument or through a path keyword), or a `Path(`
/// construction shortly before is joined with `/`. False when the offset does
/// not fall on a character boundary.
pub fn is_path_context(text: &str, string_start_offset: usize) -> (r: bool)
    ensures
        forall|oc: int|
            is_char_offset(text@, oc, string_start_offset as int) ==> r == path_context(
                text@,
                oc,
            ),
        (forall|oc: int| !is_char_offset(text@, oc, string_start_offset as int)) ==> !r,
        r == path_context_at(text@, string_start_offset as int),
{
    let chars = chars_of(text);
    let oc = match char_index_of_byte(&chars, string_start_offset) {
        Some(k) => k,
        None => return false,
    };
    proof {
        assert forall|k: int| is_char_offset(text@, k, string_start_offset as int) implies k
            == oc by {
            lemma_char_offset_unique(text@, k, oc as int, string_start_offset as int);
        }
    }
    let w = lookback_exec(&chars, oc, string_start_offset, CALL_LOOKBACK);
    let by_call = match call_in_window(&w) {
        Some((ns, e, bb, first, named)) => {
            (first || named.is_some()) && (matches_known_path_function(&w, ns, e, bb)
                || match named {
                Some((a, b)) => matches_named_path_arg(&w, a, b),
                None => false,
            })
        },
        None => false,
    };
    let r = if by_call {
        true
    } else {
        let w2 = lookback_exec(&chars, oc, string_start_offset, JOIN_LOOKBACK);
        path_join_operator_context(&w2)
    };
    assert(is_char_offset(text@, oc as int, string_start_offset as int));
    assert(r == path_context(text@, oc as int));
    r
}

} // verus!
