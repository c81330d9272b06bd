//! Lines of a buffer and the conversion of UTF-16 columns to byte offsets.

use vstd::prelude::*;
use crate::text::{
    byte_len, char_utf16_width, char_utf8_width, chars_of, lemma_byte_len_mono,
    lemma_byte_len_step, lemma_take_full, lemma_utf16_count_mono, lemma_utf16_count_step,
    str_byte_len, utf16_count,
};

verus! {

/// Index of the first newline at or after `p`, or the length of `t`.
pub open spec fn next_newline(t: Seq<char>, p: int) -> int
    decreases t.len() - p,
{
    if p < 0 || p >= t.len() {
        t.len() as int
    } else if t[p] == '\n' {
        p
    } else {
        next_newline(t, p + 1)
    }
}

/// Character index where line `n` of `t` starts, or -1 when `t` has fewer lines.
pub open spec fn line_start_char(t: Seq<char>, n: nat) -> int
    decreases n,
{
    if n == 0 {
        0
    } else {
        let p = line_start_char(t, (n - 1) as nat);
        if p < 0 {
            -1
        } else {
            let e = next_newline(t, p);
            if e >= t.len() {
                -1
            } else {
                e + 1
            }
        }
    }
}

/// Line `n` of `t`, lines being separated by `\n`.
pub open spec fn line_of(t: Seq<char>, n: nat) -> Option<Seq<char>> {
    let s = line_start_char(t, n);
    if s < 0 {
        None
    } else {
        Some(t.subrange(s, next_newline(t, s)))
    }
}

/// The character index of the column: the most characters whose UTF-16
/// length stays within `col`, from index `k` on.
pub open spec fn col_index(l: Seq<char>, col: int, k: int) -> int
    decreases l.len() - k,
{
    if 0 <= k < l.len() && utf16_count(l.take(k + 1)) <= col {
        col_index(l, col, k + 1)
    } else {
        k
    }
}

pub proof fn lemma_next_newline(t: Seq<char>, p: int)
    requires
        0 <= p <= t.len(),
    ensures
        p <= next_newline(t, p) <= t.len(),
        next_newline(t, p) < t.len() ==> t[next_newline(t, p)] == '\n',
    decreases t.len() - p,
{
    if p < t.len() && t[p] != '\n' {
        lemma_next_newline(t, p + 1);
    }
}

pub proof fn lemma_line_start(t: Seq<char>, n: nat)
    ensures
        -1 <= line_start_char(t, n) <= t.len(),
    decreases n,
{
    if n > 0 {
        lemma_line_start(t, (n - 1) as nat);
        let p = line_start_char(t, (n - 1) as nat);
        if p >= 0 {
            lemma_next_newline(t, p);
        }
    }
}

pub(crate) fn next_line_end(t: &Vec<char>, p: usize) -> (r: usize)
    requires
        p <= t@.len(),
    ensures
        r == next_newline(t@, p as int),
        p <= r <= t@.len(),
{
    let mut i = p;
    while i < t.len() && t[i] != '\n'
        invariant
            p <= i <= t@.len(),
            next_newline(t@, i as int) == next_newline(t@, p as int),
        decreases t@.len() - i,
    {
        i = i + 1;
    }
    i
}

fn line_start_exec(t: &Vec<char>, line: u32) -> (r: Option<usize>)
    ensures
        match r {
            Some(s) => s == line_start_char(t@, line as nat) && s <= t@.len(),
            None => line_start_char(t@, line as nat) < 0,
        },
{
    let mut s: usize = 0;
    let mut n: u32 = 0;
    while n < line
        invariant
            n <= line,
            s == line_start_char(t@, n as nat),
            s <= t@.len(),
        decreases line - n,
    {
        let e = next_line_end(t, s);
        if e >= t.len() {
            proof {
                assert forall|m: nat| m > n implies line_start_char(t@, m) < 0 by {
                    lemma_later_lines_absent(t@, n as nat, m);
                }
            }
            return None;
        }
        s = e + 1;
        n = n + 1;
    }
    Some(s)
}

proof fn lemma_later_lines_absent(t: Seq<char>, n: nat, m: nat)
    requires
        line_start_char(t, n) >= 0,
        next_newline(t, line_start_char(t, n)) >= t.len(),
        m > n,
    ensures
        line_start_char(t, m) < 0,
    decreases m - n,
{
    if m > n + 1 {
        lemma_later_lines_absent(t, n, (m - 1) as nat);
    }
}

/// Line number `line` of `text`.
pub fn get_line(text: &str, line: u32) -> (r: Option<&str>)
    ensures
        match line_of(text@, line as nat) {
            Some(l) => r matches Some(s) && s@ == l,
            None => r is None,
        },
{
    let t = chars_of(text);
    let s = match line_start_exec(&t, line) {
        Some(s) => s,
        None => return None,
    };
    let e = next_line_end(&t, s);
    Some(text.substring_char(s, e))
}

/// Byte offset where line number `line` of `text` starts.
pub fn line_start_offset(text: &str, line: u32) -> (r: Option<usize>)
    ensures
        match r {
            Some(off) => line_start_char(text@, line as nat) >= 0 && off == byte_len(
                text@.take(line_start_char(text@, line as nat)),
            ),
            None => line_start_char(text@, line as nat) < 0,
        },
{
    let t = chars_of(text);
    let s = match line_start_exec(&t, line) {
        Some(s) => s,
        None => return None,
    };
    let _total = str_byte_len(text);
    proof {
        lemma_byte_len_mono(t@, s as int, t@.len() as int);
        lemma_take_full(t@);
    }
    Some(crate::text::byte_offset(&t, s))
}

/// Byte offset of UTF-16 column `col` of `line`; a column inside a surrogate
/// pair falls back to the start of its character. `None` when the column lies
/// beyond the end of the line.
pub fn utf16_col_to_byte(line: &str, col: u32) -> (r: Option<usize>)
    ensures
        match r {
            Some(b) => col <= utf16_count(line@) && b == byte_len(
                line@.take(col_index(line@, col as int, 0)),
            ),
            None => col > utf16_count(line@),
        },
{
    let c = chars_of(line);
    let n = c.len();
    let _total = str_byte_len(line);
    let mut i: usize = 0;
    let mut count: u32 = 0;
    let mut bytes: usize = 0;
    proof {
        lemma_take_full(c@);
    }
    while i < n
        invariant
            n == c@.len(),
            c@ == line@,
            i <= n,
            count <= col,
            count == utf16_count(c@.take(i as int)),
            bytes == byte_len(c@.take(i as int)),
            byte_len(c@) <= usize::MAX,
            col_index(c@, col as int, i as int) == col_index(c@, col as int, 0),
            c@.take(n as int) == c@,
        decreases n - i,
    {
        proof {
            lemma_utf16_count_step(c@, i as int);
            lemma_byte_len_step(c@, i as int);
            lemma_byte_len_mono(c@, i + 1, n as int);
            lemma_utf16_count_mono(c@, i + 1, n as int);
        }
        let w = char_utf16_width(c[i]) as u32;
        if w > col - count {
            return Some(bytes);
        }
        count = count + w;
        bytes = bytes + char_utf8_width(c[i]);
        i = i + 1;
    }
    if count == col {
        Some(bytes)
    } else {
        None
    }
}


/// The character index of a column keeps within the column.
pub proof fn lemma_col_index(l: Seq<char>, col: int, k: int)
    requires
        0 <= k <= l.len(),
        utf16_count(l.take(k)) <= col,
    ensures
        k <= col_index(l, col, k) <= l.len(),
        utf16_count(l.take(col_index(l, col, k))) <= col,
    decreases l.len() - k,
{
    if 0 <= k < l.len() && utf16_count(l.take(k + 1)) <= col {
        lemma_col_index(l, col, k + 1);
    }
}

} // verus!
