//! Ignore patterns: `*` matches within one path segment, `**` across
//! segments, every other byte matches itself.

use vstd::prelude::*;
use vstd::utf8::encode_utf8;
use crate::text::chars_of;

verus! {

/// One element of a tokenized pattern.
#[derive(Clone, Copy, Debug, PartialEq, Eq, Structural)]
pub enum GlobToken {
    Char(u8),
    /// Any run of bytes without a `/`.
    Star,
    /// Any run of bytes.
    GlobStar,
}

pub open spec fn star_byte() -> u8 {
    42u8
}

pub open spec fn slash_byte() -> u8 {
    47u8
}

/// The tokens of a pattern: `**` first, then `*`, then single bytes.
pub open spec fn tokens_of(p: Seq<u8>) -> Seq<GlobToken>
    decreases p.len(),
{
    if p.len() == 0 {
        Seq::empty()
    } else if p[0] == star_byte() {
        if p.len() >= 2 && p[1] == star_byte() {
            seq![GlobToken::GlobStar] + tokens_of(p.skip(2))
        } else {
            seq![GlobToken::Star] + tokens_of(p.skip(1))
        }
    } else {
        seq![GlobToken::Char(p[0])] + tokens_of(p.skip(1))
    }
}

/// Tokens from `ti` on match the text from `xi` on.
pub open spec fn tokens_match(t: Seq<GlobToken>, x: Seq<u8>, ti: int, xi: int) -> bool
    decreases t.len() - ti, x.len() - xi,
{
    if ti < 0 || xi < 0 || ti >= t.len() {
        xi == x.len()
    } else {
        match t[ti] {
            GlobToken::Char(c) => xi < x.len() && x[xi] == c && tokens_match(t, x, ti + 1, xi + 1),
            GlobToken::Star => tokens_match(t, x, ti + 1, xi) || (xi < x.len() && x[xi]
                != slash_byte() && tokens_match(t, x, ti, xi + 1)),
            GlobToken::GlobStar => tokens_match(t, x, ti + 1, xi) || (xi < x.len()
                && tokens_match(t, x, ti, xi + 1)),
        }
    }
}

/// The whole pattern matches the whole text.
pub open spec fn glob_matches(pattern: Seq<u8>, text: Seq<u8>) -> bool {
    tokens_match(tokens_of(pattern), text, 0, 0)
}

fn tokenize_glob(pattern: &[u8]) -> (r: Vec<GlobToken>)
    ensures
        r@ == tokens_of(pattern@),
{
    let mut tokens: Vec<GlobToken> = Vec::new();
    let n = pattern.len();
    let mut i: usize = 0;
    assert(pattern@.skip(0) =~= pattern@);
    assert(tokens@ + tokens_of(pattern@) =~= tokens_of(pattern@));
    while i < n
        invariant
            n == pattern@.len(),
            i <= n,
            tokens@ + tokens_of(pattern@.skip(i as int)) == tokens_of(pattern@),
        decreases n - i,
    {
        let rest = Ghost(pattern@.skip(i as int));
        if pattern[i] == 42u8 {
            if i + 1 < n && pattern[i + 1] == 42u8 {
                proof {
                    assert(rest@.skip(2) =~= pattern@.skip(i + 2));
                    assert(tokens@.push(GlobToken::GlobStar) + tokens_of(pattern@.skip(i + 2))
                        =~= tokens@ + tokens_of(rest@));
                }
                tokens.push(GlobToken::GlobStar);
                i = i + 2;
            } else {
                proof {
                    assert(rest@.skip(1) =~= pattern@.skip(i + 1));
                    assert(tokens@.push(GlobToken::Star) + tokens_of(pattern@.skip(i + 1))
                        =~= tokens@ + tokens_of(rest@));
                }
                tokens.push(GlobToken::Star);
                i = i + 1;
            }
        } else {
            proof {
                assert(rest@.skip(1) =~= pattern@.skip(i + 1));
                assert(tokens@.push(GlobToken::Char(pattern@[i as int])) + tokens_of(
                    pattern@.skip(i + 1),
                ) =~= tokens@ + tokens_of(rest@));
            }
            tokens.push(GlobToken::Char(pattern[i]));
            i = i + 1;
        }
    }
    proof {
        assert(pattern@.skip(n as int) =~= Seq::<u8>::empty());
        assert(tokens@ + Seq::<GlobToken>::empty() =~= tokens@);
    }
    tokens
}

/// Whether `text` matches `pattern`. Every pair of token index and text index
/// is decided once, from the decisions for the next token, so repeated
/// wildcards cost no backtracking.
pub fn glob_match(pattern: &str, text: &str) -> (r: bool)
    ensures
        r == glob_matches(encode_utf8(pattern@), encode_utf8(text@)),
{
    let tokens = tokenize_glob(pattern.as_bytes());
    let x = text.as_bytes();
    let n = x.len();
    let nt = tokens.len();
    // Row of token index `ti`: whether tokens from `ti` match from each text index.
    let mut next: Vec<bool> = vec![false; n];
    let mut next_end = true;
    let mut ti = nt;
    while ti > 0
        invariant
            n == x@.len(),
            nt == tokens@.len(),
            ti <= nt,
            next@.len() == n,
            next_end == tokens_match(tokens@, x@, ti as int, n as int),
            forall|j: int| 0 <= j < n ==> next@[j] == tokens_match(tokens@, x@, ti as int, j),
        decreases ti,
    {
        let t = tokens[ti - 1];
        let cur_end = match t {
            GlobToken::Char(_) => false,
            _ => next_end,
        };
        proof {
            assert(cur_end == tokens_match(tokens@, x@, ti - 1, n as int));
        }
        let mut cur: Vec<bool> = vec![false; n];
        let mut xi = n;
        while xi > 0
            invariant
                n == x@.len(),
                nt == tokens@.len(),
                0 < ti <= nt,
                t == tokens@[ti - 1],
                next@.len() == n,
                cur@.len() == n,
                xi <= n,
                next_end == tokens_match(tokens@, x@, ti as int, n as int),
                cur_end == tokens_match(tokens@, x@, ti - 1, n as int),
                forall|j: int| 0 <= j < n ==> next@[j] == tokens_match(tokens@, x@, ti as int, j),
                forall|j: int| xi <= j < n ==> cur@[j] == tokens_match(tokens@, x@, ti - 1, j),
            decreases xi,
        {
            let j = xi - 1;
            let after_next = if j + 1 < n {
                next[j + 1]
            } else {
                next_end
            };
            let after_cur = if j + 1 < n {
                cur[j + 1]
            } else {
                cur_end
            };
            let v = match t {
                GlobToken::Char(c) => x[j] == c && after_next,
                GlobToken::Star => next[j] || (x[j] != 47u8 && after_cur),
                GlobToken::GlobStar => next[j] || after_cur,
            };
            cur[j] = v;
            xi = j;
        }
        next = cur;
        next_end = cur_end;
        ti = ti - 1;
    }
    if n == 0 {
        next_end
    } else {
        next[0]
    }
}

/// A path with its backslashes turned into forward slashes.
pub fn normalize_for_match(path: &str) -> (r: String)
    ensures
        r@ == path@.map_values(|c: char| if c == '\\' { '/' } else { c }),
{
    let c = chars_of(path);
    let mut out = String::new();
    let mut i: usize = 0;
    while i < c.len()
        invariant
            c@ == path@,
            i <= c@.len(),
            out@ == c@.take(i as int).map_values(|ch: char| if ch == '\\' { '/' } else { ch }),
        decreases c@.len() - i,
    {
        let ch = c[i];
        out.push(if ch == '\\' { '/' } else { ch });
        proof {
            assert(c@.take(i + 1) =~= c@.take(i as int).push(ch));
        }
        i = i + 1;
        assert(out@ =~= c@.take(i as int).map_values(|ch: char| if ch == '\\' { '/' } else { ch }));
    }
    assert(c@.take(c@.len() as int) =~= c@);
    out
}

} // verus!
