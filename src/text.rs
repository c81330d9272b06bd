//! Character-level helpers shared by the scanners: UTF-8 and UTF-16 widths,
//! ASCII classes and Unicode whitespace.

use vstd::prelude::*;
use vstd::utf8::*;
use vstd::std_specs::iter::IteratorSpec;

verus! {

broadcast use vstd::string::group_string_axioms;

/// Number of bytes in the UTF-8 encoding of `c`.
pub open spec fn utf8_width(c: char) -> nat {
    encode_scalar(c as u32).len()
}

/// Number of bytes in the UTF-8 encoding of `s`.
pub open spec fn byte_len(s: Seq<char>) -> nat {
    encode_utf8(s).len()
}

/// Number of UTF-16 code units that encode `c`.
pub open spec fn utf16_width(c: char) -> nat {
    if (c as u32) < 0x10000 {
        1
    } else {
        2
    }
}

/// Number of UTF-16 code units that encode `s`.
pub open spec fn utf16_count(s: Seq<char>) -> nat
    decreases s.len(),
{
    if s.len() == 0 {
        0
    } else {
        utf16_count(s.drop_last()) + utf16_width(s.last())
    }
}

pub proof fn lemma_encode_utf8_append(a: Seq<char>, b: Seq<char>)
    ensures
        encode_utf8(a + b) == encode_utf8(a) + encode_utf8(b),
    decreases a.len(),
{
    if a.len() == 0 {
        assert(a + b =~= b);
        assert(encode_utf8(a) + encode_utf8(b) =~= encode_utf8(b));
    } else {
        lemma_encode_utf8_append(a.drop_first(), b);
        assert((a + b).drop_first() =~= a.drop_first() + b);
        assert((a + b)[0] == a[0]);
        assert(encode_utf8(a + b) =~= encode_utf8(a) + encode_utf8(b));
    }
}

/// The byte length of a prefix grows by the width of the next character.
pub proof fn lemma_byte_len_step(s: Seq<char>, i: int)
    requires
        0 <= i < s.len(),
    ensures
        byte_len(s.take(i + 1)) == byte_len(s.take(i)) + utf8_width(s[i]),
{
    let c = seq![s[i]];
    assert(s.take(i + 1) =~= s.take(i) + c);
    lemma_encode_utf8_append(s.take(i), c);
    assert(c[0] == s[i]);
    assert(c.drop_first() =~= Seq::<char>::empty());
    assert(encode_utf8(c.drop_first()) =~= Seq::<u8>::empty());
    assert(encode_utf8(c) =~= encode_scalar(s[i] as u32) + encode_utf8(c.drop_first()));
}

/// The byte length of prefixes is monotonic.
pub proof fn lemma_byte_len_mono(s: Seq<char>, i: int, j: int)
    requires
        0 <= i <= j <= s.len(),
    ensures
        byte_len(s.take(i)) <= byte_len(s.take(j)),
        i < j ==> byte_len(s.take(i)) < byte_len(s.take(j)),
    decreases j - i,
{
    if i < j {
        lemma_byte_len_step(s, j - 1);
        lemma_utf8_width_pos(s[j - 1]);
        lemma_byte_len_mono(s, i, j - 1);
    }
}

pub proof fn lemma_utf8_width_pos(c: char)
    ensures
        1 <= utf8_width(c) <= 4,
{
}

pub proof fn lemma_take_full(s: Seq<char>)
    ensures
        s.take(s.len() as int) == s,
{
    assert(s.take(s.len() as int) =~= s);
}

/// UTF-8 width of a character.
pub fn char_utf8_width(c: char) -> (r: usize)
    ensures
        r == utf8_width(c),
        1 <= r <= 4,
{
    proof {
        char_is_scalar(c);
    }
    let v = c as u32;
    if v < 0x80 {
        1
    } else if v < 0x800 {
        2
    } else if v < 0x10000 {
        3
    } else {
        4
    }
}

/// UTF-16 width of a character.
pub fn char_utf16_width(c: char) -> (r: usize)
    ensures
        r == utf16_width(c),
{
    if (c as u32) < 0x10000 {
        1
    } else {
        2
    }
}

/// Relies on `String::push`: appends one character.
pub assume_specification[ String::push ](s: &mut String, ch: char)
    ensures
        final(s)@ == old(s)@.push(ch),
;

/// A string holding the characters of `v`.
pub fn string_from_chars(v: &Vec<char>) -> (r: String)
    ensures
        r@ == v@,
{
    let mut out = String::new();
    let mut i: usize = 0;
    while i < v.len()
        invariant
            i <= v@.len(),
            out@ == v@.take(i as int),
        decreases v@.len() - i,
    {
        out.push(v[i]);
        proof {
            assert(v@.take(i + 1) =~= v@.take(i as int).push(v@[i as int]));
        }
        i = i + 1;
    }
    assert(v@.take(v@.len() as int) =~= v@);
    out
}

/// Number of bytes in `s`.
pub fn str_byte_len(s: &str) -> (r: usize)
    ensures
        r == byte_len(s@),
{
    let b = s.as_bytes();
    b.len()
}

/// The characters of `s`, in order.
pub fn chars_of(s: &str) -> (r: Vec<char>)
    ensures
        r@ == s@,
{
    let mut out: Vec<char> = Vec::new();
    for c in it: s.chars()
        invariant
            out@ == it.seq().take(it.index() as int),
    {
        out.push(c);
    }
    out
}


/// `k` is the character index that sits at byte offset `b` of `s`.
pub open spec fn is_char_offset(s: Seq<char>, k: int, b: int) -> bool {
    0 <= k <= s.len() && byte_len(s.take(k)) == b
}

pub proof fn lemma_utf16_count_step(s: Seq<char>, i: int)
    requires
        0 <= i < s.len(),
    ensures
        utf16_count(s.take(i + 1)) == utf16_count(s.take(i)) + utf16_width(s[i]),
{
    assert(s.take(i + 1).drop_last() =~= s.take(i));
}

pub proof fn lemma_utf16_count_mono(s: Seq<char>, i: int, j: int)
    requires
        0 <= i <= j <= s.len(),
    ensures
        utf16_count(s.take(i)) <= utf16_count(s.take(j)),
    decreases j - i,
{
    if i < j {
        lemma_utf16_count_step(s, j - 1);
        lemma_utf16_count_mono(s, i, j - 1);
    }
}

pub proof fn lemma_utf16_count_append(a: Seq<char>, b: Seq<char>)
    ensures
        utf16_count(a + b) == utf16_count(a) + utf16_count(b),
    decreases b.len(),
{
    if b.len() == 0 {
        assert(a + b =~= a);
    } else {
        lemma_utf16_count_append(a, b.drop_last());
        assert((a + b).drop_last() =~= a + b.drop_last());
        assert((a + b).last() == b.last());
    }
}

/// Character offsets are unique: two indices at the same byte offset coincide.
pub proof fn lemma_char_offset_unique(s: Seq<char>, k1: int, k2: int, b: int)
    requires
        is_char_offset(s, k1, b),
        is_char_offset(s, k2, b),
    ensures
        k1 == k2,
{
    if k1 < k2 {
        lemma_byte_len_mono(s, k1, k2);
    } else if k2 < k1 {
        lemma_byte_len_mono(s, k2, k1);
    }
}

/// The character index at byte offset `b`, if `b` falls on a character boundary.
pub fn char_index_of_byte(chars: &Vec<char>, b: usize) -> (r: Option<usize>)
    ensures
        r matches Some(k) ==> is_char_offset(chars@, k as int, b as int),
        r is None ==> forall|k: int| !is_char_offset(chars@, k, b as int),
{
    let n = chars.len();
    let mut i: usize = 0;
    let mut acc: usize = 0;
    while i < n
        invariant
            n == chars@.len(),
            i <= n,
            acc <= b,
            acc == byte_len(chars@.take(i as int)),
        decreases n - i,
    {
        if acc == b {
            return Some(i);
        }
        let w = char_utf8_width(chars[i]);
        proof {
            lemma_byte_len_step(chars@, i as int);
        }
        if w > b - acc {
            proof {
                assert forall|k: int| !is_char_offset(chars@, k, b as int) by {
                    if 0 <= k <= i {
                        lemma_byte_len_mono(chars@, k, i as int);
                    } else if i < k <= n {
                        lemma_byte_len_mono(chars@, i + 1, k);
                    }
                }
            }
            return None;
        }
        acc = acc + w;
        i = i + 1;
    }
    if acc == b {
        Some(n)
    } else {
        proof {
            assert forall|k: int| !is_char_offset(chars@, k, b as int) by {
                if 0 <= k <= n {
                    lemma_byte_len_mono(chars@, k, n as int);
                }
            }
        }
        None
    }
}

/// Byte offset of character index `k`.
pub fn byte_offset(chars: &Vec<char>, k: usize) -> (r: usize)
    requires
        k <= chars@.len(),
        byte_len(chars@.take(k as int)) <= usize::MAX,
    ensures
        r == byte_len(chars@.take(k as int)),
{
    let mut i: usize = 0;
    let mut acc: usize = 0;
    while i < k
        invariant
            k <= chars@.len(),
            i <= k,
            byte_len(chars@.take(k as int)) <= usize::MAX,
            acc == byte_len(chars@.take(i as int)),
        decreases k - i,
    {
        proof {
            lemma_byte_len_step(chars@, i as int);
            lemma_byte_len_mono(chars@, i + 1, k as int);
        }
        acc = acc + char_utf8_width(chars[i]);
        i = i + 1;
    }
    acc
}

/// UTF-16 length of the first `k` characters.
pub fn utf16_offset(chars: &Vec<char>, k: usize) -> (r: u32)
    requires
        k <= chars@.len(),
        utf16_count(chars@.take(k as int)) <= u32::MAX,
    ensures
        r == utf16_count(chars@.take(k as int)),
{
    let mut i: usize = 0;
    let mut acc: u32 = 0;
    while i < k
        invariant
            k <= chars@.len(),
            i <= k,
            utf16_count(chars@.take(k as int)) <= u32::MAX,
            acc == utf16_count(chars@.take(i as int)),
        decreases k - i,
    {
        proof {
            lemma_utf16_count_step(chars@, i as int);
            lemma_utf16_count_mono(chars@, i + 1, k as int);
        }
        let w = char_utf16_width(chars[i]);
        acc = acc + w as u32;
        i = i + 1;
    }
    acc
}

/// UTF-16 length of the first `k` characters, if it fits in a `u32`.
pub fn utf16_offset_checked(chars: &Vec<char>, k: usize) -> (r: Option<u32>)
    requires
        k <= chars@.len(),
    ensures
        match r {
            Some(v) => v == utf16_count(chars@.take(k as int)),
            None => utf16_count(chars@.take(k as int)) > u32::MAX,
        },
{
    let mut i: usize = 0;
    let mut acc: u32 = 0;
    while i < k
        invariant
            k <= chars@.len(),
            i <= k,
            acc == utf16_count(chars@.take(i as int)),
        decreases k - i,
    {
        proof {
            lemma_utf16_count_step(chars@, i as int);
            lemma_utf16_count_mono(chars@, i + 1, k as int);
        }
        let w = char_utf16_width(chars[i]) as u32;
        if w > u32::MAX - acc {
            return None;
        }
        acc = acc + w;
        i = i + 1;
    }
    Some(acc)
}

/// Number of UTF-16 code units in `text`, saturating at `u32::MAX`.
pub fn utf16_len(text: &str) -> (r: u32)
    ensures
        r == (if utf16_count(text@) <= u32::MAX {
            utf16_count(text@)
        } else {
            u32::MAX as nat
        }),
{
    let chars = chars_of(text);
    proof {
        lemma_take_full(chars@);
    }
    match utf16_offset_checked(&chars, chars.len()) {
        Some(v) => v,
        None => u32::MAX,
    }
}

pub open spec fn is_ascii_alpha(c: char) -> bool {
    ('a' <= c && c <= 'z') || ('A' <= c && c <= 'Z')
}

pub open spec fn is_ascii_digit(c: char) -> bool {
    '0' <= c && c <= '9'
}

/// Letters, digits and the underscore.
pub open spec fn is_word_char(c: char) -> bool {
    is_ascii_alpha(c) || is_ascii_digit(c) || c == '_'
}

/// The characters with the Unicode `White_Space` property.
pub open spec fn is_unicode_whitespace(c: char) -> bool {
    let v = c as u32;
    (0x09 <= v && v <= 0x0D) || v == 0x20 || v == 0x85 || v == 0xA0 || v == 0x1680
        || (0x2000 <= v && v <= 0x200A) || v == 0x2028 || v == 0x2029 || v == 0x202F
        || v == 0x205F || v == 0x3000
}

pub fn ascii_alpha(c: char) -> (r: bool)
    ensures
        r == is_ascii_alpha(c),
{
    ('a' <= c && c <= 'z') || ('A' <= c && c <= 'Z')
}

pub fn word_char(c: char) -> (r: bool)
    ensures
        r == is_word_char(c),
{
    ascii_alpha(c) || ('0' <= c && c <= '9') || c == '_'
}

pub fn unicode_whitespace(c: char) -> (r: bool)
    ensures
        r == is_unicode_whitespace(c),
{
    let v = c as u32;
    (0x09 <= v && v <= 0x0D) || v == 0x20 || v == 0x85 || v == 0xA0 || v == 0x1680
        || (0x2000 <= v && v <= 0x200A) || v == 0x2028 || v == 0x2029 || v == 0x202F
        || v == 0x205F || v == 0x3000
}

} // verus!
