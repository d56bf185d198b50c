//! Regular-expression matching and the mapping of its byte offsets to
//! character positions.

use vstd::prelude::*;
use vstd::string::*;

verus! {

/// What compiling `pattern` and listing its matches in `text` yields: `None`
/// when the pattern does not compile, else the byte spans of the successive
/// non-overlapping matches.
pub uninterp spec fn regex_spans(pattern: Seq<char>, text: Seq<char>) -> Option<Seq<(int, int)>>;

/// Byte spans as integers.
pub open spec fn spans_view(v: Seq<(usize, usize)>) -> Seq<(int, int)> {
    v.map_values(|p: (usize, usize)| (p.0 as int, p.1 as int))
}

/// Relies on `regex::Regex::new`, which fails on a malformed pattern, and on
/// `Regex::find_iter`, whose matches each have `start() <= end()`.
#[verifier::external_body]
pub fn find_spans(pattern: &str, text: &str) -> (r: Option<Vec<(usize, usize)>>)
    ensures
        r is None <==> regex_spans(pattern@, text@) is None,
        r matches Some(v) ==> regex_spans(pattern@, text@) == Some(spans_view(v@)),
        r matches Some(v) ==> forall|k: int| 0 <= k < v@.len() ==> v@[k].0 <= v@[k].1,
{
    match regex::Regex::new(pattern) {
        Ok(re) => Some(re.find_iter(text).map(|m| (m.start(), m.end())).collect()),
        Err(_) => None,
    }
}

/// Number of bytes that UTF-8 uses for a character.
pub open spec fn utf8_width(c: char) -> int {
    if (c as u32) < 0x80 {
        1
    } else if (c as u32) < 0x800 {
        2
    } else if (c as u32) < 0x10000 {
        3
    } else {
        4
    }
}

/// Number of bytes of the UTF-8 encoding of a text.
pub open spec fn utf8_len(s: Seq<char>) -> int
    decreases s.len(),
{
    if s.len() == 0 {
        0
    } else {
        utf8_len(s.drop_last()) + utf8_width(s.last())
    }
}

pub fn char_width(c: char) -> (r: usize)
    ensures
        r == utf8_width(c),
{
    let v = c as u32;
    if v < 0x80 {
        1
    } else if v < 0x800 {
        2
    } else if v < 0x10000 {
        3
    } else {
        4
    }
}

proof fn lemma_utf8_len_step(s: Seq<char>, i: int)
    requires
        0 <= i < s.len(),
    ensures
        utf8_len(s.take(i + 1)) == utf8_len(s.take(i)) + utf8_width(s[i]),
{
    assert(s.take(i + 1).drop_last() =~= s.take(i));
}

/// First character index from `i` on whose prefix reaches byte offset `b`.
pub open spec fn char_index_from(s: Seq<char>, b: int, i: int) -> int
    decreases s.len() - i,
{
    if i >= s.len() || utf8_len(s.take(i)) >= b {
        i
    } else {
        char_index_from(s, b, i + 1)
    }
}

/// The character position of byte offset `b` in `s`.
pub open spec fn char_index(s: Seq<char>, b: int) -> int {
    char_index_from(s, b, 0)
}

proof fn lemma_char_index_from_bounds(s: Seq<char>, b: int, i: int)
    requires
        0 <= i <= s.len(),
    ensures
        i <= char_index_from(s, b, i) <= s.len(),
    decreases s.len() - i,
{
    if i < s.len() && utf8_len(s.take(i)) < b {
        lemma_char_index_from_bounds(s, b, i + 1);
    }
}

proof fn lemma_char_index_from_monotone(s: Seq<char>, b1: int, b2: int, i: int)
    requires
        0 <= i <= s.len(),
        b1 <= b2,
    ensures
        char_index_from(s, b1, i) <= char_index_from(s, b2, i),
    decreases s.len() - i,
{
    lemma_char_index_from_bounds(s, b1, i);
    lemma_char_index_from_bounds(s, b2, i);
    if i < s.len() && utf8_len(s.take(i)) < b2 {
        if utf8_len(s.take(i)) < b1 {
            lemma_char_index_from_monotone(s, b1, b2, i + 1);
        }
    }
}

/// Character positions stay in the text and keep the order of byte offsets.
pub proof fn lemma_char_index(s: Seq<char>, b1: int, b2: int)
    requires
        b1 <= b2,
    ensures
        0 <= char_index(s, b1) <= char_index(s, b2) <= s.len(),
{
    lemma_char_index_from_bounds(s, b1, 0);
    lemma_char_index_from_bounds(s, b2, 0);
    lemma_char_index_from_monotone(s, b1, b2, 0);
}

/// The character position of byte offset `b` in `chars`.
pub fn char_index_of(chars: &Vec<char>, b: usize) -> (r: usize)
    ensures
        r == char_index(chars@, b as int),
{
    let n = chars.len();
    let mut i: usize = 0;
    let mut acc: u128 = 0;
    while i < n && acc < b as u128
        invariant
            n == chars@.len(),
            i <= n,
            acc == utf8_len(chars@.take(i as int)),
            acc <= b + 4,
            char_index(chars@, b as int) == char_index_from(chars@, b as int, i as int),
        decreases n - i,
    {
        proof {
            lemma_utf8_len_step(chars@, i as int);
        }
        acc = acc + char_width(chars[i]) as u128;
        i = i + 1;
    }
    i
}

/// The window of `radius` characters on each side of `[start, end)`,
/// clamped to the text.
pub open spec fn window_start(start: int, radius: int) -> int {
    if start >= radius {
        start - radius
    } else {
        0
    }
}

pub open spec fn window_end(len: int, end: int, radius: int) -> int {
    if radius >= len - end {
        len
    } else {
        end + radius
    }
}

/// The text of `text` between two character positions.
pub fn substring(text: &str, from: usize, to: usize) -> (r: String)
    requires
        from <= to <= text@.len(),
    ensures
        r@ == text@.subrange(from as int, to as int),
{
    let s = text.substring_char(from, to);
    String::from_str(s)
}

} // verus!
