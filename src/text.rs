//! Character-level primitives shared by the extractors and the matcher.

use vstd::prelude::*;
use vstd::string::*;

verus! {

/// Scores and confidences are fixed-point numbers: `SCALE` stands for 1.0.
pub const SCALE: u32 = 10000;

/// What `str::to_lowercase` gives for a text: full Unicode lower-casing.
pub uninterp spec fn lower_of(s: Seq<char>) -> Seq<char>;

/// Relies on `str::to_lowercase`: the result depends on the characters alone,
/// and an empty text stays empty.
#[verifier::external_body]
pub fn lowercase(s: &str) -> (r: String)
    ensures
        r@ == lower_of(s@),
        s@.len() == 0 ==> r@.len() == 0,
{
    s.to_lowercase()
}

/// Relies on `Iterator::collect` over `str::chars`: the characters in order.
#[verifier::external_body]
pub fn chars_of(s: &str) -> (r: Vec<char>)
    ensures
        r@ == s@,
{
    s.chars().collect()
}

/// The lower-cased characters of a text.
pub fn lowered_chars(s: &str) -> (r: Vec<char>)
    ensures
        r@ == lower_of(s@),
        s@.len() == 0 ==> r@.len() == 0,
{
    let l = lowercase(s);
    chars_of(l.as_str())
}

/// `term` occurs in `hay` starting at index `i`.
pub open spec fn occurs_at(hay: Seq<char>, term: Seq<char>, i: int) -> bool {
    0 <= i && i + term.len() <= hay.len() && hay.subrange(i, i + term.len()) == term
}

/// `term` occurs somewhere in `hay`.
pub open spec fn has_term(hay: Seq<char>, term: Seq<char>) -> bool {
    exists|i: int| occurs_at(hay, term, i)
}

/// Whether `term` occurs at index `i` of `hay`.
fn occurs_at_exec(hay: &Vec<char>, term: &Vec<char>, i: usize) -> (r: bool)
    requires
        i + term@.len() <= hay@.len(),
    ensures
        r == occurs_at(hay@, term@, i as int),
{
    let m = term.len();
    let n = hay.len();
    let mut k: usize = 0;
    while k < m
        invariant
            k <= m,
            m == term@.len(),
            n == hay@.len(),
            i + m <= hay@.len(),
            forall|j: int| 0 <= j < k ==> hay@[i + j] == term@[j],
        decreases m - k,
    {
        if hay[i + k] != term[k] {
            proof {
                if occurs_at(hay@, term@, i as int) {
                    assert(hay@.subrange(i as int, i + m)[k as int] == hay@[i + k]);
                }
            }
            return false;
        }
        k = k + 1;
    }
    assert(hay@.subrange(i as int, i + m) =~= term@);
    true
}

/// Whether the characters of `term` occur in `hay`.
pub fn contains_chars(hay: &Vec<char>, term: &Vec<char>) -> (r: bool)
    ensures
        r == has_term(hay@, term@),
{
    let n = hay.len();
    let m = term.len();
    if m > n {
        proof {
            assert forall|i: int| !occurs_at(hay@, term@, i) by {}
        }
        return false;
    }
    let mut i: usize = 0;
    while i < n - m
        invariant
            n == hay@.len(),
            m == term@.len(),
            m <= n,
            i <= n - m,
            forall|j: int| 0 <= j < i ==> !occurs_at(hay@, term@, j),
        decreases n - m - i,
    {
        if occurs_at_exec(hay, term, i) {
            return true;
        }
        i = i + 1;
    }
    if occurs_at_exec(hay, term, i) {
        return true;
    }
    proof {
        assert forall|j: int| !occurs_at(hay@, term@, j) by {
            if 0 <= j <= i {
            }
        }
    }
    false
}

/// Whether the text `term` occurs in `hay`.
pub fn contains_term(hay: &Vec<char>, term: &str) -> (r: bool)
    ensures
        r == has_term(hay@, term@),
{
    let t = chars_of(term);
    contains_chars(hay, &t)
}

/// Whether two texts hold the same characters.
pub fn same_text(a: &str, b: &str) -> (r: bool)
    ensures
        r == (a@ == b@),
{
    let x = chars_of(a);
    let y = chars_of(b);
    same_chars(&x, &y)
}

/// Whether two character sequences are equal.
pub fn same_chars(x: &Vec<char>, y: &Vec<char>) -> (r: bool)
    ensures
        r == (x@ == y@),
{
    if x.len() != y.len() {
        return false;
    }
    let mut i: usize = 0;
    while i < x.len()
        invariant
            x@.len() == y@.len(),
            i <= x@.len(),
            forall|j: int| 0 <= j < i ==> x@[j] == y@[j],
        decreases x@.len() - i,
    {
        if x[i] != y[i] {
            return false;
        }
        i = i + 1;
    }
    assert(x@ =~= y@);
    true
}

/// `prefix` starts `s`.
pub open spec fn starts_with(s: Seq<char>, prefix: Seq<char>) -> bool {
    prefix.len() <= s.len() && s.subrange(0, prefix.len() as int) == prefix
}

/// Whether `s` begins with `prefix`.
pub fn begins_with(s: &str, prefix: &str) -> (r: bool)
    ensures
        r == starts_with(s@, prefix@),
{
    let x = chars_of(s);
    let p = chars_of(prefix);
    if p.len() > x.len() {
        return false;
    }
    occurs_at_exec(&x, &p, 0)
}

/// `char::is_whitespace`: the characters of Unicode's White_Space property.
pub open spec fn is_ws(c: char) -> bool {
    ('\u{9}' <= c && c <= '\u{d}') || c == ' ' || c == '\u{85}' || c == '\u{a0}'
        || c == '\u{1680}' || ('\u{2000}' <= c && c <= '\u{200a}') || c == '\u{2028}'
        || c == '\u{2029}' || c == '\u{202f}' || c == '\u{205f}' || c == '\u{3000}'
}

pub fn is_whitespace(c: char) -> (r: bool)
    ensures
        r == is_ws(c),
{
    ('\u{9}' <= c && c <= '\u{d}') || c == ' ' || c == '\u{85}' || c == '\u{a0}'
        || c == '\u{1680}' || ('\u{2000}' <= c && c <= '\u{200a}') || c == '\u{2028}'
        || c == '\u{2029}' || c == '\u{202f}' || c == '\u{205f}' || c == '\u{3000}'
}

/// The words of `s` from index `i` on, `cur` being the word begun before `i`.
pub open spec fn words_from(s: Seq<char>, i: int, cur: Seq<char>) -> Seq<Seq<char>>
    decreases s.len() - i,
{
    if i >= s.len() {
        if cur.len() > 0 {
            seq![cur]
        } else {
            Seq::empty()
        }
    } else if is_ws(s[i]) {
        (if cur.len() > 0 {
            seq![cur]
        } else {
            Seq::empty()
        }) + words_from(s, i + 1, Seq::empty())
    } else {
        words_from(s, i + 1, cur.push(s[i]))
    }
}

/// The maximal runs of non-whitespace characters of `s`, in order.
pub open spec fn words(s: Seq<char>) -> Seq<Seq<char>> {
    words_from(s, 0, Seq::empty())
}

/// The texts of a list of strings.
pub open spec fn string_views(v: Seq<String>) -> Seq<Seq<char>> {
    v.map_values(|s: String| s@)
}

/// The characters of each sequence in a list.
pub open spec fn char_views(v: Seq<Vec<char>>) -> Seq<Seq<char>> {
    v.map_values(|w: Vec<char>| w@)
}

/// Splits a text at whitespace, dropping empty words.
pub fn split_words(s: &Vec<char>) -> (r: Vec<Vec<char>>)
    ensures
        char_views(r@) == words(s@),
{
    let mut out: Vec<Vec<char>> = Vec::new();
    let mut cur: Vec<char> = Vec::new();
    let mut i: usize = 0;
    while i < s.len()
        invariant
            i <= s@.len(),
            char_views(out@) + words_from(s@, i as int, cur@) == words(s@),
        decreases s@.len() - i,
    {
        let c = s[i];
        let ghost out0 = char_views(out@);
        let ghost cur0 = cur@;
        if is_whitespace(c) {
            let ghost rest = words_from(s@, i + 1, Seq::empty());
            if cur.len() > 0 {
                out.push(cur);
                assert(char_views(out@) =~= out0.push(cur0));
                cur = Vec::new();
                assert(out0 + (seq![cur0] + rest) =~= out0.push(cur0) + rest);
            } else {
                assert(cur0 =~= Seq::<char>::empty());
                assert(out0 + (Seq::<Seq<char>>::empty() + rest) =~= out0 + rest);
            }
        } else {
            cur.push(c);
        }
        i = i + 1;
    }
    if cur.len() > 0 {
        let ghost before = char_views(out@);
        out.push(cur);
        assert(char_views(out@) =~= before.push(cur@));
    }
    assert(char_views(out@) =~= words(s@));
    out
}

/// The pieces of `s` from index `i` on between occurrences of `sep`.
pub open spec fn pieces_from(s: Seq<char>, sep: char, i: int, cur: Seq<char>) -> Seq<Seq<char>>
    decreases s.len() - i,
{
    if i >= s.len() {
        seq![cur]
    } else if s[i] == sep {
        seq![cur] + pieces_from(s, sep, i + 1, Seq::empty())
    } else {
        pieces_from(s, sep, i + 1, cur.push(s[i]))
    }
}

/// The pieces of `s` between occurrences of `sep`, empty ones included.
pub open spec fn pieces(s: Seq<char>, sep: char) -> Seq<Seq<char>> {
    pieces_from(s, sep, 0, Seq::empty())
}

/// Splits a text at every occurrence of `sep`.
pub fn split_at_char(s: &Vec<char>, sep: char) -> (r: Vec<Vec<char>>)
    ensures
        char_views(r@) == pieces(s@, sep),
{
    let mut out: Vec<Vec<char>> = Vec::new();
    let mut cur: Vec<char> = Vec::new();
    let mut i: usize = 0;
    while i < s.len()
        invariant
            i <= s@.len(),
            char_views(out@) + pieces_from(s@, sep, i as int, cur@) == pieces(s@, sep),
        decreases s@.len() - i,
    {
        let c = s[i];
        let ghost out0 = char_views(out@);
        let ghost cur0 = cur@;
        if c == sep {
            let ghost rest = pieces_from(s@, sep, i + 1, Seq::empty());
            out.push(cur);
            assert(char_views(out@) =~= out0.push(cur0));
            cur = Vec::new();
            assert(out0 + (seq![cur0] + rest) =~= out0.push(cur0) + rest);
        } else {
            cur.push(c);
        }
        i = i + 1;
    }
    let ghost before = char_views(out@);
    out.push(cur);
    assert(char_views(out@) =~= before.push(cur@));
    assert(char_views(out@) =~= pieces(s@, sep));
    out
}

/// Index of the first character that is not whitespace, from `i` on.
pub open spec fn first_non_ws(s: Seq<char>, i: int) -> int
    decreases s.len() - i,
{
    if i >= s.len() || !is_ws(s[i]) {
        i
    } else {
        first_non_ws(s, i + 1)
    }
}

/// One past the last character before `j` that is not whitespace.
pub open spec fn last_non_ws(s: Seq<char>, lo: int, j: int) -> int
    decreases j - lo,
{
    if j <= lo || !is_ws(s[j - 1]) {
        j
    } else {
        last_non_ws(s, lo, j - 1)
    }
}

/// `s` without leading and trailing whitespace.
pub open spec fn trimmed(s: Seq<char>) -> Seq<char> {
    let a = first_non_ws(s, 0);
    s.subrange(a, last_non_ws(s, a, s.len() as int))
}

proof fn lemma_first_non_ws(s: Seq<char>, i: int)
    requires
        0 <= i <= s.len(),
    ensures
        i <= first_non_ws(s, i) <= s.len(),
    decreases s.len() - i,
{
    if i < s.len() && is_ws(s[i]) {
        lemma_first_non_ws(s, i + 1);
    }
}

proof fn lemma_last_non_ws(s: Seq<char>, lo: int, j: int)
    requires
        0 <= lo <= j <= s.len(),
    ensures
        lo <= last_non_ws(s, lo, j) <= j,
    decreases j - lo,
{
    if j > lo && is_ws(s[j - 1]) {
        lemma_last_non_ws(s, lo, j - 1);
    }
}

/// `s` without leading and trailing whitespace.
pub fn trim_chars(s: &Vec<char>) -> (r: Vec<char>)
    ensures
        r@ == trimmed(s@),
{
    let n = s.len();
    let mut a: usize = 0;
    while a < n && is_whitespace(s[a])
        invariant
            n == s@.len(),
            a <= n,
            first_non_ws(s@, 0) == first_non_ws(s@, a as int),
        decreases n - a,
    {
        a = a + 1;
    }
    let mut b: usize = n;
    while b > a && is_whitespace(s[b - 1])
        invariant
            n == s@.len(),
            a <= b <= n,
            last_non_ws(s@, a as int, n as int) == last_non_ws(s@, a as int, b as int),
        decreases b - a,
    {
        b = b - 1;
    }
    let mut out: Vec<char> = Vec::new();
    let mut k: usize = a;
    while k < b
        invariant
            a <= k <= b <= n,
            n == s@.len(),
            out@ == s@.subrange(a as int, k as int),
        decreases b - k,
    {
        out.push(s[k]);
        assert(out@ =~= s@.subrange(a as int, k + 1));
        k = k + 1;
    }
    out
}

/// The text of a character sequence.
#[verifier::external_body]
pub fn text_of(c: &Vec<char>) -> (r: String)
    ensures
        r@ == c@,
{
    c.iter().collect()
}

} // verus!

verus! {

/// The decimal digit character for `d`.
pub open spec fn digit(d: int) -> char {
    if d == 0 {
        '0'
    } else if d == 1 {
        '1'
    } else if d == 2 {
        '2'
    } else if d == 3 {
        '3'
    } else if d == 4 {
        '4'
    } else if d == 5 {
        '5'
    } else if d == 6 {
        '6'
    } else if d == 7 {
        '7'
    } else if d == 8 {
        '8'
    } else {
        '9'
    }
}

fn digit_char(d: u64) -> (r: char)
    requires
        d < 10,
    ensures
        r == digit(d as int),
{
    if d == 0 {
        '0'
    } else if d == 1 {
        '1'
    } else if d == 2 {
        '2'
    } else if d == 3 {
        '3'
    } else if d == 4 {
        '4'
    } else if d == 5 {
        '5'
    } else if d == 6 {
        '6'
    } else if d == 7 {
        '7'
    } else if d == 8 {
        '8'
    } else {
        '9'
    }
}

/// Decimal notation of a natural number, without leading zeros.
pub open spec fn decimal_text(n: nat) -> Seq<char>
    decreases n,
{
    if n < 10 {
        seq![digit(n as int)]
    } else {
        decimal_text(n / 10).push(digit((n % 10) as int))
    }
}

/// The last `w` decimal digits of `n`, zero-padded.
pub open spec fn fixed_digits(n: nat, w: nat) -> Seq<char>
    decreases w,
{
    if w == 0 {
        Seq::empty()
    } else {
        fixed_digits(n / 10, (w - 1) as nat).push(digit((n % 10) as int))
    }
}

fn decimal_chars(n: u64) -> (r: Vec<char>)
    ensures
        r@ == decimal_text(n as nat),
    decreases n,
{
    if n < 10 {
        let mut v: Vec<char> = Vec::new();
        v.push(digit_char(n));
        assert(v@ =~= decimal_text(n as nat));
        v
    } else {
        let mut v = decimal_chars(n / 10);
        v.push(digit_char(n % 10));
        v
    }
}

fn fixed_chars(n: u64, w: u64) -> (r: Vec<char>)
    ensures
        r@ == fixed_digits(n as nat, w as nat),
    decreases w,
{
    if w == 0 {
        let v: Vec<char> = Vec::new();
        assert(v@ =~= fixed_digits(n as nat, 0));
        v
    } else {
        let mut v = fixed_chars(n / 10, w - 1);
        v.push(digit_char(n % 10));
        v
    }
}

/// Decimal notation of `n`.
pub fn decimal(n: u64) -> (r: String)
    ensures
        r@ == decimal_text(n as nat),
{
    let c = decimal_chars(n);
    text_of(&c)
}

/// The last `w` decimal digits of `n`, zero-padded.
pub fn fixed_width(n: u64, w: u64) -> (r: String)
    ensures
        r@ == fixed_digits(n as nat, w as nat),
{
    let c = fixed_chars(n, w);
    text_of(&c)
}

/// A score as a percentage with one decimal, rounded half up ("90.0").
pub open spec fn percent_text(score: nat) -> Seq<char> {
    let tenths = (score + 5) / 10;
    decimal_text(tenths / 10) + "."@ + seq![digit((tenths % 10) as int)]
}

pub fn percent(score: u32) -> (r: String)
    ensures
        r@ == percent_text(score as nat),
{
    let tenths: u64 = (score as u64 + 5) / 10;
    let mut s = decimal(tenths / 10);
    s.append(".");
    let mut d: Vec<char> = Vec::new();
    d.push(digit_char(tenths % 10));
    let t = text_of(&d);
    s.append(t.as_str());
    assert(s@ =~= percent_text(score as nat));
    s
}

} // verus!
