//! Clean-up and light structure detection of document text.

use vstd::prelude::*;
use vstd::string::*;
use crate::text::{
    lower_of, is_ws, is_whitespace, chars_of, split_at_char, pieces, char_views, trim_chars,
    trimmed, text_of, string_views, occurs_at, lowered_chars,
};
use crate::clause::{views, has_any, contains_any};
use crate::pattern::{utf8_len, char_width};

verus! {

/// What `char::is_uppercase` says of a character: Unicode's Uppercase
/// property.
pub uninterp spec fn uppercase_char(c: char) -> bool;

/// What `char::is_numeric` says of a character: a Unicode numeric category.
pub uninterp spec fn numeric_char(c: char) -> bool;

/// Relies on `char::is_uppercase`, which depends on the character alone.
#[verifier::external_body]
fn is_uppercase(c: char) -> (r: bool)
    ensures
        r == uppercase_char(c),
{
    c.is_uppercase()
}

/// Relies on `char::is_numeric`, which depends on the character alone.
#[verifier::external_body]
fn is_numeric(c: char) -> (r: bool)
    ensures
        r == numeric_char(c),
{
    c.is_numeric()
}

/// The trimmed pieces of a list that are not empty.
pub open spec fn kept_lines(ps: Seq<Seq<char>>) -> Seq<Seq<char>>
    decreases ps.len(),
{
    if ps.len() == 0 {
        Seq::empty()
    } else {
        let prev = kept_lines(ps.drop_last());
        let t = trimmed(ps.last());
        if t.len() > 0 {
            prev.push(t)
        } else {
            prev
        }
    }
}

/// Lines joined with a newline between two of them.
pub open spec fn join_lines(ls: Seq<Seq<char>>) -> Seq<char>
    decreases ls.len(),
{
    if ls.len() == 0 {
        Seq::empty()
    } else if ls.len() == 1 {
        ls[0]
    } else {
        join_lines(ls.drop_last()) + seq!['\n'] + ls.last()
    }
}

/// The text with every line trimmed and blank lines removed.
pub open spec fn cleaned(s: Seq<char>) -> Seq<char> {
    join_lines(kept_lines(pieces(s, '\n')))
}

/// The trimmed pieces of a list with more than `min` bytes.
pub open spec fn long_pieces(ps: Seq<Seq<char>>, min: int) -> Seq<Seq<char>>
    decreases ps.len(),
{
    if ps.len() == 0 {
        Seq::empty()
    } else {
        let prev = long_pieces(ps.drop_last(), min);
        let t = trimmed(ps.last());
        if utf8_len(t) > min {
            prev.push(t)
        } else {
            prev
        }
    }
}

/// The pieces of `s` from index `i` on between non-overlapping occurrences
/// of `sep`, found from left to right.
pub open spec fn split_from(s: Seq<char>, sep: Seq<char>, i: int, cur: Seq<char>) -> Seq<Seq<char>>
    decreases s.len() - i,
{
    if i >= s.len() {
        seq![cur]
    } else if sep.len() > 0 && occurs_at(s, sep, i) {
        seq![cur] + split_from(s, sep, i + sep.len(), Seq::empty())
    } else {
        split_from(s, sep, i + 1, cur.push(s[i]))
    }
}

/// The pieces of `s` between blank-line separators.
pub open spec fn paragraph_pieces(s: Seq<char>) -> Seq<Seq<char>> {
    split_from(s, seq!['\n', '\n'], 0, Seq::empty())
}

/// `s` with a space dropped after a kept space and a newline dropped after
/// two kept newlines.
pub open spec fn squeezed(s: Seq<char>) -> Seq<char>
    decreases s.len(),
{
    if s.len() == 0 {
        Seq::empty()
    } else {
        let p = squeezed(s.drop_last());
        let c = s.last();
        if c == ' ' && p.len() > 0 && p.last() == ' ' {
            p
        } else if c == '\n' && p.len() >= 2 && p.last() == '\n' && p[p.len() - 2] == '\n' {
            p
        } else {
            p.push(c)
        }
    }
}

/// The lines of a text, as `str::lines` gives them before trimming: the
/// pieces between newlines, without a final empty piece.
pub open spec fn lines_of(s: Seq<char>) -> Seq<Seq<char>> {
    let p = pieces(s, '\n');
    if p.len() > 0 && p.last().len() == 0 {
        p.drop_last()
    } else {
        p
    }
}

/// Every character is upper-case, whitespace or numeric.
pub open spec fn all_upper_or_numeric(t: Seq<char>) -> bool {
    forall|k: int|
        0 <= k < t.len() ==> uppercase_char(#[trigger] t[k]) || is_ws(t[k]) || numeric_char(t[k])
}

/// A short trimmed line in capitals or numbers, or starting with a number.
pub open spec fn is_header_line(t: Seq<char>) -> bool {
    utf8_len(t) < 50 && (all_upper_or_numeric(t) || (t.len() > 0 && numeric_char(t[0])))
}

pub open spec fn clause_markers() -> Seq<Seq<char>> {
    seq!["szerződő fél"@, "bank"@, "hitelfelvevő"@, "clause"@, "agreement"@]
}

/// A long trimmed line with contractual wording.
pub open spec fn is_clause_line(t: Seq<char>) -> bool {
    utf8_len(t) > 50 && has_any(lower_of(t), clause_markers())
}

/// The (line number, trimmed line) entries among the first `n` lines that
/// satisfy `header` (when `header`) or the clause test (otherwise).
pub open spec fn marked_lines(ls: Seq<Seq<char>>, n: int, header: bool) -> Seq<(int, Seq<char>)>
    decreases n,
{
    if n <= 0 {
        Seq::empty()
    } else {
        let prev = marked_lines(ls, n - 1, header);
        let t = trimmed(ls[n - 1]);
        if (header && is_header_line(t)) || (!header && is_clause_line(t)) {
            prev.push((n - 1, t))
        } else {
            prev
        }
    }
}

/// Numbered lines as integers and texts.
pub open spec fn numbered_view(v: Seq<(usize, String)>) -> Seq<(int, Seq<char>)> {
    v.map_values(|e: (usize, String)| (e.0 as int, e.1@))
}

/// Headers, clause-like lines and paragraphs of a document, by line number.
#[derive(Debug)]
pub struct DocumentStructure {
    pub headers: Vec<(usize, String)>,
    pub clauses: Vec<(usize, String)>,
    pub paragraphs: Vec<(usize, String)>,
}

impl DocumentStructure {
    pub fn new() -> (r: Self)
        ensures
            r.headers@.len() == 0,
            r.clauses@.len() == 0,
            r.paragraphs@.len() == 0,
    {
        DocumentStructure { headers: Vec::new(), clauses: Vec::new(), paragraphs: Vec::new() }
    }
}

/// Number of UTF-8 bytes of a character sequence.
fn byte_len(w: &Vec<char>) -> (r: u128)
    ensures
        r == utf8_len(w@),
{
    let mut n: u128 = 0;
    let mut i: usize = 0;
    while i < w.len()
        invariant
            i <= w@.len(),
            n == utf8_len(w@.take(i as int)),
            n <= 4 * i,
        decreases w@.len() - i,
    {
        assert(w@.take(i + 1).drop_last() =~= w@.take(i as int));
        n = n + char_width(w[i]) as u128;
        i = i + 1;
    }
    assert(w@.take(i as int) =~= w@);
    n
}

/// Splits at non-overlapping blank-line separators.
fn split_paragraphs(s: &Vec<char>) -> (r: Vec<Vec<char>>)
    ensures
        char_views(r@) == paragraph_pieces(s@),
{
    let ghost sep = seq!['\n', '\n'];
    let mut out: Vec<Vec<char>> = Vec::new();
    let mut cur: Vec<char> = Vec::new();
    let mut i: usize = 0;
    while i < s.len()
        invariant
            i <= s@.len(),
            sep == seq!['\n', '\n'],
            char_views(out@) + split_from(s@, sep, i as int, cur@) == paragraph_pieces(s@),
        decreases s@.len() - i,
    {
        let ghost out0 = char_views(out@);
        let ghost cur0 = cur@;
        if i + 1 < s.len() && s[i] == '\n' && s[i + 1] == '\n' {
            assert(s@.subrange(i as int, i + 2) =~= sep);
            let ghost rest = split_from(s@, sep, i + 2, Seq::empty());
            out.push(cur);
            assert(char_views(out@) =~= out0.push(cur0));
            cur = Vec::new();
            assert(out0 + (seq![cur0] + rest) =~= out0.push(cur0) + rest);
            i = i + 2;
        } else {
            proof {
                if occurs_at(s@, sep, i as int) {
                    assert(s@.subrange(i as int, i + 2)[0] == s@[i as int]);
                    assert(s@.subrange(i as int, i + 2)[1] == s@[i + 1]);
                }
            }
            cur.push(s[i]);
            i = i + 1;
        }
    }
    let ghost out0 = char_views(out@);
    out.push(cur);
    assert(char_views(out@) =~= out0.push(cur@));
    assert(char_views(out@) =~= paragraph_pieces(s@));
    out
}

/// The trimmed pieces with more than `min` bytes, as strings.
fn keep_long(ps: &Vec<Vec<char>>, min: u128) -> (r: Vec<String>)
    ensures
        string_views(r@) == long_pieces(char_views(ps@), min as int),
{
    let ghost pv = char_views(ps@);
    let mut out: Vec<String> = Vec::new();
    let mut i: usize = 0;
    while i < ps.len()
        invariant
            i <= ps@.len(),
            pv == char_views(ps@),
            string_views(out@) == long_pieces(pv.take(i as int), min as int),
        decreases ps@.len() - i,
    {
        assert(pv.take(i + 1).drop_last() =~= pv.take(i as int));
        let t = trim_chars(&ps[i]);
        if byte_len(&t) > min {
            let ghost before = string_views(out@);
            let st = text_of(&t);
            out.push(st);
            assert(string_views(out@) =~= before.push(t@));
        }
        i = i + 1;
    }
    assert(pv.take(i as int) =~= pv);
    out
}

/// The lines of a text before trimming.
fn split_lines(s: &Vec<char>) -> (r: Vec<Vec<char>>)
    ensures
        char_views(r@) == lines_of(s@),
{
    let mut p = split_at_char(s, '\n');
    let ghost pv = char_views(p@);
    let n = p.len();
    if n > 0 && p[n - 1].len() == 0 {
        assert(pv.last() == p@[n - 1]@);
        p.pop();
        assert(char_views(p@) =~= pv.drop_last());
    }
    p
}

/// Turns raw document text into clean text and simple structure.
pub struct TextProcessor;

impl TextProcessor {
    pub fn new() -> (r: Self) {
        TextProcessor
    }

    /// Every line trimmed, blank lines dropped, lines joined by newlines.
    pub fn clean_text(&self, text: &str) -> (r: String)
        ensures
            r@ == cleaned(text@),
    {
        let chars = chars_of(text);
        let ps = split_at_char(&chars, '\n');
        let ghost pv = char_views(ps@);
        let mut out: Vec<char> = Vec::new();
        let mut count: usize = 0;
        let mut i: usize = 0;
        while i < ps.len()
            invariant
                i <= ps@.len(),
                pv == char_views(ps@),
                pv == pieces(text@, '\n'),
                count == kept_lines(pv.take(i as int)).len(),
                count <= i,
                out@ == join_lines(kept_lines(pv.take(i as int))),
            decreases ps@.len() - i,
        {
            assert(pv.take(i + 1).drop_last() =~= pv.take(i as int));
            let t = trim_chars(&ps[i]);
            if t.len() > 0 {
                let ghost before = out@;
                if count > 0 {
                    out.push('\n');
                }
                let mut k: usize = 0;
                let ghost mid = out@;
                while k < t.len()
                    invariant
                        k <= t@.len(),
                        out@ == mid + t@.take(k as int),
                    decreases t@.len() - k,
                {
                    out.push(t[k]);
                    assert(out@ =~= mid + t@.take(k + 1));
                    k = k + 1;
                }
                assert(t@.take(k as int) =~= t@);
                proof {
                    let kl = kept_lines(pv.take(i as int));
                    if count == 0 {
                        assert(out@ =~= join_lines(kl.push(t@)));
                    } else {
                        assert(kl.push(t@).drop_last() =~= kl);
                        assert(out@ =~= join_lines(kl.push(t@)));
                    }
                }
                count = count + 1;
            }
            i = i + 1;
        }
        assert(pv.take(i as int) =~= pv);
        text_of(&out)
    }

    /// The trimmed pieces between full stops that have more than ten bytes.
    pub fn extract_sentences(&self, text: &str) -> (r: Vec<String>)
        ensures
            string_views(r@) == long_pieces(pieces(text@, '.'), 10),
    {
        let chars = chars_of(text);
        let ps = split_at_char(&chars, '.');
        keep_long(&ps, 10)
    }

    /// The trimmed pieces between blank-line separators that have more than
    /// twenty bytes.
    pub fn extract_paragraphs(&self, text: &str) -> (r: Vec<String>)
        ensures
            string_views(r@) == long_pieces(paragraph_pieces(text@), 20),
    {
        let chars = chars_of(text);
        let ps = split_paragraphs(&chars);
        keep_long(&ps, 20)
    }

    /// Runs of spaces collapsed to one space, runs of three or more
    /// newlines to two, and the ends trimmed.
    pub fn normalize_text(&self, text: &str) -> (r: String)
        ensures
            r@ == trimmed(squeezed(text@)),
    {
        let s = chars_of(text);
        let mut out: Vec<char> = Vec::new();
        let mut i: usize = 0;
        while i < s.len()
            invariant
                i <= s@.len(),
                out@ == squeezed(s@.take(i as int)),
            decreases s@.len() - i,
        {
            assert(s@.take(i + 1).drop_last() =~= s@.take(i as int));
            let c = s[i];
            let n = out.len();
            if c == ' ' && n > 0 && out[n - 1] == ' ' {
            } else if c == '\n' && n >= 2 && out[n - 1] == '\n' && out[n - 2] == '\n' {
            } else {
                out.push(c);
            }
            i = i + 1;
        }
        assert(s@.take(i as int) =~= s@);
        let t = trim_chars(&out);
        text_of(&t)
    }

    fn header_test(t: &Vec<char>) -> (r: bool)
        ensures
            r == is_header_line(t@),
    {
        if byte_len(t) >= 50 {
            return false;
        }
        let mut all = true;
        let mut k: usize = 0;
        while k < t.len()
            invariant
                k <= t@.len(),
                all == (forall|j: int|
                    0 <= j < k ==> uppercase_char(#[trigger] t@[j]) || is_ws(t@[j])
                        || numeric_char(t@[j])),
            decreases t@.len() - k,
        {
            let c = t[k];
            if !(is_uppercase(c) || is_whitespace(c) || is_numeric(c)) {
                all = false;
            }
            k = k + 1;
        }
        all || (t.len() > 0 && is_numeric(t[0]))
    }

    fn clause_test(t: &Vec<char>) -> (r: bool)
        ensures
            r == is_clause_line(t@),
    {
        if byte_len(t) <= 50 {
            return false;
        }
        let markers = vec!["szerződő fél", "bank", "hitelfelvevő", "clause", "agreement"];
        assert(views(markers@) =~= clause_markers());
        let st = text_of(t);
        let lower = lowered_chars(st.as_str());
        contains_any(&lower, &markers)
    }

    /// Short upper-case or numbered lines as headers, long lines with
    /// contractual wording as clauses, each with its line number.
    pub fn detect_document_structure(&self, text: &str) -> (r: DocumentStructure)
        ensures
            numbered_view(r.headers@) == marked_lines(lines_of(text@), lines_of(text@).len() as int, true),
            numbered_view(r.clauses@) == marked_lines(lines_of(text@), lines_of(text@).len() as int, false),
            r.paragraphs@.len() == 0,
    {
        let chars = chars_of(text);
        let ls = split_lines(&chars);
        let ghost lv = char_views(ls@);
        let mut st = DocumentStructure::new();
        let mut i: usize = 0;
        assert(numbered_view(st.headers@) =~= marked_lines(lv, 0, true));
        assert(numbered_view(st.clauses@) =~= marked_lines(lv, 0, false));
        while i < ls.len()
            invariant
                i <= ls@.len(),
                lv == char_views(ls@),
                lv == lines_of(text@),
                numbered_view(st.headers@) == marked_lines(lv, i as int, true),
                numbered_view(st.clauses@) == marked_lines(lv, i as int, false),
                st.paragraphs@.len() == 0,
            decreases ls@.len() - i,
        {
            let t = trim_chars(&ls[i]);
            assert(lv[i as int] == ls@[i as int]@);
            if Self::header_test(&t) {
                let ghost before = numbered_view(st.headers@);
                st.headers.push((i, text_of(&t)));
                assert(numbered_view(st.headers@) =~= before.push((i as int, t@)));
            }
            if Self::clause_test(&t) {
                let ghost before = numbered_view(st.clauses@);
                st.clauses.push((i, text_of(&t)));
                assert(numbered_view(st.clauses@) =~= before.push((i as int, t@)));
            }
            i = i + 1;
        }
        st
    }
}

} // verus!
