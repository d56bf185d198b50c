//! Domain phrases found in a text, sorted and without repeats.

use vstd::prelude::*;
use crate::text::{chars_of, char_views, text_of, string_views};
use crate::clause::views;
use crate::pattern::{regex_spans, spans_view, find_spans, char_index, char_index_of, lemma_char_index};
use crate::similarity_engine::SimilarityEngine;

verus! {

/// Patterns of currency and legal phrases.
pub open spec fn key_phrase_patterns() -> Seq<Seq<char>> {
    seq![
        "(?i)(deviza.*hitel|foreign\\s+currency\\s+loan)"@,
        "(?i)(árfolyam.*kockázat|exchange\\s+rate\\s+risk)"@,
        "(?i)(svájci\\s+frank|Swiss\\s+franc)"@,
        "(?i)(deviza.*szerződés|foreign\\s+currency\\s+contract)"@,
        "(?i)(tisztességtelen\\s+szerződési\\s+feltétel|unfair\\s+contract\\s+term)"@,
        "(?i)(fogyasztóvédelem|consumer\\s+protection)"@,
        "(?i)(tájékoztatási\\s+kötelezettség|duty\\s+to\\s+inform)"@,
        "(?i)(megtérítés|restitution)"@,
    ]
}

/// The matched texts of a list of byte spans.
pub open spec fn span_texts(text: Seq<char>, spans: Seq<(int, int)>) -> Seq<Seq<char>>
    decreases spans.len(),
{
    if spans.len() == 0 {
        Seq::empty()
    } else {
        span_texts(text, spans.drop_last()).push(
            text.subrange(char_index(text, spans.last().0), char_index(text, spans.last().1)),
        )
    }
}

/// The texts that the patterns match, pattern after pattern.
pub open spec fn matched_phrases(text: Seq<char>, pats: Seq<Seq<char>>) -> Seq<Seq<char>>
    decreases pats.len(),
{
    if pats.len() == 0 {
        Seq::empty()
    } else {
        matched_phrases(text, pats.drop_last()) + match regex_spans(pats.last(), text) {
            None => Seq::empty(),
            Some(spans) => span_texts(text, spans),
        }
    }
}

/// `a` comes before `b` in code-point order.
pub open spec fn lex_lt(a: Seq<char>, b: Seq<char>) -> bool
    decreases a.len(),
{
    if a.len() == 0 {
        b.len() > 0
    } else if b.len() == 0 {
        false
    } else if a[0] != b[0] {
        (a[0] as u32) < (b[0] as u32)
    } else {
        lex_lt(a.drop_first(), b.drop_first())
    }
}

/// `s` with `x` put before the entries that follow it, unless it is there.
pub open spec fn insert_unique(s: Seq<Seq<char>>, x: Seq<char>) -> Seq<Seq<char>>
    decreases s.len(),
{
    if s.len() == 0 {
        seq![x]
    } else if lex_lt(x, s.last()) {
        insert_unique(s.drop_last(), x).push(s.last())
    } else if s.last() == x {
        s
    } else {
        s.push(x)
    }
}

/// `s` sorted, each text once.
pub open spec fn sorted_unique(s: Seq<Seq<char>>) -> Seq<Seq<char>>
    decreases s.len(),
{
    if s.len() == 0 {
        Seq::empty()
    } else {
        insert_unique(sorted_unique(s.drop_last()), s.last())
    }
}

/// The key phrases of a text.
pub open spec fn key_phrases(text: Seq<char>) -> Seq<Seq<char>> {
    sorted_unique(matched_phrases(text, key_phrase_patterns()))
}

fn lex_less(a: &Vec<char>, b: &Vec<char>) -> (r: bool)
    ensures
        r == lex_lt(a@, b@),
{
    let mut i: usize = 0;
    assert(a@.skip(0) =~= a@);
    assert(b@.skip(0) =~= b@);
    while i < a.len() && i < b.len() && a[i] == b[i]
        invariant
            i <= a@.len(),
            i <= b@.len(),
            lex_lt(a@, b@) == lex_lt(a@.skip(i as int), b@.skip(i as int)),
        decreases a@.len() - i,
    {
        assert(a@.skip(i as int).drop_first() =~= a@.skip(i + 1));
        assert(b@.skip(i as int).drop_first() =~= b@.skip(i + 1));
        i = i + 1;
    }
    if i == a.len() {
        i < b.len()
    } else if i == b.len() {
        false
    } else {
        (a[i] as u32) < (b[i] as u32)
    }
}

fn same_seq(a: &Vec<char>, b: &Vec<char>) -> (r: bool)
    ensures
        r == (a@ == b@),
{
    crate::text::same_chars(a, b)
}

proof fn lemma_insert_unique_at(s: Seq<Seq<char>>, x: Seq<char>, p: int, q: int)
    requires
        0 <= p <= q <= s.len(),
        forall|k: int| p <= k < q ==> lex_lt(x, #[trigger] s[k]),
        p == 0 || !lex_lt(x, s[p - 1]),
    ensures
        insert_unique(s.take(q), x) == if p > 0 && s[p - 1] == x {
            s.take(q)
        } else {
            s.take(p).push(x) + s.subrange(p, q)
        },
    decreases q - p,
{
    if q == p {
        if p == 0 {
            assert(s.take(0) =~= Seq::<Seq<char>>::empty());
        } else {
            assert(s.take(p).last() == s[p - 1]);
        }
        assert(s.take(p).push(x) + s.subrange(p, q) =~= s.take(p).push(x));
    } else {
        lemma_insert_unique_at(s, x, p, q - 1);
        assert(s.take(q).drop_last() =~= s.take(q - 1));
        assert(s.take(q).last() == s[q - 1]);
        assert(s.take(q - 1).push(s[q - 1]) =~= s.take(q));
        assert((s.take(p).push(x) + s.subrange(p, q - 1)).push(s[q - 1]) =~= s.take(p).push(x)
            + s.subrange(p, q));
    }
}

fn insert_phrase(v: &mut Vec<Vec<char>>, x: Vec<char>)
    ensures
        char_views(final(v)@) == insert_unique(char_views(old(v)@), x@),
{
    let ghost s = char_views(v@);
    let mut p: usize = v.len();
    while p > 0 && lex_less(&x, &v[p - 1])
        invariant
            p <= v@.len(),
            s == char_views(v@),
            forall|k: int| p <= k < v@.len() ==> lex_lt(x@, #[trigger] v@[k]@),
        decreases p,
    {
        p = p - 1;
    }
    assert forall|k: int| p <= k < s.len() implies lex_lt(x@, #[trigger] s[k]) by {
        assert(s[k] == v@[k]@);
    }
    assert(p > 0 ==> s[p - 1] == v@[p - 1]@);
    proof {
        lemma_insert_unique_at(s, x@, p as int, s.len() as int);
        assert(s.take(s.len() as int) =~= s);
    }
    if p > 0 && same_seq(&v[p - 1], &x) {
        return;
    }
    let ghost xv = x@;
    v.insert(p, x);
    assert(char_views(v@) =~= s.take(p as int).push(xv) + s.subrange(p as int, s.len() as int));
}

impl SimilarityEngine {
    /// Currency and legal phrases that occur in `text`, as written there,
    /// sorted by code point, each once.
    pub fn extract_key_phrases(&self, text: &str) -> (r: Vec<String>)
        ensures
            string_views(r@) == key_phrases(text@),
    {
        let pats = vec![
            "(?i)(deviza.*hitel|foreign\\s+currency\\s+loan)",
            "(?i)(árfolyam.*kockázat|exchange\\s+rate\\s+risk)",
            "(?i)(svájci\\s+frank|Swiss\\s+franc)",
            "(?i)(deviza.*szerződés|foreign\\s+currency\\s+contract)",
            "(?i)(tisztességtelen\\s+szerződési\\s+feltétel|unfair\\s+contract\\s+term)",
            "(?i)(fogyasztóvédelem|consumer\\s+protection)",
            "(?i)(tájékoztatási\\s+kötelezettség|duty\\s+to\\s+inform)",
            "(?i)(megtérítés|restitution)",
        ];
        let ghost pv = views(pats@);
        assert(pv =~= key_phrase_patterns());
        let chars = chars_of(text);
        let mut found: Vec<Vec<char>> = Vec::new();
        let mut i: usize = 0;
        while i < pats.len()
            invariant
                i <= pats@.len(),
                pv == views(pats@),
                chars@ == text@,
                char_views(found@) == matched_phrases(text@, pv.take(i as int)),
            decreases pats@.len() - i,
        {
            assert(pv.take(i + 1).drop_last() =~= pv.take(i as int));
            assert(pv[i as int] == pats@[i as int]@);
            let ghost base = char_views(found@);
            match find_spans(pats[i], text) {
                None => {
                    assert(base + Seq::<Seq<char>>::empty() =~= base);
                },
                Some(spans) => {
                    let ghost sv = spans_view(spans@);
                    let mut j: usize = 0;
                    assert(base + span_texts(text@, sv.take(0)) =~= base);
                    while j < spans.len()
                        invariant
                            j <= spans@.len(),
                            chars@ == text@,
                            sv == spans_view(spans@),
                            forall|k: int| 0 <= k < spans@.len() ==> spans@[k].0 <= spans@[k].1,
                            char_views(found@) == base + span_texts(text@, sv.take(j as int)),
                        decreases spans@.len() - j,
                    {
                        assert(sv.take(j + 1).drop_last() =~= sv.take(j as int));
                        let (b0, b1) = spans[j];
                        proof {
                            lemma_char_index(text@, b0 as int, b1 as int);
                        }
                        let cs = char_index_of(&chars, b0);
                        let ce = char_index_of(&chars, b1);
                        let mut ph: Vec<char> = Vec::new();
                        let mut k: usize = cs;
                        while k < ce
                            invariant
                                cs <= k <= ce <= chars@.len(),
                                ph@ == chars@.subrange(cs as int, k as int),
                            decreases ce - k,
                        {
                            ph.push(chars[k]);
                            assert(ph@ =~= chars@.subrange(cs as int, k + 1));
                            k = k + 1;
                        }
                        let ghost before = char_views(found@);
                        found.push(ph);
                        assert(char_views(found@) =~= before.push(
                            text@.subrange(cs as int, ce as int),
                        ));
                        assert(char_views(found@) =~= base + span_texts(text@, sv.take(j + 1)));
                        j = j + 1;
                    }
                    assert(sv.take(j as int) =~= sv);
                },
            }
            i = i + 1;
        }
        assert(pv.take(i as int) =~= pv);
        let ghost fv = char_views(found@);
        let mut sorted: Vec<Vec<char>> = Vec::new();
        let mut k: usize = 0;
        assert(char_views(sorted@) =~= sorted_unique(fv.take(0)));
        while k < found.len()
            invariant
                k <= found@.len(),
                fv == char_views(found@),
                char_views(sorted@) == sorted_unique(fv.take(k as int)),
            decreases found@.len() - k,
        {
            assert(fv.take(k + 1).drop_last() =~= fv.take(k as int));
            assert(fv[k as int] == found@[k as int]@);
            insert_phrase(&mut sorted, found[k].clone());
            k = k + 1;
        }
        assert(fv.take(k as int) =~= fv);
        let mut out: Vec<String> = Vec::new();
        let mut m: usize = 0;
        while m < sorted.len()
            invariant
                m <= sorted@.len(),
                string_views(out@) == char_views(sorted@).take(m as int),
            decreases sorted@.len() - m,
        {
            let ghost before = string_views(out@);
            assert(char_views(sorted@)[m as int] == sorted@[m as int]@);
            let t = text_of(&sorted[m]);
            let ghost tv = t@;
            out.push(t);
            assert(string_views(out@) =~= before.push(tv));
            assert(char_views(sorted@).take(m + 1) =~= char_views(sorted@).take(m as int).push(
                char_views(sorted@)[m as int],
            ));
            m = m + 1;
        }
        assert(char_views(sorted@).take(m as int) =~= char_views(sorted@));
        out
    }
}

} // verus!
