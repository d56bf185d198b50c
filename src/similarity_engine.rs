//! Stateless similarity scores between texts, and the strength of precedents.

use vstd::prelude::*;
use vstd::string::*;
use crate::text::{
    string_views, percent, percent_text, SCALE, lower_of, has_term, lowered_chars, contains_term, same_chars, same_text, split_words,
    words, char_views,
};
use crate::clause::{ClauseCategory, views, has_any, contains_any};
use crate::pattern::{utf8_len, char_width};
use crate::clause_extractor::clamp_score;

verus! {

/// What `char::is_alphabetic` says of a character: Unicode's Alphabetic
/// property.
pub uninterp spec fn alphabetic_char(c: char) -> bool;

/// Relies on `char::is_alphabetic`, which depends on the character alone.
#[verifier::external_body]
fn is_alphabetic(c: char) -> (r: bool)
    ensures
        r == alphabetic_char(c),
{
    c.is_alphabetic()
}

/// The alphabetic characters of `w`, in order.
pub open spec fn letters_of(w: Seq<char>) -> Seq<char>
    decreases w.len(),
{
    if w.len() == 0 {
        Seq::empty()
    } else if alphabetic_char(w.last()) {
        letters_of(w.drop_last()).push(w.last())
    } else {
        letters_of(w.drop_last())
    }
}

/// Tokens of a list of words: words of more than two bytes, stripped to
/// their letters, when some letter is left.
pub open spec fn token_list(ws: Seq<Seq<char>>) -> Seq<Seq<char>>
    decreases ws.len(),
{
    if ws.len() == 0 {
        Seq::empty()
    } else {
        let prev = token_list(ws.drop_last());
        let w = ws.last();
        if utf8_len(w) > 2 && letters_of(w).len() > 0 {
            prev.push(letters_of(w))
        } else {
            prev
        }
    }
}

/// The tokens of a lower-cased text.
pub open spec fn tokens_of(lower: Seq<char>) -> Seq<Seq<char>> {
    token_list(words(lower))
}

/// The elements of `s` in order of first occurrence, each once.
pub open spec fn distinct(s: Seq<Seq<char>>) -> Seq<Seq<char>>
    decreases s.len(),
{
    if s.len() == 0 {
        Seq::empty()
    } else {
        let d = distinct(s.drop_last());
        if d.contains(s.last()) {
            d
        } else {
            d.push(s.last())
        }
    }
}

/// Number of elements of `d` that occur in `t`.
pub open spec fn count_shared(d: Seq<Seq<char>>, t: Seq<Seq<char>>) -> int
    decreases d.len(),
{
    if d.len() == 0 {
        0
    } else {
        count_shared(d.drop_last(), t) + if t.contains(d.last()) {
            1int
        } else {
            0
        }
    }
}

/// Jaccard similarity of the token sets of two lower-cased texts, 0 when
/// both are empty.
pub open spec fn jaccard(l1: Seq<char>, l2: Seq<char>) -> int {
    let t1 = tokens_of(l1);
    let t2 = tokens_of(l2);
    let u = distinct(t1 + t2);
    if u.len() == 0 {
        0
    } else {
        count_shared(distinct(t1), t2) * (SCALE as int) / (u.len() as int)
    }
}

pub open spec fn fx_keywords() -> Seq<Seq<char>> {
    seq![
        "foreign currency"@,
        "deviza"@,
        "árfolyam"@,
        "exchange rate"@,
        "currency risk"@,
        "chf"@,
        "swiss franc"@,
        "svájci frank"@,
        "waluta"@,
        "kurs wymiany"@,
        "měnové riziko"@,
    ]
}

pub open spec fn legal_keywords() -> Seq<Seq<char>> {
    seq![
        "unfair"@,
        "invalid"@,
        "void"@,
        "restitution"@,
        "compensation"@,
        "directive"@,
        "consumer protection"@,
        "méltánytalan"@,
        "érvénytelen"@,
        "megtérítés"@,
        "fogyasztóvédelem"@,
    ]
}

pub open spec fn transparency_keywords() -> Seq<Seq<char>> {
    seq![
        "information"@,
        "disclosure"@,
        "warning"@,
        "transparent"@,
        "tájékoztatás"@,
        "figyelmeztetés"@,
        "felvilágosítás"@,
        "átlátható"@,
        "informacja"@,
        "ostrzeżenie"@,
    ]
}

/// Number of the keywords that occur in `l1`, and in `l2` when `both`.
pub open spec fn keyword_hits(l1: Seq<char>, l2: Seq<char>, both: bool, k: Seq<Seq<char>>) -> int
    decreases k.len(),
{
    if k.len() == 0 {
        0
    } else {
        keyword_hits(l1, l2, both, k.drop_last()) + if has_term(l1, k.last()) && (!both
            || has_term(l2, k.last())) {
            1int
        } else {
            0
        }
    }
}

/// Most that shared keywords add to a text similarity.
pub const KEYWORD_BONUS_CAP: u32 = 5000;

/// Bonus for domain keywords that two lower-cased texts share: 0.1 per
/// currency keyword, 0.05 per legal keyword, 0.08 per transparency keyword,
/// at most 0.5.
pub open spec fn keyword_bonus(l1: Seq<char>, l2: Seq<char>) -> int {
    let b = 1000 * keyword_hits(l1, l2, true, fx_keywords()) + 500 * keyword_hits(
        l1,
        l2,
        true,
        legal_keywords(),
    ) + 800 * keyword_hits(l1, l2, true, transparency_keywords());
    if b > KEYWORD_BONUS_CAP {
        KEYWORD_BONUS_CAP as int
    } else {
        b
    }
}

/// Similarity of two lower-cased texts: token-set Jaccard plus the keyword
/// bonus, clamped.
pub open spec fn similarity_of_lower(l1: Seq<char>, l2: Seq<char>) -> int {
    clamp_score(jaccard(l1, l2) + keyword_bonus(l1, l2))
}

/// Similarity of two texts.
pub open spec fn text_similarity(a: Seq<char>, b: Seq<char>) -> int {
    similarity_of_lower(lower_of(a), lower_of(b))
}

/// Category-specific keyword density of a lower-cased ruling.
pub open spec fn semantic_of_lower(cat: ClauseCategory, ruling: Seq<char>) -> int {
    match cat {
        ClauseCategory::FxRisk => clamp_score(
            1500 * keyword_hits(ruling, ruling, false, fx_keywords()),
        ),
        ClauseCategory::Transparency => clamp_score(
            2000 * keyword_hits(ruling, ruling, false, transparency_keywords()),
        ),
        _ => clamp_score(1000 * keyword_hits(ruling, ruling, false, legal_keywords())),
    }
}

/// The year against which the age of a precedent is measured.
pub const REFERENCE_YEAR: i32 = 2025;

/// Strength of a precedent from its age, its jurisdiction and how often it is
/// cited.
pub open spec fn precedent_strength(year: int, jurisdiction: Seq<char>, citations: Option<i32>) -> int {
    let age = REFERENCE_YEAR - year;
    clamp_score(
        5000 + (if age <= 2 {
            3000int
        } else if age <= 5 {
            2000int
        } else if age <= 10 {
            1000int
        } else {
            0
        }) + (if jurisdiction == "CJEU"@ {
            4000int
        } else if jurisdiction == "Hungary"@ || jurisdiction == "Poland"@ || jurisdiction
            == "Romania"@ || jurisdiction == "Croatia"@ {
            2000int
        } else {
            0
        }) + match citations {
            Some(c) => if c > 100 {
                2000int
            } else if c > 50 {
                1000int
            } else if c > 10 {
                500int
            } else {
                0
            },
            None => 0,
        },
    )
}

pub open spec fn warning_terms() -> Seq<Seq<char>> {
    seq!["warning"@, "risk"@, "figyelmeztetés"@, "kockázat"@, "ostrzeżenie"@]
}

/// How critical a clause is, from its lower-cased text.
pub open spec fn criticality_of_lower(lower: Seq<char>, cat: ClauseCategory) -> int {
    let base = if cat == ClauseCategory::FxRisk {
        8000 + if has_any(lower, warning_terms()) {
            0
        } else {
            2000int
        }
    } else if cat == ClauseCategory::Transparency && has_term(lower, "nem"@) && has_term(
        lower,
        "tájékoztat"@,
    ) {
        9000
    } else {
        3000
    };
    clamp_score(
        base + (if has_term(lower, "egyoldalú"@) || has_term(lower, "unilateral"@) {
            3000int
        } else {
            0
        }) + (if has_term(lower, "bank dönt"@) || has_term(lower, "bank discretion"@) {
            2000int
        } else {
            0
        }),
    )
}

/// Whether `w` is one of the sequences of `list`.
fn holds_seq(list: &Vec<Vec<char>>, w: &Vec<char>) -> (r: bool)
    ensures
        r == char_views(list@).contains(w@),
{
    let mut k: usize = 0;
    while k < list.len()
        invariant
            k <= list@.len(),
            forall|j: int| 0 <= j < k ==> #[trigger] char_views(list@)[j] != w@,
        decreases list@.len() - k,
    {
        if same_chars(&list[k], w) {
            assert(char_views(list@)[k as int] == w@);
            return true;
        }
        k = k + 1;
    }
    false
}

fn letters(w: &Vec<char>) -> (r: Vec<char>)
    ensures
        r@ == letters_of(w@),
{
    let mut out: Vec<char> = Vec::new();
    let mut i: usize = 0;
    while i < w.len()
        invariant
            i <= w@.len(),
            out@ == letters_of(w@.take(i as int)),
        decreases w@.len() - i,
    {
        assert(w@.take(i + 1).drop_last() =~= w@.take(i as int));
        if is_alphabetic(w[i]) {
            out.push(w[i]);
        }
        i = i + 1;
    }
    assert(w@.take(i as int) =~= w@);
    out
}

/// Whether the UTF-8 encoding of `w` has more than two bytes.
fn longer_than_two_bytes(w: &Vec<char>) -> (r: bool)
    ensures
        r == (utf8_len(w@) > 2),
{
    let mut n: usize = 0;
    let mut i: usize = 0;
    while i < w.len() && n <= 2
        invariant
            i <= w@.len(),
            n == utf8_len(w@.take(i as int)),
            n <= 6,
        decreases w@.len() - i,
    {
        assert(w@.take(i + 1).drop_last() =~= w@.take(i as int));
        n = n + char_width(w[i]);
        i = i + 1;
    }
    proof {
        if n <= 2 {
            assert(w@.take(i as int) =~= w@);
        } else {
            lemma_utf8_len_prefix(w@, i as int);
        }
    }
    n > 2
}

proof fn lemma_utf8_len_prefix(s: Seq<char>, i: int)
    requires
        0 <= i <= s.len(),
    ensures
        utf8_len(s.take(i)) <= utf8_len(s),
    decreases s.len() - i,
{
    if i < s.len() {
        lemma_utf8_len_prefix(s, i + 1);
        assert(s.take(i + 1).drop_last() =~= s.take(i));
    } else {
        assert(s.take(i) =~= s);
    }
}

/// The tokens of a lower-cased text.
pub fn tokenize_lower(lower: &Vec<char>) -> (r: Vec<Vec<char>>)
    ensures
        char_views(r@) == tokens_of(lower@),
{
    let ws = split_words(lower);
    let ghost wv = char_views(ws@);
    let mut out: Vec<Vec<char>> = Vec::new();
    let mut i: usize = 0;
    while i < ws.len()
        invariant
            i <= ws@.len(),
            wv == char_views(ws@),
            wv == words(lower@),
            char_views(out@) == token_list(wv.take(i as int)),
        decreases ws@.len() - i,
    {
        assert(wv.take(i + 1).drop_last() =~= wv.take(i as int));
        if longer_than_two_bytes(&ws[i]) {
            let l = letters(&ws[i]);
            if l.len() > 0 {
                let ghost before = char_views(out@);
                out.push(l);
                assert(char_views(out@) =~= before.push(l@));
            }
        }
        i = i + 1;
    }
    assert(wv.take(i as int) =~= wv);
    out
}

/// Appends the tokens of `t` not yet in `d` to `d`.
fn add_distinct(d: &mut Vec<Vec<char>>, t: &Vec<Vec<char>>, ghost_prefix: Ghost<Seq<Seq<char>>>)
    requires
        char_views(old(d)@) == distinct(ghost_prefix@),
    ensures
        char_views(final(d)@) == distinct(ghost_prefix@ + char_views(t@)),
        final(d)@.len() >= old(d)@.len(),
{
    let ghost p = ghost_prefix@;
    let ghost tv = char_views(t@);
    let mut i: usize = 0;
    while i < t.len()
        invariant
            i <= t@.len(),
            tv == char_views(t@),
            char_views(d@) == distinct(p + tv.take(i as int)),
            d@.len() >= old(d)@.len(),
        decreases t@.len() - i,
    {
        assert((p + tv.take(i + 1)).drop_last() =~= p + tv.take(i as int));
        assert((p + tv.take(i + 1)).last() == tv[i as int]);
        if !holds_seq(d, &t[i]) {
            let ghost before = char_views(d@);
            d.push(t[i].clone());
            assert(char_views(d@) =~= before.push(tv[i as int]));
        }
        i = i + 1;
    }
    assert(tv.take(i as int) =~= tv);
}

proof fn lemma_distinct_len(s: Seq<Seq<char>>)
    ensures
        distinct(s).len() <= s.len(),
    decreases s.len(),
{
    if s.len() > 0 {
        lemma_distinct_len(s.drop_last());
    }
}

proof fn lemma_count_shared_len(d: Seq<Seq<char>>, t: Seq<Seq<char>>)
    ensures
        0 <= count_shared(d, t) <= d.len(),
    decreases d.len(),
{
    if d.len() > 0 {
        lemma_count_shared_len(d.drop_last(), t);
    }
}

/// Jaccard similarity of the token lists of two lower-cased texts.
fn jaccard_exec(t1: &Vec<Vec<char>>, t2: &Vec<Vec<char>>, l1: Ghost<Seq<char>>, l2: Ghost<Seq<char>>) -> (r: u32)
    requires
        char_views(t1@) == tokens_of(l1@),
        char_views(t2@) == tokens_of(l2@),
    ensures
        r == jaccard(l1@, l2@),
{
    let ghost v1 = char_views(t1@);
    let ghost v2 = char_views(t2@);
    let mut d1: Vec<Vec<char>> = Vec::new();
    assert(Seq::<Seq<char>>::empty() + v1 =~= v1);
    assert(char_views(d1@) =~= distinct(Seq::empty()));
    add_distinct(&mut d1, t1, Ghost(Seq::empty()));
    let mut u: Vec<Vec<char>> = Vec::new();
    assert(char_views(u@) =~= distinct(Seq::empty()));
    add_distinct(&mut u, t1, Ghost(Seq::empty()));
    let ghost first_len = u@.len();
    assert(first_len == d1@.len()) by {
        assert(char_views(u@).len() == u@.len());
        assert(char_views(d1@).len() == d1@.len());
    }
    add_distinct(&mut u, t2, Ghost(v1));
    if u.len() == 0 {
        return 0;
    }
    let ghost dv = char_views(d1@);
    let mut shared: u128 = 0;
    let mut i: usize = 0;
    while i < d1.len()
        invariant
            i <= d1@.len(),
            dv == char_views(d1@),
            v2 == char_views(t2@),
            shared == count_shared(dv.take(i as int), v2),
            shared <= i,
        decreases d1@.len() - i,
    {
        assert(dv.take(i + 1).drop_last() =~= dv.take(i as int));
        if holds_seq(t2, &d1[i]) {
            shared = shared + 1;
        }
        i = i + 1;
    }
    assert(dv.take(i as int) =~= dv);
    let total = u.len() as u128;
    proof {
        lemma_distinct_len(v1 + v2);
        lemma_count_shared_len(dv, v2);
        lemma_distinct_len(v1);
        let s = shared as int;
        let t = total as int;
        assert(s <= t);
        assert(s * 10000 <= t * 10000) by (nonlinear_arith)
            requires
                s <= t,
        ;
        assert(s * 10000 / t <= 10000) by (nonlinear_arith)
            requires
                t >= 1,
                s >= 0,
                s * 10000 <= t * 10000,
        ;
    }
    ((shared * 10000) / total) as u32
}

/// Counts the keywords of `k` that occur in `l1`, and in `l2` when `both`.
fn count_hits(l1: &Vec<char>, l2: &Vec<char>, both: bool, k: &Vec<&str>) -> (r: u32)
    requires
        k@.len() <= 64,
    ensures
        r == keyword_hits(l1@, l2@, both, views(k@)),
        r <= k@.len(),
{
    let ghost kv = views(k@);
    let mut n: u32 = 0;
    let mut i: usize = 0;
    while i < k.len()
        invariant
            i <= k@.len(),
            kv == views(k@),
            n == keyword_hits(l1@, l2@, both, kv.take(i as int)),
            n <= i,
            k@.len() <= 64,
        decreases k@.len() - i,
    {
        assert(kv.take(i + 1).drop_last() =~= kv.take(i as int));
        assert(kv[i as int] == k@[i as int]@);
        if contains_term(l1, k[i]) && (!both || contains_term(l2, k[i])) {
            n = n + 1;
        }
        i = i + 1;
    }
    assert(kv.take(i as int) =~= kv);
    n
}

/// Keyword lists and scoring primitives for comparing clauses and rulings.
pub struct SimilarityEngine {
    fx_keywords: Vec<&'static str>,
    legal_keywords: Vec<&'static str>,
    transparency_keywords: Vec<&'static str>,
}

impl SimilarityEngine {
    pub closed spec fn wf(&self) -> bool {
        &&& views(self.fx_keywords@) == fx_keywords()
        &&& views(self.legal_keywords@) == legal_keywords()
        &&& views(self.transparency_keywords@) == transparency_keywords()
        &&& self.fx_keywords@.len() == 11
        &&& self.legal_keywords@.len() == 11
        &&& self.transparency_keywords@.len() == 10
    }

    pub fn new() -> (r: Self)
        ensures
            r.wf(),
    {
        let fx_keywords_list = vec![
            "foreign currency",
            "deviza",
            "árfolyam",
            "exchange rate",
            "currency risk",
            "chf",
            "swiss franc",
            "svájci frank",
            "waluta",
            "kurs wymiany",
            "měnové riziko",
        ];
        let legal_keywords_list = vec![
            "unfair",
            "invalid",
            "void",
            "restitution",
            "compensation",
            "directive",
            "consumer protection",
            "méltánytalan",
            "érvénytelen",
            "megtérítés",
            "fogyasztóvédelem",
        ];
        let transparency_keywords_list = vec![
            "information",
            "disclosure",
            "warning",
            "transparent",
            "tájékoztatás",
            "figyelmeztetés",
            "felvilágosítás",
            "átlátható",
            "informacja",
            "ostrzeżenie",
        ];
        assert(views(fx_keywords_list@) =~= fx_keywords());
        assert(views(legal_keywords_list@) =~= legal_keywords());
        assert(views(transparency_keywords_list@) =~= transparency_keywords());
        SimilarityEngine {
            fx_keywords: fx_keywords_list,
            legal_keywords: legal_keywords_list,
            transparency_keywords: transparency_keywords_list,
        }
    }

    /// Bonus for the domain keywords that two lower-cased texts share.
    pub fn keyword_bonus_of_lower(&self, l1: &Vec<char>, l2: &Vec<char>) -> (r: u32)
        requires
            self.wf(),
        ensures
            r == keyword_bonus(l1@, l2@),
    {
        let f = count_hits(l1, l2, true, &self.fx_keywords);
        let g = count_hits(l1, l2, true, &self.legal_keywords);
        let t = count_hits(l1, l2, true, &self.transparency_keywords);
        let b = 1000 * f + 500 * g + 800 * t;
        if b > KEYWORD_BONUS_CAP {
            KEYWORD_BONUS_CAP
        } else {
            b
        }
    }

    /// Similarity of two lower-cased texts.
    pub fn similarity_of_lower(&self, l1: &Vec<char>, l2: &Vec<char>) -> (r: u32)
        requires
            self.wf(),
        ensures
            r == similarity_of_lower(l1@, l2@),
            r <= SCALE,
    {
        let t1 = tokenize_lower(l1);
        let t2 = tokenize_lower(l2);
        let j = jaccard_exec(&t1, &t2, Ghost(l1@), Ghost(l2@));
        let b = self.keyword_bonus_of_lower(l1, l2);
        let s = j as u64 + b as u64;
        if s > 10000 {
            SCALE
        } else {
            s as u32
        }
    }

    /// Token-set Jaccard similarity of two texts plus the bonus for shared
    /// domain keywords, clamped to the score range.
    pub fn calculate_text_similarity(&self, text1: &str, text2: &str) -> (r: u32)
        requires
            self.wf(),
        ensures
            r == text_similarity(text1@, text2@),
            r <= SCALE,
    {
        let l1 = lowered_chars(text1);
        let l2 = lowered_chars(text2);
        self.similarity_of_lower(&l1, &l2)
    }

    /// Keyword density of a lower-cased ruling for a clause category.
    pub fn semantic_of_lower(&self, cat: ClauseCategory, ruling: &Vec<char>) -> (r: u32)
        requires
            self.wf(),
        ensures
            r == semantic_of_lower(cat, ruling@),
    {
        let s: u32 = match cat {
            ClauseCategory::FxRisk => 1500 * count_hits(ruling, ruling, false, &self.fx_keywords),
            ClauseCategory::Transparency => 2000 * count_hits(
                ruling,
                ruling,
                false,
                &self.transparency_keywords,
            ),
            _ => 1000 * count_hits(ruling, ruling, false, &self.legal_keywords),
        };
        if s > 10000 {
            SCALE
        } else {
            s
        }
    }

    /// Keyword density of a ruling for a clause category, clamped.
    pub fn calculate_semantic_similarity(&self, clause_type: ClauseCategory, case_ruling: &str) -> (r: u32)
        requires
            self.wf(),
        ensures
            r == semantic_of_lower(clause_type, lower_of(case_ruling@)),
    {
        let l = lowered_chars(case_ruling);
        self.semantic_of_lower(clause_type, &l)
    }

    /// Strength of a precedent: 0.5, plus recency, jurisdiction and
    /// citation bonuses, clamped.
    pub fn calculate_precedent_strength(
        &self,
        case_year: i32,
        jurisdiction: &str,
        citation_count: Option<i32>,
    ) -> (r: u32)
        ensures
            r == precedent_strength(case_year as int, jurisdiction@, citation_count),
    {
        let age: i64 = REFERENCE_YEAR as i64 - case_year as i64;
        let mut s: u32 = 5000;
        if age <= 2 {
            s = s + 3000;
        } else if age <= 5 {
            s = s + 2000;
        } else if age <= 10 {
            s = s + 1000;
        }
        if same_text(jurisdiction, "CJEU") {
            s = s + 4000;
        } else if same_text(jurisdiction, "Hungary") || same_text(jurisdiction, "Poland")
            || same_text(jurisdiction, "Romania") || same_text(jurisdiction, "Croatia") {
            s = s + 2000;
        }
        match citation_count {
            Some(c) => {
                if c > 100 {
                    s = s + 2000;
                } else if c > 50 {
                    s = s + 1000;
                } else if c > 10 {
                    s = s + 500;
                }
            },
            None => {},
        }
        if s > 10000 {
            SCALE
        } else {
            s
        }
    }

    /// How critical a lower-cased clause text is.
    pub fn criticality_of_lower(&self, lower: &Vec<char>, cat: ClauseCategory) -> (r: u32)
        ensures
            r == criticality_of_lower(lower@, cat),
    {
        let warnings = vec!["warning", "risk", "figyelmeztetés", "kockázat", "ostrzeżenie"];
        assert(views(warnings@) =~= warning_terms());
        let mut c: u32 = if cat == ClauseCategory::FxRisk {
            if contains_any(lower, &warnings) {
                8000
            } else {
                10000
            }
        } else if cat == ClauseCategory::Transparency && contains_term(lower, "nem")
            && contains_term(lower, "tájékoztat") {
            9000
        } else {
            3000
        };
        if contains_term(lower, "egyoldalú") || contains_term(lower, "unilateral") {
            c = c + 3000;
        }
        if contains_term(lower, "bank dönt") || contains_term(lower, "bank discretion") {
            c = c + 2000;
        }
        if c > 10000 {
            SCALE
        } else {
            c
        }
    }

    /// How critical a clause is: a category-seeded base raised by missing
    /// warnings and by unilateral-modification or sole-discretion wording.
    pub fn calculate_clause_criticality(&self, clause_text: &str, clause_type: ClauseCategory) -> (r: u32)
        ensures
            r == criticality_of_lower(lower_of(clause_text@), clause_type),
    {
        let l = lowered_chars(clause_text);
        self.criticality_of_lower(&l, clause_type)
    }
}


/// Words for a similarity score.
pub open spec fn quality_of(score: int) -> Seq<char> {
    if score > 8000 {
        "very high"@
    } else if score > 6000 {
        "high"@
    } else if score > 4000 {
        "moderate"@
    } else if score > 2000 {
        "low"@
    } else {
        "very low"@
    }
}

/// Texts joined with ", " between two of them.
pub open spec fn comma_joined(ts: Seq<Seq<char>>) -> Seq<char>
    decreases ts.len(),
{
    if ts.len() == 0 {
        Seq::empty()
    } else if ts.len() == 1 {
        ts[0]
    } else {
        comma_joined(ts.drop_last()) + ", "@ + ts.last()
    }
}

/// A similarity score in words and as a percentage, with the shared terms
/// when there are any.
pub open spec fn similarity_explanation(score: int, shared: Seq<Seq<char>>) -> Seq<char> {
    let head = "Similarity: "@ + quality_of(score) + " ("@ + percent_text(score as nat) + "%)"@;
    if shared.len() == 0 {
        head
    } else {
        head + " - shared terms: "@ + comma_joined(shared)
    }
}

impl SimilarityEngine {
    fn quality(score: u32) -> (r: &'static str)
        ensures
            r@ == quality_of(score as int),
    {
        if score > 8000 {
            "very high"
        } else if score > 6000 {
            "high"
        } else if score > 4000 {
            "moderate"
        } else if score > 2000 {
            "low"
        } else {
            "very low"
        }
    }

    /// Explains a similarity score.
    pub fn generate_similarity_explanation(&self, score: u32, shared_terms: &Vec<String>) -> (r:
        String)
        ensures
            r@ == similarity_explanation(score as int, string_views(shared_terms@)),
    {
        let mut s = String::from_str("Similarity: ");
        s.append(Self::quality(score));
        s.append(" (");
        let p = percent(score);
        s.append(p.as_str());
        s.append("%)");
        let ghost head = s@;
        if shared_terms.len() == 0 {
            return s;
        }
        s.append(" - shared terms: ");
        let ghost tv = string_views(shared_terms@);
        let ghost mid = s@;
        let mut i: usize = 0;
        while i < shared_terms.len()
            invariant
                i <= shared_terms@.len(),
                tv == string_views(shared_terms@),
                s@ == mid + comma_joined(tv.take(i as int)),
            decreases shared_terms@.len() - i,
        {
            let ghost before = comma_joined(tv.take(i as int));
            if i > 0 {
                s.append(", ");
            }
            s.append(shared_terms[i].as_str());
            proof {
                assert(tv.take(i + 1).drop_last() =~= tv.take(i as int));
                assert(tv.take(i + 1).last() == shared_terms@[i as int]@);
                if i == 0 {
                    assert(tv.take(1).len() == 1);
                    assert(s@ =~= mid + comma_joined(tv.take(i + 1)));
                } else {
                    assert(s@ =~= mid + comma_joined(tv.take(i + 1)));
                }
            }
            i = i + 1;
        }
        assert(tv.take(i as int) =~= tv);
        s
    }
}

} // verus!
