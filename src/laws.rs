//! Properties that hold of every input, proved over the specifications that
//! the extractor and the matcher meet.

use vstd::prelude::*;
use crate::text::SCALE;
use crate::clause::{ClauseCategory, ClauseView, RiskLevel, risk_of, has_any};
use crate::text::has_term;
use crate::case::LegalCase;
use crate::pattern::regex_spans;
use crate::clause_extractor::{
    ExtractionView, extraction_of, category_clauses, category_patterns,
    pattern_set_of, pattern_clauses, span_clauses, clause_at, fx_confidence,
    fx_currency_terms, fx_risk_terms, fx_warning_terms, resolved_language, transparency_confidence,
    transparency_terms, count_present, confidence_sum,
};
use crate::precedent_matcher::{
    clause_ranking, scored_from, overall_ranking, rankings_of, aggregate_upto, aggregate_score,
    case_total, score_in, lemma_score_in_bounded,
};
use crate::ranking::{
    all_bounded, sort_desc, top_n, mean_score, score_sum, lemma_sort_desc_bounded, descending,
    sort_desc_is_descending, top_n_is_descending, ranked, positions_below, positions_increasing,
    sort_desc_is_ranked, top_n_is_ranked, count_at, scores_at, sort_desc_keeps_entries,
};

verus! {

/// Extraction is deterministic: two runs on the same document, text and
/// language state the same clauses, in the same order, with the same
/// scores, and the same mean confidence and language.
pub proof fn extraction_is_deterministic(
    doc: u128,
    text: Seq<char>,
    lang: Seq<char>,
    first: ExtractionView,
    second: ExtractionView,
)
    requires
        first == extraction_of(doc, text, lang),
        second == extraction_of(doc, text, lang),
    ensures
        first.clauses == second.clauses,
        first.confidence == second.confidence,
        first.language == second.language,
{
}

/// Risk never falls as confidence rises, for a fixed clause text.
pub proof fn risk_is_monotone(is_fx: bool, lower: int, higher: int)
    requires
        lower <= higher,
    ensures
        risk_of(is_fx, lower).rank() <= risk_of(is_fx, higher).rank(),
{
}

proof fn lemma_span_clauses_bounded(
    doc: u128,
    text: Seq<char>,
    lang: Seq<char>,
    cat: ClauseCategory,
    spans: Seq<(int, int)>,
)
    ensures
        forall|k: int|
            0 <= k < span_clauses(doc, text, lang, cat, spans).len() ==> 0 <= (
            #[trigger] span_clauses(doc, text, lang, cat, spans)[k]).confidence <= SCALE,
    decreases spans.len(),
{
    if spans.len() > 0 {
        lemma_span_clauses_bounded(doc, text, lang, cat, spans.drop_last());
        let prev = span_clauses(doc, text, lang, cat, spans.drop_last());
        let c = clause_at(doc, text, lang, cat, spans.last());
        let cur = span_clauses(doc, text, lang, cat, spans);
        assert forall|k: int| 0 <= k < cur.len() implies 0 <= (#[trigger] cur[k]).confidence
            <= SCALE by {
            if k < prev.len() {
                assert(cur[k] == prev[k]);
            }
        }
    }
}

proof fn lemma_pattern_clauses_bounded(
    doc: u128,
    text: Seq<char>,
    lang: Seq<char>,
    cat: ClauseCategory,
    pats: Seq<Seq<char>>,
)
    ensures
        forall|k: int|
            0 <= k < pattern_clauses(doc, text, lang, cat, pats).len() ==> 0 <= (
            #[trigger] pattern_clauses(doc, text, lang, cat, pats)[k]).confidence <= SCALE,
    decreases pats.len(),
{
    if pats.len() > 0 {
        lemma_pattern_clauses_bounded(doc, text, lang, cat, pats.drop_last());
        let prev = pattern_clauses(doc, text, lang, cat, pats.drop_last());
        let tail = match regex_spans(pats.last(), text) {
            None => Seq::empty(),
            Some(spans) => span_clauses(doc, text, lang, cat, spans),
        };
        match regex_spans(pats.last(), text) {
            None => {},
            Some(spans) => {
                lemma_span_clauses_bounded(doc, text, lang, cat, spans);
            },
        }
        let cur = pattern_clauses(doc, text, lang, cat, pats);
        assert(cur == prev + tail);
        assert forall|k: int| 0 <= k < cur.len() implies 0 <= (#[trigger] cur[k]).confidence
            <= SCALE by {
            if k < prev.len() {
                assert(cur[k] == prev[k]);
            } else {
                assert(cur[k] == tail[k - prev.len()]);
            }
        }
    }
}

proof fn lemma_concat_bounded(a: Seq<ClauseView>, b: Seq<ClauseView>)
    requires
        forall|k: int| 0 <= k < a.len() ==> 0 <= (#[trigger] a[k]).confidence <= SCALE,
        forall|k: int| 0 <= k < b.len() ==> 0 <= (#[trigger] b[k]).confidence <= SCALE,
    ensures
        forall|k: int| 0 <= k < (a + b).len() ==> 0 <= (#[trigger] (a + b)[k]).confidence <= SCALE,
{
    assert forall|k: int| 0 <= k < (a + b).len() implies 0 <= (#[trigger] (a + b)[k]).confidence
        <= SCALE by {
        if k < a.len() {
            assert((a + b)[k] == a[k]);
        } else {
            assert((a + b)[k] == b[k - a.len()]);
        }
    }
}

proof fn lemma_category_bounded(doc: u128, text: Seq<char>, lang: Seq<char>, cat: ClauseCategory)
    ensures
        forall|k: int|
            0 <= k < category_clauses(doc, text, lang, cat).len() ==> 0 <= (
            #[trigger] category_clauses(doc, text, lang, cat)[k]).confidence <= SCALE,
{
    lemma_pattern_clauses_bounded(
        doc,
        text,
        lang,
        cat,
        category_patterns(cat, pattern_set_of(lang)),
    );
}

/// Every extracted clause has a confidence between 0 and 1.
pub proof fn extracted_confidences_are_scores(doc: u128, text: Seq<char>, lang: Seq<char>)
    ensures
        forall|k: int|
            0 <= k < extraction_of(doc, text, lang).clauses.len() ==> 0 <= (
            #[trigger] extraction_of(doc, text, lang).clauses[k]).confidence <= SCALE,
{
    let l = resolved_language(text, lang);
    if text.len() > 0 {
        let c1 = category_clauses(doc, text, l, ClauseCategory::FxRisk);
        let c2 = category_clauses(doc, text, l, ClauseCategory::Transparency);
        let c3 = category_clauses(doc, text, l, ClauseCategory::InterestRate);
        let c4 = category_clauses(doc, text, l, ClauseCategory::Penalty);
        let c5 = category_clauses(doc, text, l, ClauseCategory::UnfairTerm);
        lemma_category_bounded(doc, text, l, ClauseCategory::FxRisk);
        lemma_category_bounded(doc, text, l, ClauseCategory::Transparency);
        lemma_category_bounded(doc, text, l, ClauseCategory::InterestRate);
        lemma_category_bounded(doc, text, l, ClauseCategory::Penalty);
        lemma_category_bounded(doc, text, l, ClauseCategory::UnfairTerm);
        lemma_concat_bounded(c1, c2);
        lemma_concat_bounded(c1 + c2, c3);
        lemma_concat_bounded(c1 + c2 + c3, c4);
        lemma_concat_bounded(c1 + c2 + c3 + c4, c5);
    }
}

proof fn lemma_scored_bounded(cat: ClauseCategory, text: Seq<char>, cases: Seq<LegalCase>)
    ensures
        all_bounded(scored_from(cat, text, cases), cases.len() as int),
    decreases cases.len(),
{
    if cases.len() > 0 {
        lemma_scored_bounded(cat, text, cases.drop_last());
        let prev = scored_from(cat, text, cases.drop_last());
        let cur = scored_from(cat, text, cases);
        assert forall|k: int| 0 <= k < cur.len() implies 0 <= (#[trigger] cur[k]).0 < cases.len()
            && 0 <= cur[k].1 <= SCALE by {
            if k < prev.len() {
                assert(cur[k] == prev[k]);
            }
        }
    }
}

/// Every precedent matched to a clause has a similarity between 0 and 1 and
/// stands in the corpus.
pub proof fn clause_match_scores_are_scores(cat: ClauseCategory, text: Seq<char>, cases: Seq<LegalCase>)
    ensures
        all_bounded(clause_ranking(cat, text, cases), cases.len() as int),
{
    lemma_scored_bounded(cat, text, cases);
    let s = sort_desc(scored_from(cat, text, cases));
    lemma_sort_desc_bounded(scored_from(cat, text, cases), cases.len() as int);
    let t = top_n(s, 5);
    assert forall|k: int| 0 <= k < t.len() implies 0 <= (#[trigger] t[k]).0 < cases.len() && 0
        <= t[k].1 <= SCALE by {
        assert(t[k] == s[k]);
    }
}

proof fn lemma_case_total_bounded(rk: Seq<Seq<(int, int)>>, idx: int, n: int)
    requires
        forall|i: int| 0 <= i < rk.len() ==> all_bounded(#[trigger] rk[i], n),
    ensures
        0 <= case_total(rk, idx) <= (SCALE as int) * rk.len(),
    decreases rk.len(),
{
    if rk.len() > 0 {
        let d = rk.drop_last();
        assert forall|i: int| 0 <= i < d.len() implies all_bounded(#[trigger] d[i], n) by {
            assert(d[i] == rk[i]);
        }
        lemma_case_total_bounded(d, idx, n);
        assert(rk.last() == rk[rk.len() - 1]);
        lemma_score_in_bounded(rk.last(), idx, n);
    }
}

proof fn lemma_aggregate_bounded(rk: Seq<Seq<(int, int)>>, upto: int, n: int)
    requires
        rk.len() > 0,
        0 <= upto <= n,
        forall|i: int| 0 <= i < rk.len() ==> all_bounded(#[trigger] rk[i], n),
    ensures
        all_bounded(aggregate_upto(rk, upto), n),
    decreases upto,
{
    if upto > 0 {
        lemma_aggregate_bounded(rk, upto - 1, n);
        lemma_case_total_bounded(rk, upto - 1, n);
        let t = case_total(rk, upto - 1);
        let m = rk.len() as int;
        assert(t / m <= 10000) by (nonlinear_arith)
            requires
                t <= 10000 * m,
                m > 0,
                t >= 0,
        ;
        let prev = aggregate_upto(rk, upto - 1);
        let cur = aggregate_upto(rk, upto);
        assert forall|k: int| 0 <= k < cur.len() implies 0 <= (#[trigger] cur[k]).0 < n && 0
            <= cur[k].1 <= SCALE by {
            if k < prev.len() {
                assert(cur[k] == prev[k]);
            }
        }
    }
}

proof fn lemma_score_sum_bounded(s: Seq<(int, int)>, n: int)
    requires
        all_bounded(s, n),
    ensures
        0 <= score_sum(s) <= (SCALE as int) * s.len(),
    decreases s.len(),
{
    if s.len() > 0 {
        let d = s.drop_last();
        assert forall|k: int| 0 <= k < d.len() implies 0 <= (#[trigger] d[k]).0 < n && 0 <= d[k].1
            <= SCALE by {
            assert(d[k] == s[k]);
        }
        lemma_score_sum_bounded(d, n);
        assert(s.last() == s[s.len() - 1]);
    }
}

/// Every case-level match has a similarity between 0 and 1 and stands in
/// the corpus, and so does their mean, the run's confidence.
pub proof fn overall_scores_are_scores(clauses: Seq<ClauseView>, cases: Seq<LegalCase>)
    ensures
        all_bounded(
            overall_ranking(rankings_of(clauses, cases), cases.len() as int),
            cases.len() as int,
        ),
        0 <= mean_score(overall_ranking(rankings_of(clauses, cases), cases.len() as int))
            <= SCALE,
{
    let rk = rankings_of(clauses, cases);
    let n = cases.len() as int;
    assert forall|i: int| 0 <= i < rk.len() implies all_bounded(#[trigger] rk[i], n) by {
        clause_match_scores_are_scores(clauses[i].category, clauses[i].text, cases);
    }
    let o = overall_ranking(rk, n);
    if rk.len() > 0 {
        lemma_aggregate_bounded(rk, n, n);
        lemma_sort_desc_bounded(aggregate_upto(rk, n), n);
    }
    lemma_score_sum_bounded(o, n);
    if o.len() > 0 {
        let t = score_sum(o);
        let m = o.len() as int;
        assert(t / m <= 10000) by (nonlinear_arith)
            requires
                t <= 10000 * m,
                m > 0,
                t >= 0,
        ;
    }
}

/// The aggregate score of a precedent matched by exactly one clause, with
/// score `s`, is `s` divided by the number of clauses.
pub proof fn single_match_is_normalized(rankings: Seq<Seq<(int, int)>>, idx: int, j: int, s: int)
    requires
        rankings.len() > 0,
        0 <= j < rankings.len(),
        score_in(rankings[j], idx) == s,
        forall|i: int| 0 <= i < rankings.len() && i != j ==> score_in(#[trigger] rankings[i], idx) == 0,
    ensures
        aggregate_score(rankings, idx) == s / (rankings.len() as int),
{
    lemma_single_total(rankings, idx, j, s);
}

proof fn lemma_single_total(rankings: Seq<Seq<(int, int)>>, idx: int, j: int, s: int)
    requires
        score_in(rankings[j], idx) == s || j >= rankings.len(),
        0 <= j,
        forall|i: int| 0 <= i < rankings.len() && i != j ==> score_in(#[trigger] rankings[i], idx) == 0,
    ensures
        case_total(rankings, idx) == if j < rankings.len() {
            s
        } else {
            0
        },
    decreases rankings.len(),
{
    if rankings.len() > 0 {
        let d = rankings.drop_last();
        assert forall|i: int| 0 <= i < d.len() && i != j implies score_in(#[trigger] d[i], idx) == 0 by {
            assert(d[i] == rankings[i]);
        }
        if j < d.len() {
            assert(d[j] == rankings[j]);
        }
        lemma_single_total(d, idx, j, s);
        assert(rankings.last() == rankings[rankings.len() - 1]);
    }
}

/// Extracting from an empty text gives no clause and confidence 0.
pub proof fn empty_text_gives_nothing(doc: u128, text: Seq<char>, lang: Seq<char>)
    requires
        text.len() == 0,
    ensures
        extraction_of(doc, text, lang).clauses.len() == 0,
        extraction_of(doc, text, lang).confidence == 0,
{
}

/// Matching no clause gives no case-level match and confidence 0.
pub proof fn no_clause_gives_nothing(cases: Seq<LegalCase>)
    ensures
        overall_ranking(rankings_of(Seq::empty(), cases), cases.len() as int).len() == 0,
        mean_score(overall_ranking(rankings_of(Seq::empty(), cases), cases.len() as int)) == 0,
{
}

/// Matching against an empty corpus gives no match for any clause and no
/// case-level match.
pub proof fn empty_corpus_gives_nothing(clauses: Seq<ClauseView>)
    ensures
        forall|k: int|
            0 <= k < clauses.len() ==> clause_ranking(
                (#[trigger] clauses[k]).category,
                clauses[k].text,
                Seq::empty(),
            ).len() == 0,
        overall_ranking(rankings_of(clauses, Seq::empty()), 0).len() == 0,
{
    assert forall|k: int| 0 <= k < clauses.len() implies clause_ranking(
        (#[trigger] clauses[k]).category,
        clauses[k].text,
        Seq::empty(),
    ).len() == 0 by {
        assert(scored_from(clauses[k].category, clauses[k].text, Seq::empty()).len() == 0);
        assert(sort_desc(Seq::<(int, int)>::empty()).len() == 0);
    }
    assert(aggregate_upto(rankings_of(clauses, Seq::empty()), 0).len() == 0);
    assert(sort_desc(Seq::<(int, int)>::empty()).len() == 0);
}

/// A context with a named currency and a risk word but no warning word
/// scores 0.5 + 0.3 + 0.2 - 0.1 = 0.9.
pub proof fn unwarned_currency_risk_scores_nine_tenths(lower: Seq<char>)
    requires
        has_any(lower, fx_currency_terms()),
        has_any(lower, fx_risk_terms()),
        !has_any(lower, fx_warning_terms()),
    ensures
        fx_confidence(lower) == 9000,
{
}

/// The patterns of a list match nothing in `text`.
pub open spec fn none_match(pats: Seq<Seq<char>>, text: Seq<char>) -> bool {
    forall|k: int|
        0 <= k < pats.len() ==> match #[trigger] regex_spans(pats[k], text) {
            None => true,
            Some(s) => s.len() == 0,
        }
}

proof fn lemma_none_match_empty(
    doc: u128,
    text: Seq<char>,
    lang: Seq<char>,
    cat: ClauseCategory,
    pats: Seq<Seq<char>>,
)
    requires
        none_match(pats, text),
    ensures
        pattern_clauses(doc, text, lang, cat, pats).len() == 0,
    decreases pats.len(),
{
    if pats.len() > 0 {
        let d = pats.drop_last();
        assert forall|k: int| 0 <= k < d.len() implies match #[trigger] regex_spans(d[k], text) {
            None => true,
            Some(s) => s.len() == 0,
        } by {
            assert(d[k] == pats[k]);
        }
        lemma_none_match_empty(doc, text, lang, cat, d);
        assert(pats.last() == pats[pats.len() - 1]);
    }
}

proof fn lemma_fixed_spans(
    doc: u128,
    text: Seq<char>,
    lang: Seq<char>,
    spans: Seq<(int, int)>,
)
    ensures
        forall|k: int|
            0 <= k < span_clauses(doc, text, lang, ClauseCategory::InterestRate, spans).len() ==> {
                let c = #[trigger] span_clauses(
                    doc,
                    text,
                    lang,
                    ClauseCategory::InterestRate,
                    spans,
                )[k];
                c.category == ClauseCategory::InterestRate && c.confidence == 7000
            },
    decreases spans.len(),
{
    if spans.len() > 0 {
        lemma_fixed_spans(doc, text, lang, spans.drop_last());
        let prev = span_clauses(doc, text, lang, ClauseCategory::InterestRate, spans.drop_last());
        let cur = span_clauses(doc, text, lang, ClauseCategory::InterestRate, spans);
        assert forall|k: int| 0 <= k < cur.len() implies (#[trigger] cur[k]).category
            == ClauseCategory::InterestRate && cur[k].confidence == 7000 by {
            if k < prev.len() {
                assert(cur[k] == prev[k]);
            }
        }
    }
}

proof fn lemma_fixed_patterns(
    doc: u128,
    text: Seq<char>,
    lang: Seq<char>,
    pats: Seq<Seq<char>>,
)
    ensures
        forall|k: int|
            0 <= k < pattern_clauses(doc, text, lang, ClauseCategory::InterestRate, pats).len() ==> {
                let c = #[trigger] pattern_clauses(
                    doc,
                    text,
                    lang,
                    ClauseCategory::InterestRate,
                    pats,
                )[k];
                c.category == ClauseCategory::InterestRate && c.confidence == 7000
            },
    decreases pats.len(),
{
    if pats.len() > 0 {
        lemma_fixed_patterns(doc, text, lang, pats.drop_last());
        let prev = pattern_clauses(doc, text, lang, ClauseCategory::InterestRate, pats.drop_last());
        let tail = match regex_spans(pats.last(), text) {
            None => Seq::empty(),
            Some(spans) => span_clauses(doc, text, lang, ClauseCategory::InterestRate, spans),
        };
        match regex_spans(pats.last(), text) {
            None => {},
            Some(spans) => {
                lemma_fixed_spans(doc, text, lang, spans);
            },
        }
        let cur = pattern_clauses(doc, text, lang, ClauseCategory::InterestRate, pats);
        assert(cur == prev + tail);
        assert forall|k: int| 0 <= k < cur.len() implies (#[trigger] cur[k]).category
            == ClauseCategory::InterestRate && cur[k].confidence == 7000 by {
            if k < prev.len() {
                assert(cur[k] == prev[k]);
            } else {
                assert(cur[k] == tail[k - prev.len()]);
            }
        }
    }
}

/// Some pattern of the list matches somewhere in `text`.
pub open spec fn some_match(pats: Seq<Seq<char>>, text: Seq<char>) -> bool {
    exists|k: int|
        0 <= k < pats.len() && match #[trigger] regex_spans(pats[k], text) {
            None => false,
            Some(s) => s.len() > 0,
        }
}

proof fn lemma_fixed_spans_len(doc: u128, text: Seq<char>, lang: Seq<char>, spans: Seq<(int, int)>)
    ensures
        span_clauses(doc, text, lang, ClauseCategory::InterestRate, spans).len() == spans.len(),
    decreases spans.len(),
{
    if spans.len() > 0 {
        lemma_fixed_spans_len(doc, text, lang, spans.drop_last());
    }
}

proof fn lemma_some_match_yields(doc: u128, text: Seq<char>, lang: Seq<char>, pats: Seq<Seq<char>>)
    requires
        some_match(pats, text),
    ensures
        pattern_clauses(doc, text, lang, ClauseCategory::InterestRate, pats).len() > 0,
    decreases pats.len(),
{
    let k = choose|k: int|
        0 <= k < pats.len() && match #[trigger] regex_spans(pats[k], text) {
            None => false,
            Some(s) => s.len() > 0,
        };
    let d = pats.drop_last();
    if k == pats.len() - 1 {
        assert(pats.last() == pats[k]);
        match regex_spans(pats.last(), text) {
            None => {},
            Some(sp) => {
                lemma_fixed_spans_len(doc, text, lang, sp);
            },
        }
    } else {
        assert(d[k] == pats[k]);
        lemma_some_match_yields(doc, text, lang, d);
    }
}

proof fn lemma_constant_sum(s: Seq<ClauseView>)
    requires
        forall|k: int| 0 <= k < s.len() ==> (#[trigger] s[k]).confidence == 7000,
    ensures
        confidence_sum(s) == 7000 * s.len(),
    decreases s.len(),
{
    if s.len() > 0 {
        let d = s.drop_last();
        assert forall|k: int| 0 <= k < d.len() implies (#[trigger] d[k]).confidence == 7000 by {
            assert(d[k] == s[k]);
        }
        lemma_constant_sum(d);
        assert(s.last() == s[s.len() - 1]);
    }
}

/// A text in which no currency-risk, transparency, penalty or unfair-term
/// pattern matches yields interest-rate clauses only, each with
/// confidence 0.7; when it is not empty and an interest-rate pattern
/// matches, at least one clause comes out and the run's confidence is 0.7.
pub proof fn interest_rate_text_is_isolated(doc: u128, text: Seq<char>, lang: Seq<char>)
    requires
        ({
            let set = pattern_set_of(resolved_language(text, lang));
            &&& none_match(category_patterns(ClauseCategory::FxRisk, set), text)
            &&& none_match(category_patterns(ClauseCategory::Transparency, set), text)
            &&& none_match(category_patterns(ClauseCategory::Penalty, set), text)
            &&& none_match(category_patterns(ClauseCategory::UnfairTerm, set), text)
        }),
    ensures
        forall|k: int|
            0 <= k < extraction_of(doc, text, lang).clauses.len() ==> {
                let c = #[trigger] extraction_of(doc, text, lang).clauses[k];
                c.category == ClauseCategory::InterestRate && c.confidence == 7000
            },
        text.len() > 0 && some_match(
            category_patterns(
                ClauseCategory::InterestRate,
                pattern_set_of(resolved_language(text, lang)),
            ),
            text,
        ) ==> extraction_of(doc, text, lang).clauses.len() >= 1 && extraction_of(
            doc,
            text,
            lang,
        ).confidence == 7000,
{
    let l = resolved_language(text, lang);
    let set = pattern_set_of(l);
    if text.len() > 0 {
        lemma_none_match_empty(doc, text, l, ClauseCategory::FxRisk, category_patterns(ClauseCategory::FxRisk, set));
        lemma_none_match_empty(doc, text, l, ClauseCategory::Transparency, category_patterns(ClauseCategory::Transparency, set));
        lemma_none_match_empty(doc, text, l, ClauseCategory::Penalty, category_patterns(ClauseCategory::Penalty, set));
        lemma_none_match_empty(doc, text, l, ClauseCategory::UnfairTerm, category_patterns(ClauseCategory::UnfairTerm, set));
        lemma_fixed_patterns(doc, text, l, category_patterns(ClauseCategory::InterestRate, set));
        let c1 = category_clauses(doc, text, l, ClauseCategory::FxRisk);
        let c2 = category_clauses(doc, text, l, ClauseCategory::Transparency);
        let c3 = category_clauses(doc, text, l, ClauseCategory::InterestRate);
        let c4 = category_clauses(doc, text, l, ClauseCategory::Penalty);
        let c5 = category_clauses(doc, text, l, ClauseCategory::UnfairTerm);
        assert(c1 + c2 + c3 + c4 + c5 =~= c3);
        if some_match(category_patterns(ClauseCategory::InterestRate, set), text) {
            lemma_some_match_yields(doc, text, l, category_patterns(ClauseCategory::InterestRate, set));
            lemma_constant_sum(c3);
            let n = c3.len() as int;
            assert((7000 * n) / n == 7000) by (nonlinear_arith)
                requires
                    n > 0,
            ;
        }
    }
}

/// The precedents matched to a clause come in descending order of score.
pub proof fn clause_matches_descend(cat: ClauseCategory, text: Seq<char>, cases: Seq<LegalCase>)
    ensures
        descending(clause_ranking(cat, text, cases)),
{
    sort_desc_is_descending(scored_from(cat, text, cases));
    top_n_is_descending(sort_desc(scored_from(cat, text, cases)), 5);
}

/// The case-level matches come in descending order of aggregate score.
pub proof fn case_matches_descend(clauses: Seq<ClauseView>, cases: Seq<LegalCase>)
    ensures
        descending(overall_ranking(rankings_of(clauses, cases), cases.len() as int)),
{
    let rk = rankings_of(clauses, cases);
    if rk.len() > 0 {
        sort_desc_is_descending(aggregate_upto(rk, cases.len() as int));
    }
}

proof fn lemma_scored_positions(cat: ClauseCategory, text: Seq<char>, cases: Seq<LegalCase>)
    ensures
        positions_increasing(scored_from(cat, text, cases)),
        positions_below(scored_from(cat, text, cases), cases.len() as int),
    decreases cases.len(),
{
    if cases.len() > 0 {
        lemma_scored_positions(cat, text, cases.drop_last());
        let prev = scored_from(cat, text, cases.drop_last());
        let cur = scored_from(cat, text, cases);
        assert forall|k: int| 0 <= k < cur.len() implies (#[trigger] cur[k]).0 < cases.len() by {
            if k < prev.len() {
                assert(cur[k] == prev[k]);
            }
        }
        assert forall|i: int, j: int| 0 <= i < j < cur.len() implies cur[i].0 < cur[j].0 by {
            assert(cur[i] == prev[i]);
            if j < prev.len() {
                assert(cur[j] == prev[j]);
            }
        }
    }
}

/// Precedents matched to a clause come by descending score; precedents
/// with equal scores come in corpus order.
pub proof fn clause_ties_keep_corpus_order(cat: ClauseCategory, text: Seq<char>, cases: Seq<LegalCase>)
    ensures
        ranked(clause_ranking(cat, text, cases)),
{
    lemma_scored_positions(cat, text, cases);
    sort_desc_is_ranked(scored_from(cat, text, cases));
    top_n_is_ranked(sort_desc(scored_from(cat, text, cases)), 5);
}

proof fn lemma_aggregate_entries(rk: Seq<Seq<(int, int)>>, upto: int, k: int)
    requires
        upto >= 0,
    ensures
        positions_increasing(aggregate_upto(rk, upto)),
        positions_below(aggregate_upto(rk, upto), upto),
        count_at(aggregate_upto(rk, upto), k) == if 0 <= k < upto && aggregate_score(rk, k) > 3000 {
            1int
        } else {
            0
        },
        scores_at(aggregate_upto(rk, upto), k, aggregate_score(rk, k)),
    decreases upto,
{
    if upto > 0 {
        lemma_aggregate_entries(rk, upto - 1, k);
        let prev = aggregate_upto(rk, upto - 1);
        let cur = aggregate_upto(rk, upto);
        if aggregate_score(rk, upto - 1) > 3000 {
            assert(cur.drop_last() =~= prev);
        }
        assert forall|m: int| 0 <= m < cur.len() implies (#[trigger] cur[m]).0 < upto by {
            if m < prev.len() {
                assert(cur[m] == prev[m]);
            }
        }
        assert forall|i: int, j: int| 0 <= i < j < cur.len() implies cur[i].0 < cur[j].0 by {
            assert(cur[i] == prev[i]);
            if j < prev.len() {
                assert(cur[j] == prev[j]);
            }
        }
        assert forall|m: int| 0 <= m < cur.len() && (#[trigger] cur[m]).0 == k implies cur[m].1
            == aggregate_score(rk, k) by {
            if m < prev.len() {
                assert(cur[m] == prev[m]);
            }
        }
    }
}

/// Case-level matches come by descending aggregate score; precedents with
/// equal scores come in corpus order.
pub proof fn case_ties_keep_corpus_order(clauses: Seq<ClauseView>, cases: Seq<LegalCase>)
    ensures
        ranked(overall_ranking(rankings_of(clauses, cases), cases.len() as int)),
{
    let rk = rankings_of(clauses, cases);
    if rk.len() > 0 {
        lemma_aggregate_entries(rk, cases.len() as int, 0);
        sort_desc_is_ranked(aggregate_upto(rk, cases.len() as int));
    }
}

/// A precedent that exactly one of `n` clauses matches, with score `s`,
/// appears in the case-level list once, with score `s / n`, when that
/// passes 0.3, and not at all otherwise.
pub proof fn single_match_in_case_list(
    clauses: Seq<ClauseView>,
    cases: Seq<LegalCase>,
    idx: int,
    j: int,
    s: int,
)
    requires
        0 <= idx < cases.len(),
        0 <= j < clauses.len(),
        score_in(rankings_of(clauses, cases)[j], idx) == s,
        forall|i: int|
            0 <= i < clauses.len() && i != j ==> score_in(
                #[trigger] rankings_of(clauses, cases)[i],
                idx,
            ) == 0,
    ensures
        ({
            let o = overall_ranking(rankings_of(clauses, cases), cases.len() as int);
            let v = s / (clauses.len() as int);
            &&& count_at(o, idx) == if v > 3000 {
                1int
            } else {
                0
            }
            &&& scores_at(o, idx, v)
        }),
{
    let rk = rankings_of(clauses, cases);
    let n = cases.len() as int;
    single_match_is_normalized(rk, idx, j, s);
    lemma_aggregate_entries(rk, n, idx);
    sort_desc_keeps_entries(aggregate_upto(rk, n), idx, aggregate_score(rk, idx));
}

/// A context that names the exchange rate ("árfolyam") and a risk word
/// ("kockázat") but no warning word scores 0.5 + 0.3 + 0.2 - 0.1 = 0.9, and a
/// currency-risk clause with that confidence is critical.
pub proof fn unwarned_exchange_rate_risk_is_critical(lower: Seq<char>)
    requires
        has_term(lower, "árfolyam"@),
        has_term(lower, "kockázat"@),
        !has_any(lower, fx_warning_terms()),
    ensures
        fx_confidence(lower) == 9000,
        risk_of(true, fx_confidence(lower)) == RiskLevel::Critical,
{
    assert(fx_currency_terms()[3] == "árfolyam"@);
    assert(fx_risk_terms()[0] == "kockázat"@);
}

proof fn lemma_count_present_nonnegative(hay: Seq<char>, terms: Seq<Seq<char>>)
    ensures
        count_present(hay, terms) >= 0,
    decreases terms.len(),
{
    if terms.len() > 0 {
        lemma_count_present_nonnegative(hay, terms.drop_last());
    }
}

/// A context saying that the consumer was not informed ("nem" with
/// "tájékoztat") of the risk ("kockázat") gets the negation bonus: its
/// transparency confidence is at least 0.4 + 0.1 + 0.3 = 0.8.
pub proof fn uninformed_consumer_gets_transparency_bonus(lower: Seq<char>)
    requires
        has_term(lower, "nem"@),
        has_term(lower, "tájékoztat"@),
        has_term(lower, "kockázat"@),
    ensures
        transparency_confidence(lower) >= 8000,
{
    let t = transparency_terms();
    assert(t.last() == "kockázat"@);
    lemma_count_present_nonnegative(lower, t.drop_last());
    assert(count_present(lower, t) >= 1);
}

} // verus!
