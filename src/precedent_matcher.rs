//! Scoring clauses against a corpus of precedents and aggregating the
//! scores into clause-level and case-level reports.

use vstd::prelude::*;
use vstd::string::*;
use crate::text::{
    SCALE, lower_of, has_term, lowered_chars, contains_term, same_text, begins_with, decimal,
    decimal_text, fixed_width, fixed_digits, percent, percent_text, text_of,
};
use crate::clause::{ClauseCategory, ClauseView, ExtractedClause, clause_views};
use crate::case::{LegalCase, CaseMatch, is_fx_case, is_cjeu, jurisdiction_of};
use crate::clause_extractor::clamp_score;
use crate::similarity_engine::{SimilarityEngine, text_similarity};
use crate::ranking::{
    pairs_view, sort_desc, top_n, all_bounded, mean_score, sort_ranked, mean_ranked,
    lemma_sort_desc_bounded,
};

verus! {

/// Lowest score at which a precedent counts as matching a clause (inclusive).
pub const CLAUSE_MATCH_THRESHOLD: u32 = 2000;

/// Lowest aggregate score at which a precedent is reported (exclusive).
pub const CASE_MATCH_THRESHOLD: u32 = 3000;

/// Most precedents kept for one clause.
pub const MAX_MATCHES_PER_CLAUSE: usize = 5;

/// Extra relevance of precedents known to be on point for currency-risk
/// clauses, keyed by case number.
pub open spec fn case_override(number: Seq<char>) -> int {
    if number == "C-186/16"@ {
        3000
    } else if number == "C-705/21"@ || number == "C-630/23"@ {
        4000
    } else if number == "C-520/21"@ {
        3000
    } else {
        0
    }
}

fn override_for(number: &str) -> (r: u32)
    ensures
        r == case_override(number@),
{
    if same_text(number, "C-186/16") {
        3000
    } else if same_text(number, "C-705/21") || same_text(number, "C-630/23") {
        4000
    } else if same_text(number, "C-520/21") {
        3000
    } else {
        0
    }
}

/// How a precedent's subject bears on a clause category.
pub open spec fn category_bonus(cat: ClauseCategory, c: LegalCase) -> int {
    let ruling = lower_of(c.key_ruling@);
    match cat {
        ClauseCategory::FxRisk => (if is_fx_case(c) {
            8000int
        } else {
            0
        }) + case_override(c.case_number@),
        ClauseCategory::Transparency => if has_term(ruling, "information"@) || has_term(
            ruling,
            "disclosure"@,
        ) || c.case_number@ == "C-186/16"@ {
            9000
        } else {
            0
        },
        ClauseCategory::InterestRate => if has_term(ruling, "interest"@) {
            7000
        } else {
            0
        },
        ClauseCategory::Penalty => if has_term(ruling, "compensation"@) || has_term(
            ruling,
            "restitution"@,
        ) {
            6000
        } else {
            0
        },
        ClauseCategory::UnfairTerm => 1000,
    }
}

/// Bonus for rulings from 2020 on, and again from 2023 on.
pub open spec fn recency_bonus(year: int) -> int {
    (if year >= 2020 {
        1000int
    } else {
        0
    }) + (if year >= 2023 {
        1000int
    } else {
        0
    })
}

/// Score of a precedent against a clause of category `cat` and text `text`.
pub open spec fn clause_case_score(cat: ClauseCategory, text: Seq<char>, c: LegalCase) -> int {
    clamp_score(
        category_bonus(cat, c) + recency_bonus(c.date.year as int) + (if is_cjeu(c) {
            2000int
        } else {
            0
        }) + text_similarity(text, c.key_ruling@) * 3 / 10,
    )
}

/// The precedents of `cases` that score at least the clause threshold, as
/// (position, score) entries in corpus order.
pub open spec fn scored_from(cat: ClauseCategory, text: Seq<char>, cases: Seq<LegalCase>) -> Seq<
    (int, int),
>
    decreases cases.len(),
{
    if cases.len() == 0 {
        Seq::empty()
    } else {
        let prev = scored_from(cat, text, cases.drop_last());
        let s = clause_case_score(cat, text, cases.last());
        if s >= CLAUSE_MATCH_THRESHOLD {
            prev.push(((cases.len() - 1) as int, s))
        } else {
            prev
        }
    }
}

/// The precedents kept for a clause: the best five, by descending score,
/// ties in corpus order.
pub open spec fn clause_ranking(cat: ClauseCategory, text: Seq<char>, cases: Seq<LegalCase>) -> Seq<
    (int, int),
> {
    top_n(sort_desc(scored_from(cat, text, cases)), MAX_MATCHES_PER_CLAUSE as int)
}

/// Score of the precedent at `idx` in a clause's ranking, 0 when absent.
pub open spec fn score_in(l: Seq<(int, int)>, idx: int) -> int
    decreases l.len(),
{
    if l.len() == 0 {
        0
    } else if l.last().0 == idx {
        l.last().1
    } else {
        score_in(l.drop_last(), idx)
    }
}

/// Sum over all clauses of the score of the precedent at `idx`.
pub open spec fn case_total(rankings: Seq<Seq<(int, int)>>, idx: int) -> int
    decreases rankings.len(),
{
    if rankings.len() == 0 {
        0
    } else {
        case_total(rankings.drop_last(), idx) + score_in(rankings.last(), idx)
    }
}

/// Aggregate score of the precedent at `idx`: its total divided by the
/// number of clauses.
pub open spec fn aggregate_score(rankings: Seq<Seq<(int, int)>>, idx: int) -> int {
    case_total(rankings, idx) / (rankings.len() as int)
}

/// The precedents among the first `upto` whose aggregate score passes the
/// case threshold, in corpus order.
pub open spec fn aggregate_upto(rankings: Seq<Seq<(int, int)>>, upto: int) -> Seq<(int, int)>
    decreases upto,
{
    if upto <= 0 {
        Seq::empty()
    } else {
        let prev = aggregate_upto(rankings, upto - 1);
        let s = aggregate_score(rankings, upto - 1);
        if s > CASE_MATCH_THRESHOLD {
            prev.push((upto - 1, s))
        } else {
            prev
        }
    }
}

/// The case-level ranking: nothing for no clause; else the passing
/// precedents by descending aggregate score, ties in corpus order.
pub open spec fn overall_ranking(rankings: Seq<Seq<(int, int)>>, n_cases: int) -> Seq<(int, int)> {
    if rankings.len() == 0 {
        Seq::empty()
    } else {
        sort_desc(aggregate_upto(rankings, n_cases))
    }
}

/// The rankings of every clause of a list.
pub open spec fn rankings_of(clauses: Seq<ClauseView>, cases: Seq<LegalCase>) -> Seq<Seq<(int, int)>> {
    clauses.map_values(|c: ClauseView| clause_ranking(c.category, c.text, cases))
}

/// Some clause of category `cat` scores above the case threshold against `c`.
pub open spec fn category_hit(clauses: Seq<ClauseView>, c: LegalCase, cat: ClauseCategory) -> bool {
    exists|k: int|
        0 <= k < clauses.len() && (#[trigger] clauses[k]).category == cat && clause_case_score(
            cat,
            clauses[k].text,
            c,
        ) > CASE_MATCH_THRESHOLD
}

pub open spec fn when(b: bool, cat: ClauseCategory) -> Seq<ClauseCategory> {
    if b {
        seq![cat]
    } else {
        Seq::empty()
    }
}

/// The categories of the clauses that a precedent matches, by name, each once.
pub open spec fn matching_categories(clauses: Seq<ClauseView>, c: LegalCase) -> Seq<ClauseCategory> {
    when(category_hit(clauses, c, ClauseCategory::FxRisk), ClauseCategory::FxRisk) + when(
        category_hit(clauses, c, ClauseCategory::InterestRate),
        ClauseCategory::InterestRate,
    ) + when(category_hit(clauses, c, ClauseCategory::Penalty), ClauseCategory::Penalty) + when(
        category_hit(clauses, c, ClauseCategory::Transparency),
        ClauseCategory::Transparency,
    ) + when(category_hit(clauses, c, ClauseCategory::UnfairTerm), ClauseCategory::UnfairTerm)
}

/// Explanation of a precedent's relevance to one clause.
pub open spec fn case_relevance_text(cat: ClauseCategory, score: int, c: LegalCase) -> Seq<char> {
    "Relevant to "@ + cat.name() + " clause ("@ + decimal_text((score / 100) as nat)
        + "% similarity): "@ + c.key_ruling@
}

/// What a clause category is about, in words.
pub open spec fn category_description(cat: ClauseCategory) -> Seq<char> {
    match cat {
        ClauseCategory::FxRisk => "foreign currency risk allocation"@,
        ClauseCategory::Transparency => "information disclosure requirements"@,
        ClauseCategory::InterestRate => "interest rate modification terms"@,
        ClauseCategory::Penalty => "penalty and fee provisions"@,
        ClauseCategory::UnfairTerm => "contractual terms"@,
    }
}

/// Why a clause matched what it matched: the top precedent, its score and
/// how many others were found.
pub open spec fn reasoning_text(
    cat: ClauseCategory,
    ranking: Seq<(int, int)>,
    cases: Seq<LegalCase>,
) -> Seq<char> {
    if ranking.len() == 0 {
        "No relevant precedents found for this clause type."@
    } else {
        let top = cases[ranking[0].0];
        "This "@ + category_description(cat) + " clause is most similar to the precedent in "@
            + top.case_name@ + " (similarity: "@ + percent_text(ranking[0].1 as nat)
            + "%), which established that "@ + lower_of(top.key_ruling@) + ". "@ + decimal_text(
            (ranking.len() - 1) as nat,
        ) + " additional related cases were found."@
    }
}

/// The year of a ruling in four digits.
pub open spec fn year_text(year: int) -> Seq<char> {
    fixed_digits(
        (if year < 0 {
            0
        } else {
            year
        }) as nat,
        4,
    )
}

/// Explanation of a precedent's relevance to the whole clause list.
pub open spec fn overall_relevance_text(c: LegalCase, cats: Seq<ClauseCategory>) -> Seq<char> {
    let desc = if cats.len() == 1 {
        "the "@ + cats[0].name() + " clause"@
    } else {
        decimal_text(cats.len()) + " clause types"@
    };
    "This "@ + jurisdiction_of(c) + " case from "@ + year_text(c.date.year as int)
        + " is relevant to "@ + desc + " in your document. The court ruled: "@ + c.key_ruling@
}

/// `ms` lists the precedents of a clause ranking, with their explanations.
pub open spec fn lists_clause_matches(
    ms: Seq<CaseMatch>,
    ranking: Seq<(int, int)>,
    cat: ClauseCategory,
    cases: Seq<LegalCase>,
) -> bool {
    &&& ms.len() == ranking.len()
    &&& forall|k: int|
        0 <= k < ms.len() ==> {
            let m = #[trigger] ms[k];
            &&& 0 <= ranking[k].0 < cases.len()
            &&& m.case == cases[ranking[k].0]
            &&& m.similarity_score == ranking[k].1
            &&& m.matching_clauses@ == seq![cat]
            &&& m.relevance_explanation@ == case_relevance_text(
                cat,
                ranking[k].1,
                cases[ranking[k].0],
            )
        }
}

/// `ms` lists the precedents of the case-level ranking, with the categories
/// they match and their explanations.
pub open spec fn lists_case_matches(
    ms: Seq<CaseMatch>,
    ranking: Seq<(int, int)>,
    clauses: Seq<ClauseView>,
    cases: Seq<LegalCase>,
) -> bool {
    &&& ms.len() == ranking.len()
    &&& forall|k: int|
        0 <= k < ms.len() ==> {
            let m = #[trigger] ms[k];
            let c = cases[ranking[k].0];
            &&& 0 <= ranking[k].0 < cases.len()
            &&& m.case == c
            &&& m.similarity_score == ranking[k].1
            &&& m.matching_clauses@ == matching_categories(clauses, c)
            &&& m.relevance_explanation@ == overall_relevance_text(
                c,
                matching_categories(clauses, c),
            )
        }
}

/// The precedents matched to one clause.
#[derive(Debug)]
pub struct ClauseMatch {
    pub clause_id: u128,
    pub matched_cases: Vec<CaseMatch>,
    pub match_reasoning: String,
}

/// Clause-level and case-level matches of a clause list against a corpus,
/// and the mean case-level score.
#[derive(Debug)]
pub struct MatchingResult {
    pub clause_matches: Vec<ClauseMatch>,
    pub overall_case_matches: Vec<CaseMatch>,
    pub confidence_score: u32,
}

/// Scores extracted clauses against precedents.
pub struct PrecedentMatcher {
    similarity_engine: SimilarityEngine,
}

impl PrecedentMatcher {
    pub closed spec fn wf(&self) -> bool {
        self.similarity_engine.wf()
    }

    pub fn new() -> (r: Self)
        ensures
            r.wf(),
    {
        PrecedentMatcher { similarity_engine: SimilarityEngine::new() }
    }

    /// Score of a precedent against a clause of category `cat` with text `text`.
    pub fn clause_case_similarity(&self, cat: ClauseCategory, text: &str, c: &LegalCase) -> (r:
        u32)
        requires
            self.wf(),
        ensures
            r == clause_case_score(cat, text@, *c),
            r <= SCALE,
    {
        let mut s: u64 = 0;
        match cat {
            ClauseCategory::FxRisk => {
                if c.is_foreign_currency_case() {
                    s = s + 8000;
                }
                s = s + override_for(c.case_number.as_str()) as u64;
            },
            ClauseCategory::Transparency => {
                let l = lowered_chars(c.key_ruling.as_str());
                if contains_term(&l, "information") || contains_term(&l, "disclosure")
                    || same_text(c.case_number.as_str(), "C-186/16") {
                    s = s + 9000;
                }
            },
            ClauseCategory::InterestRate => {
                let l = lowered_chars(c.key_ruling.as_str());
                if contains_term(&l, "interest") {
                    s = s + 7000;
                }
            },
            ClauseCategory::Penalty => {
                let l = lowered_chars(c.key_ruling.as_str());
                if contains_term(&l, "compensation") || contains_term(&l, "restitution") {
                    s = s + 6000;
                }
            },
            ClauseCategory::UnfairTerm => {
                s = s + 1000;
            },
        }
        if c.date.year >= 2020 {
            s = s + 1000;
        }
        if c.date.year >= 2023 {
            s = s + 1000;
        }
        if begins_with(c.case_number.as_str(), "C-") {
            s = s + 2000;
        }
        let t = self.similarity_engine.calculate_text_similarity(text, c.key_ruling.as_str());
        s = s + (t as u64 * 3) / 10;
        if s > 10000 {
            SCALE
        } else {
            s as u32
        }
    }

    /// The precedents scoring at least the clause threshold, in corpus order.
    fn scored(&self, cat: ClauseCategory, text: &str, cases: &Vec<LegalCase>) -> (r: Vec<
        (usize, u32),
    >)
        requires
            self.wf(),
        ensures
            pairs_view(r@) == scored_from(cat, text@, cases@),
            all_bounded(pairs_view(r@), cases@.len() as int),
    {
        let mut out: Vec<(usize, u32)> = Vec::new();
        let mut i: usize = 0;
        while i < cases.len()
            invariant
                i <= cases@.len(),
                self.wf(),
                pairs_view(out@) == scored_from(cat, text@, cases@.take(i as int)),
                all_bounded(pairs_view(out@), i as int),
            decreases cases@.len() - i,
        {
            assert(cases@.take(i + 1).drop_last() =~= cases@.take(i as int));
            assert(cases@.take(i + 1).last() == cases@[i as int]);
            let s = self.clause_case_similarity(cat, text, &cases[i]);
            let ghost before = pairs_view(out@);
            if s >= CLAUSE_MATCH_THRESHOLD {
                out.push((i, s));
                assert(pairs_view(out@) =~= before.push((i as int, s as int)));
            }
            assert forall|k: int| 0 <= k < pairs_view(out@).len() implies 0 <= (
            #[trigger] pairs_view(out@)[k]).0 < i + 1 && 0 <= pairs_view(out@)[k].1
                <= SCALE by {
                if k < before.len() {
                    assert(pairs_view(out@)[k] == before[k]);
                }
            }
            i = i + 1;
        }
        assert(cases@.take(i as int) =~= cases@);
        out
    }

    /// The best precedents for a clause, at most five.
    pub fn rank_clause(&self, cat: ClauseCategory, text: &str, cases: &Vec<LegalCase>) -> (r: Vec<
        (usize, u32),
    >)
        requires
            self.wf(),
        ensures
            pairs_view(r@) == clause_ranking(cat, text@, cases@),
            all_bounded(pairs_view(r@), cases@.len() as int),
    {
        let s = self.scored(cat, text, cases);
        let mut r = sort_ranked(&s);
        proof {
            lemma_sort_desc_bounded(pairs_view(s@), cases@.len() as int);
        }
        let ghost full = pairs_view(r@);
        r.truncate(MAX_MATCHES_PER_CLAUSE);
        assert(pairs_view(r@) =~= top_n(full, MAX_MATCHES_PER_CLAUSE as int));
        assert forall|k: int| 0 <= k < pairs_view(r@).len() implies 0 <= (
        #[trigger] pairs_view(r@)[k]).0 < cases@.len() && 0 <= pairs_view(r@)[k].1
            <= SCALE by {
            assert(pairs_view(r@)[k] == full[k]);
        }
        r
    }

    /// Explanation of a precedent's relevance to one clause.
    fn case_relevance(cat: ClauseCategory, score: u32, c: &LegalCase) -> (r: String)
        ensures
            r@ == case_relevance_text(cat, score as int, *c),
    {
        let mut s = String::from_str("Relevant to ");
        s.append(cat.as_str());
        s.append(" clause (");
        let pct = decimal((score / 100) as u64);
        s.append(pct.as_str());
        s.append("% similarity): ");
        s.append(c.key_ruling.as_str());
        s
    }

    fn describe_category(cat: ClauseCategory) -> (r: &'static str)
        ensures
            r@ == category_description(cat),
    {
        match cat {
            ClauseCategory::FxRisk => "foreign currency risk allocation",
            ClauseCategory::Transparency => "information disclosure requirements",
            ClauseCategory::InterestRate => "interest rate modification terms",
            ClauseCategory::Penalty => "penalty and fee provisions",
            ClauseCategory::UnfairTerm => "contractual terms",
        }
    }

    /// Why a clause matched what it matched.
    fn match_reasoning(cat: ClauseCategory, ranking: &Vec<(usize, u32)>, cases: &Vec<LegalCase>) -> (r:
        String)
        requires
            all_bounded(pairs_view(ranking@), cases@.len() as int),
        ensures
            r@ == reasoning_text(cat, pairs_view(ranking@), cases@),
    {
        if ranking.len() == 0 {
            return String::from_str("No relevant precedents found for this clause type.");
        }
        let ghost pv = pairs_view(ranking@);
        assert(pv[0] == (ranking@[0].0 as int, ranking@[0].1 as int));
        let top = &cases[ranking[0].0];
        let mut s = String::from_str("This ");
        s.append(Self::describe_category(cat));
        s.append(" clause is most similar to the precedent in ");
        s.append(top.case_name.as_str());
        s.append(" (similarity: ");
        let p = percent(ranking[0].1);
        s.append(p.as_str());
        s.append("%), which established that ");
        let l = lowered_chars(top.key_ruling.as_str());
        let lt = text_of(&l);
        s.append(lt.as_str());
        s.append(". ");
        let others = decimal((ranking.len() - 1) as u64);
        s.append(others.as_str());
        s.append(" additional related cases were found.");
        s
    }

    /// The precedents of a clause ranking with their explanations.
    fn clause_case_matches(cat: ClauseCategory, ranking: &Vec<(usize, u32)>, cases: &Vec<LegalCase>) -> (r: Vec<CaseMatch>)
        requires
            all_bounded(pairs_view(ranking@), cases@.len() as int),
        ensures
            lists_clause_matches(r@, pairs_view(ranking@), cat, cases@),
    {
        let ghost pv = pairs_view(ranking@);
        let mut out: Vec<CaseMatch> = Vec::new();
        let mut k: usize = 0;
        while k < ranking.len()
            invariant
                k <= ranking@.len(),
                pv == pairs_view(ranking@),
                all_bounded(pv, cases@.len() as int),
                out@.len() == k,
                forall|j: int|
                    0 <= j < k ==> {
                        let m = #[trigger] out@[j];
                        &&& 0 <= pv[j].0 < cases@.len()
                        &&& m.case == cases@[pv[j].0]
                        &&& m.similarity_score == pv[j].1
                        &&& m.matching_clauses@ == seq![cat]
                        &&& m.relevance_explanation@ == case_relevance_text(
                            cat,
                            pv[j].1,
                            cases@[pv[j].0],
                        )
                    },
            decreases ranking@.len() - k,
        {
            let (idx, score) = ranking[k];
            assert(pv[k as int] == (idx as int, score as int));
            let c = &cases[idx];
            let mut cats: Vec<ClauseCategory> = Vec::new();
            cats.push(cat);
            assert(cats@ =~= seq![cat]);
            let m = CaseMatch {
                case: c.duplicate(),
                similarity_score: score,
                matching_clauses: cats,
                relevance_explanation: Self::case_relevance(cat, score, c),
            };
            out.push(m);
            k = k + 1;
        }
        out
    }
}


/// The rankings as integer entries.
pub open spec fn rankings_view(v: Seq<Vec<(usize, u32)>>) -> Seq<Seq<(int, int)>> {
    v.map_values(|r: Vec<(usize, u32)>| pairs_view(r@))
}

/// Every ranking names positions below `n` and carries scores.
pub open spec fn rankings_bounded(v: Seq<Seq<(int, int)>>, n: int) -> bool {
    forall|i: int| 0 <= i < v.len() ==> all_bounded(#[trigger] v[i], n)
}

pub proof fn lemma_score_in_bounded(l: Seq<(int, int)>, idx: int, n: int)
    requires
        all_bounded(l, n),
    ensures
        0 <= score_in(l, idx) <= SCALE,
    decreases l.len(),
{
    if l.len() > 0 {
        assert(l.last() == l[l.len() - 1]);
        let d = l.drop_last();
        assert forall|k: int| 0 <= k < d.len() implies 0 <= (#[trigger] d[k]).0 < n && 0 <= d[k].1
            <= SCALE by {
            assert(d[k] == l[k]);
        }
        lemma_score_in_bounded(d, idx, n);
    }
}

proof fn lemma_hit_step(cv: Seq<ClauseView>, c: LegalCase, cat: ClauseCategory, i: int)
    requires
        0 <= i < cv.len(),
    ensures
        category_hit(cv.take(i + 1), c, cat) == (category_hit(cv.take(i), c, cat) || (
        cv[i].category == cat && clause_case_score(cat, cv[i].text, c) > CASE_MATCH_THRESHOLD)),
{
    let a = cv.take(i);
    let b = cv.take(i + 1);
    if category_hit(b, c, cat) {
        let k = choose|k: int|
            0 <= k < b.len() && (#[trigger] b[k]).category == cat && clause_case_score(
                cat,
                b[k].text,
                c,
            ) > CASE_MATCH_THRESHOLD;
        if k < i {
            assert(a[k] == b[k]);
        } else {
            assert(b[k] == cv[i]);
        }
    }
    if category_hit(a, c, cat) {
        let k = choose|k: int|
            0 <= k < a.len() && (#[trigger] a[k]).category == cat && clause_case_score(
                cat,
                a[k].text,
                c,
            ) > CASE_MATCH_THRESHOLD;
        assert(b[k] == a[k]);
    }
    if cv[i].category == cat && clause_case_score(cat, cv[i].text, c) > CASE_MATCH_THRESHOLD {
        assert(b[i] == cv[i]);
    }
}

/// Score of the precedent at `idx` in a ranking.
fn score_in_exec(l: &Vec<(usize, u32)>, idx: usize, n: Ghost<int>) -> (r: u32)
    requires
        all_bounded(pairs_view(l@), n@),
    ensures
        r == score_in(pairs_view(l@), idx as int),
        r <= SCALE,
{
    let ghost pv = pairs_view(l@);
    proof {
        lemma_score_in_bounded(pv, idx as int, n@);
    }
    let mut j: usize = l.len();
    assert(pv.take(j as int) =~= pv);
    while j > 0
        invariant
            j <= l@.len(),
            pv == pairs_view(l@),
            score_in(pv, idx as int) == score_in(pv.take(j as int), idx as int),
            score_in(pv, idx as int) <= SCALE,
        decreases j,
    {
        assert(pv.take(j as int).drop_last() =~= pv.take(j - 1));
        assert(pv.take(j as int).last() == pv[j - 1]);
        assert(pv[j - 1] == (l@[j - 1].0 as int, l@[j - 1].1 as int));
        if l[j - 1].0 == idx {
            assert(score_in(pv, idx as int) == pv[j - 1].1);
            return l[j - 1].1;
        }
        j = j - 1;
    }
    0
}

/// Sum over all rankings of the score of the precedent at `idx`.
fn case_total_exec(rankings: &Vec<Vec<(usize, u32)>>, idx: usize, n: Ghost<int>) -> (r: u128)
    requires
        rankings_bounded(rankings_view(rankings@), n@),
    ensures
        r == case_total(rankings_view(rankings@), idx as int),
        r <= (SCALE as int) * rankings@.len(),
{
    let ghost rv = rankings_view(rankings@);
    let mut total: u128 = 0;
    let mut i: usize = 0;
    while i < rankings.len()
        invariant
            i <= rankings@.len(),
            rv == rankings_view(rankings@),
            rankings_bounded(rv, n@),
            total == case_total(rv.take(i as int), idx as int),
            total <= (SCALE as int) * i,
        decreases rankings@.len() - i,
    {
        assert(rv.take(i + 1).drop_last() =~= rv.take(i as int));
        assert(rv.take(i + 1).last() == rv[i as int]);
        assert(all_bounded(rv[i as int], n@));
        let s = score_in_exec(&rankings[i], idx, n);
        total = total + s as u128;
        i = i + 1;
    }
    assert(rv.take(i as int) =~= rv);
    total
}

/// The precedents whose aggregate score passes the case threshold, in
/// corpus order.
fn aggregate(rankings: &Vec<Vec<(usize, u32)>>, n_cases: usize) -> (r: Vec<(usize, u32)>)
    requires
        rankings@.len() > 0,
        rankings_bounded(rankings_view(rankings@), n_cases as int),
    ensures
        pairs_view(r@) == aggregate_upto(rankings_view(rankings@), n_cases as int),
        all_bounded(pairs_view(r@), n_cases as int),
{
    let ghost rv = rankings_view(rankings@);
    let n = rankings.len() as u128;
    let mut out: Vec<(usize, u32)> = Vec::new();
    let mut i: usize = 0;
    assert(pairs_view(out@) =~= aggregate_upto(rv, 0));
    while i < n_cases
        invariant
            i <= n_cases,
            rv == rankings_view(rankings@),
            n == rankings@.len(),
            n > 0,
            rankings_bounded(rv, n_cases as int),
            pairs_view(out@) == aggregate_upto(rv, i as int),
            all_bounded(pairs_view(out@), i as int),
        decreases n_cases - i,
    {
        let total = case_total_exec(rankings, i, Ghost(n_cases as int));
        proof {
            let t = total as int;
            let m = n as int;
            assert(t / m <= 10000) by (nonlinear_arith)
                requires
                    t <= 10000 * m,
                    m > 0,
                    t >= 0,
            ;
        }
        let s = (total / n) as u32;
        let ghost before = pairs_view(out@);
        if s > CASE_MATCH_THRESHOLD {
            out.push((i, s));
            assert(pairs_view(out@) =~= before.push((i as int, s as int)));
        }
        assert forall|k: int| 0 <= k < pairs_view(out@).len() implies 0 <= (
        #[trigger] pairs_view(out@)[k]).0 < i + 1 && 0 <= pairs_view(out@)[k].1 <= SCALE by {
            if k < before.len() {
                assert(pairs_view(out@)[k] == before[k]);
            }
        }
        i = i + 1;
    }
    out
}

impl PrecedentMatcher {
    /// The categories, by name and each once, of the clauses that score above
    /// the case threshold against a precedent.
    fn matching_categories_exec(&self, clauses: &Vec<ExtractedClause>, c: &LegalCase) -> (r: Vec<
        ClauseCategory,
    >)
        requires
            self.wf(),
        ensures
            r@ == matching_categories(clause_views(clauses@), *c),
    {
        let ghost cv = clause_views(clauses@);
        let mut fx = false;
        let mut ir = false;
        let mut pen = false;
        let mut tr = false;
        let mut un = false;
        let mut i: usize = 0;
        while i < clauses.len()
            invariant
                i <= clauses@.len(),
                self.wf(),
                cv == clause_views(clauses@),
                fx == category_hit(cv.take(i as int), *c, ClauseCategory::FxRisk),
                ir == category_hit(cv.take(i as int), *c, ClauseCategory::InterestRate),
                pen == category_hit(cv.take(i as int), *c, ClauseCategory::Penalty),
                tr == category_hit(cv.take(i as int), *c, ClauseCategory::Transparency),
                un == category_hit(cv.take(i as int), *c, ClauseCategory::UnfairTerm),
            decreases clauses@.len() - i,
        {
            proof {
                lemma_hit_step(cv, *c, ClauseCategory::FxRisk, i as int);
                lemma_hit_step(cv, *c, ClauseCategory::InterestRate, i as int);
                lemma_hit_step(cv, *c, ClauseCategory::Penalty, i as int);
                lemma_hit_step(cv, *c, ClauseCategory::Transparency, i as int);
                lemma_hit_step(cv, *c, ClauseCategory::UnfairTerm, i as int);
            }
            let cl = &clauses[i];
            let s = self.clause_case_similarity(cl.clause_type, cl.clause_text.as_str(), c);
            if s > CASE_MATCH_THRESHOLD {
                match cl.clause_type {
                    ClauseCategory::FxRisk => {
                        fx = true;
                    },
                    ClauseCategory::InterestRate => {
                        ir = true;
                    },
                    ClauseCategory::Penalty => {
                        pen = true;
                    },
                    ClauseCategory::Transparency => {
                        tr = true;
                    },
                    ClauseCategory::UnfairTerm => {
                        un = true;
                    },
                }
            }
            i = i + 1;
        }
        assert(cv.take(i as int) =~= cv);
        let mut r: Vec<ClauseCategory> = Vec::new();
        if fx {
            r.push(ClauseCategory::FxRisk);
        }
        let ghost r1 = r@;
        if ir {
            r.push(ClauseCategory::InterestRate);
        }
        let ghost r2 = r@;
        if pen {
            r.push(ClauseCategory::Penalty);
        }
        let ghost r3 = r@;
        if tr {
            r.push(ClauseCategory::Transparency);
        }
        let ghost r4 = r@;
        if un {
            r.push(ClauseCategory::UnfairTerm);
        }
        assert(r1 =~= when(fx, ClauseCategory::FxRisk));
        assert(r2 =~= r1 + when(ir, ClauseCategory::InterestRate));
        assert(r3 =~= r2 + when(pen, ClauseCategory::Penalty));
        assert(r4 =~= r3 + when(tr, ClauseCategory::Transparency));
        assert(r@ =~= r4 + when(un, ClauseCategory::UnfairTerm));
        r
    }

    /// Explanation of a precedent's relevance to the whole clause list.
    fn overall_relevance(c: &LegalCase, cats: &Vec<ClauseCategory>) -> (r: String)
        ensures
            r@ == overall_relevance_text(*c, cats@),
    {
        let mut s = String::from_str("This ");
        let j = c.get_jurisdiction();
        s.append(j.as_str());
        s.append(" case from ");
        let y: u64 = if c.date.year < 0 {
            0
        } else {
            c.date.year as u64
        };
        let yt = fixed_width(y, 4);
        s.append(yt.as_str());
        s.append(" is relevant to ");
        let ghost head = s@;
        let ghost dspec = if cats@.len() == 1 {
            "the "@ + cats@[0].name() + " clause"@
        } else {
            decimal_text(cats@.len()) + " clause types"@
        };
        let desc = if cats.len() == 1 {
            let mut d = String::from_str("the ");
            d.append(cats[0].as_str());
            d.append(" clause");
            d
        } else {
            let mut d = decimal(cats.len() as u64);
            d.append(" clause types");
            d
        };
        assert(desc@ =~= dspec);
        s.append(desc.as_str());
        s.append(" in your document. The court ruled: ");
        s.append(c.key_ruling.as_str());
        assert(s@ =~= head + dspec + " in your document. The court ruled: "@ + c.key_ruling@);
        assert(s@ =~= overall_relevance_text(*c, cats@));
        s
    }

    /// Matches every clause against the corpus, keeps the best five
    /// precedents scoring at least 0.2 per clause, and aggregates per precedent: the sum of its
    /// clause scores divided by the number of clauses, kept above 0.3 and
    /// ordered by descending score with ties in corpus order. The confidence
    /// is the mean of the kept aggregate scores.
    pub fn match_precedents(&self, clauses: &Vec<ExtractedClause>, cases: &Vec<LegalCase>) -> (r:
        MatchingResult)
        requires
            self.wf(),
        ensures
            r.clause_matches@.len() == clauses@.len(),
            forall|i: int|
                0 <= i < clauses@.len() ==> {
                    let m = #[trigger] r.clause_matches@[i];
                    let cl = clauses@[i];
                    let rk = clause_ranking(cl.clause_type, cl.clause_text@, cases@);
                    &&& m.clause_id == cl.id
                    &&& lists_clause_matches(m.matched_cases@, rk, cl.clause_type, cases@)
                    &&& m.match_reasoning@ == reasoning_text(cl.clause_type, rk, cases@)
                },
            lists_case_matches(
                r.overall_case_matches@,
                overall_ranking(
                    rankings_of(clause_views(clauses@), cases@),
                    cases@.len() as int,
                ),
                clause_views(clauses@),
                cases@,
            ),
            r.confidence_score == mean_score(
                overall_ranking(rankings_of(clause_views(clauses@), cases@), cases@.len() as int),
            ),
    {
        let ghost cv = clause_views(clauses@);
        let ghost n = cases@.len() as int;
        let mut rankings: Vec<Vec<(usize, u32)>> = Vec::new();
        let mut clause_matches: Vec<ClauseMatch> = Vec::new();
        let mut i: usize = 0;
        while i < clauses.len()
            invariant
                i <= clauses@.len(),
                self.wf(),
                n == cases@.len(),
                rankings@.len() == i,
                clause_matches@.len() == i,
                forall|j: int|
                    0 <= j < i ==> {
                        let rk = clause_ranking(
                            clauses@[j].clause_type,
                            clauses@[j].clause_text@,
                            cases@,
                        );
                        &&& pairs_view((#[trigger] rankings@[j])@) == rk
                        &&& all_bounded(pairs_view(rankings@[j]@), n)
                    },
                forall|j: int|
                    0 <= j < i ==> {
                        let m = #[trigger] clause_matches@[j];
                        let cl = clauses@[j];
                        let rk = clause_ranking(cl.clause_type, cl.clause_text@, cases@);
                        &&& m.clause_id == cl.id
                        &&& lists_clause_matches(m.matched_cases@, rk, cl.clause_type, cases@)
                        &&& m.match_reasoning@ == reasoning_text(cl.clause_type, rk, cases@)
                    },
            decreases clauses@.len() - i,
        {
            let cl = &clauses[i];
            let rk = self.rank_clause(cl.clause_type, cl.clause_text.as_str(), cases);
            let matched = Self::clause_case_matches(cl.clause_type, &rk, cases);
            let reasoning = Self::match_reasoning(cl.clause_type, &rk, cases);
            clause_matches.push(
                ClauseMatch { clause_id: cl.id, matched_cases: matched, match_reasoning: reasoning },
            );
            rankings.push(rk);
            i = i + 1;
        }
        let ghost rv = rankings_view(rankings@);
        assert(rv =~= rankings_of(cv, cases@));
        let ghost overall = overall_ranking(rv, n);
        if clauses.len() == 0 {
            let r = MatchingResult {
                clause_matches,
                overall_case_matches: Vec::new(),
                confidence_score: 0,
            };
            return r;
        }
        let agg = aggregate(&rankings, cases.len());
        let sorted = sort_ranked(&agg);
        proof {
            lemma_sort_desc_bounded(pairs_view(agg@), n);
        }
        let ghost sv = pairs_view(sorted@);
        let mut overall_matches: Vec<CaseMatch> = Vec::new();
        let mut k: usize = 0;
        while k < sorted.len()
            invariant
                k <= sorted@.len(),
                self.wf(),
                sv == pairs_view(sorted@),
                sv == overall,
                cv == clause_views(clauses@),
                all_bounded(sv, n),
                n == cases@.len(),
                overall_matches@.len() == k,
                forall|j: int|
                    0 <= j < k ==> {
                        let m = #[trigger] overall_matches@[j];
                        let c = cases@[sv[j].0];
                        &&& 0 <= sv[j].0 < cases@.len()
                        &&& m.case == c
                        &&& m.similarity_score == sv[j].1
                        &&& m.matching_clauses@ == matching_categories(cv, c)
                        &&& m.relevance_explanation@ == overall_relevance_text(
                            c,
                            matching_categories(cv, c),
                        )
                    },
            decreases sorted@.len() - k,
        {
            let (idx, score) = sorted[k];
            assert(sv[k as int] == (idx as int, score as int));
            let c = &cases[idx];
            let cats = self.matching_categories_exec(clauses, c);
            let explanation = Self::overall_relevance(c, &cats);
            overall_matches.push(
                CaseMatch {
                    case: c.duplicate(),
                    similarity_score: score,
                    matching_clauses: cats,
                    relevance_explanation: explanation,
                },
            );
            k = k + 1;
        }
        let confidence_score = mean_ranked(&sorted, Ghost(n));
        MatchingResult { clause_matches, overall_case_matches: overall_matches, confidence_score }
    }
}

} // verus!
