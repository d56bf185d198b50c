//! Clause categories, risk levels and the extracted-clause record.

use vstd::prelude::*;
use crate::text::{SCALE, lower_of, has_term, lowered_chars, contains_term};

verus! {

/// The five kinds of clause the extractor looks for.
#[derive(Clone, Copy, Debug, PartialEq, Eq, Structural)]
pub enum ClauseCategory {
    FxRisk,
    Transparency,
    InterestRate,
    Penalty,
    UnfairTerm,
}

impl ClauseCategory {
    /// The category's external name.
    pub open spec fn name(self) -> Seq<char> {
        match self {
            ClauseCategory::FxRisk => "fx_risk"@,
            ClauseCategory::Transparency => "transparency"@,
            ClauseCategory::InterestRate => "interest_rate"@,
            ClauseCategory::Penalty => "penalty"@,
            ClauseCategory::UnfairTerm => "unfair_term"@,
        }
    }

    pub fn as_str(&self) -> (r: &'static str)
        ensures
            r@ == self.name(),
    {
        match self {
            ClauseCategory::FxRisk => "fx_risk",
            ClauseCategory::Transparency => "transparency",
            ClauseCategory::InterestRate => "interest_rate",
            ClauseCategory::Penalty => "penalty",
            ClauseCategory::UnfairTerm => "unfair_term",
        }
    }
}

/// Four-tier severity of a clause.
#[derive(Clone, Copy, Debug, PartialEq, Eq, Structural)]
pub enum RiskLevel {
    Low,
    Medium,
    High,
    Critical,
}

impl RiskLevel {
    /// Order of severity: low < medium < high < critical.
    pub open spec fn rank(self) -> int {
        match self {
            RiskLevel::Low => 0,
            RiskLevel::Medium => 1,
            RiskLevel::High => 2,
            RiskLevel::Critical => 3,
        }
    }

    pub open spec fn name(self) -> Seq<char> {
        match self {
            RiskLevel::Low => "low"@,
            RiskLevel::Medium => "medium"@,
            RiskLevel::High => "high"@,
            RiskLevel::Critical => "critical"@,
        }
    }

    pub fn as_str(&self) -> (r: &'static str)
        ensures
            r@ == self.name(),
    {
        match self {
            RiskLevel::Low => "low",
            RiskLevel::Medium => "medium",
            RiskLevel::High => "high",
            RiskLevel::Critical => "critical",
        }
    }
}

/// The characters of each text in a list.
pub open spec fn views(s: Seq<&str>) -> Seq<Seq<char>> {
    s.map_values(|t: &str| t@)
}

/// Some term of `terms` occurs in `hay`.
pub open spec fn has_any(hay: Seq<char>, terms: Seq<Seq<char>>) -> bool {
    exists|k: int| 0 <= k < terms.len() && has_term(hay, #[trigger] terms[k])
}

/// Whether some term of `terms` occurs in `hay`.
pub fn contains_any(hay: &Vec<char>, terms: &Vec<&str>) -> (r: bool)
    ensures
        r == has_any(hay@, views(terms@)),
{
    let mut k: usize = 0;
    while k < terms.len()
        invariant
            k <= terms@.len(),
            forall|j: int| 0 <= j < k ==> !has_term(hay@, #[trigger] views(terms@)[j]),
        decreases terms@.len() - k,
    {
        if contains_term(hay, terms[k]) {
            assert(views(terms@)[k as int] == terms@[k as int]@);
            return true;
        }
        k = k + 1;
    }
    false
}

/// Lower-case words that mark a text as speaking of foreign currency.
pub open spec fn fx_indicator_terms() -> Seq<Seq<char>> {
    seq![
        "foreign currency"@,
        "deviza"@,
        "árfolyam"@,
        "exchange rate"@,
        "currency risk"@,
        "chf"@,
        "eur"@,
        "usd"@,
        "waluta"@,
        "kurs"@,
    ]
}

fn fx_indicator_list() -> (r: Vec<&'static str>)
    ensures
        views(r@) == fx_indicator_terms(),
{
    let r = vec![
        "foreign currency",
        "deviza",
        "árfolyam",
        "exchange rate",
        "currency risk",
        "chf",
        "eur",
        "usd",
        "waluta",
        "kurs",
    ];
    assert(views(r@) =~= fx_indicator_terms());
    r
}

/// The risk level that a clause with these properties carries.
pub open spec fn risk_of(is_fx: bool, confidence: int) -> RiskLevel {
    if is_fx && confidence > 8000 {
        RiskLevel::Critical
    } else if is_fx && confidence > 6000 {
        RiskLevel::High
    } else if confidence > 7000 {
        RiskLevel::Medium
    } else {
        RiskLevel::Low
    }
}

/// Risk level of a clause, given whether it speaks of foreign currency.
pub fn risk_level_for(is_fx: bool, confidence: u32) -> (r: RiskLevel)
    ensures
        r == risk_of(is_fx, confidence as int),
{
    if is_fx && confidence > 8000 {
        RiskLevel::Critical
    } else if is_fx && confidence > 6000 {
        RiskLevel::High
    } else if confidence > 7000 {
        RiskLevel::Medium
    } else {
        RiskLevel::Low
    }
}

/// A text speaks of foreign currency.
pub open spec fn is_fx_text(text: Seq<char>) -> bool {
    has_any(lower_of(text), fx_indicator_terms())
}

/// Whether a text mentions a foreign-currency indicator, in any letter case.
pub fn mentions_fx(text: &str) -> (r: bool)
    ensures
        r == is_fx_text(text@),
{
    let lower = lowered_chars(text);
    let terms = fx_indicator_list();
    contains_any(&lower, &terms)
}

/// Relies on `uuid::Uuid::new_v4`: a random identifier, of which nothing is
/// promised.
#[verifier::external_body]
pub(crate) fn fresh_id() -> (r: u128) {
    uuid::Uuid::new_v4().as_u128()
}

/// One matched occurrence of a clause in a document.
#[derive(Clone, Debug)]
pub struct ExtractedClause {
    pub id: u128,
    pub document_id: u128,
    pub clause_type: ClauseCategory,
    pub clause_text: String,
    pub original_language: String,
    pub english_translation: Option<String>,
    pub start_position: Option<usize>,
    pub end_position: Option<usize>,
    pub confidence_score: u32,
    pub risk_level: RiskLevel,
}

/// Everything a clause states apart from its random identifier.
pub struct ClauseView {
    pub document_id: u128,
    pub category: ClauseCategory,
    pub text: Seq<char>,
    pub language: Seq<char>,
    pub start: Option<usize>,
    pub end: Option<usize>,
    pub confidence: int,
    pub risk: RiskLevel,
}

/// The clause that the extractor records for a span of text.
pub open spec fn clause_record(
    document_id: u128,
    category: ClauseCategory,
    text: Seq<char>,
    language: Seq<char>,
    start: Option<usize>,
    end: Option<usize>,
    confidence: int,
) -> ClauseView {
    ClauseView {
        document_id,
        category,
        text,
        language,
        start,
        end,
        confidence,
        risk: risk_of(is_fx_text(text), confidence),
    }
}

impl View for ExtractedClause {
    type V = ClauseView;

    open spec fn view(&self) -> ClauseView {
        ClauseView {
            document_id: self.document_id,
            category: self.clause_type,
            text: self.clause_text@,
            language: self.original_language@,
            start: self.start_position,
            end: self.end_position,
            confidence: self.confidence_score as int,
            risk: self.risk_level,
        }
    }
}

impl ExtractedClause {
    /// The confidence is a score and the risk level is the one derived from
    /// the text and the confidence.
    pub open spec fn wf(&self) -> bool {
        &&& self.confidence_score <= SCALE
        &&& self.risk_level == risk_of(is_fx_text(self.clause_text@), self.confidence_score as int)
    }

    /// A clause without positions or translation, its risk level derived.
    pub fn new(
        document_id: u128,
        clause_type: ClauseCategory,
        clause_text: String,
        language: String,
        confidence: u32,
    ) -> (r: Self)
        requires
            confidence <= SCALE,
        ensures
            r@ == clause_record(
                document_id,
                clause_type,
                clause_text@,
                language@,
                None,
                None,
                confidence as int,
            ),
            r.english_translation is None,
            r.wf(),
    {
        let is_fx = mentions_fx(clause_text.as_str());
        let risk_level = risk_level_for(is_fx, confidence);
        ExtractedClause {
            id: fresh_id(),
            document_id,
            clause_type,
            clause_text,
            original_language: language,
            english_translation: None,
            start_position: None,
            end_position: None,
            confidence_score: confidence,
            risk_level,
        }
    }

    /// Whether the clause text mentions a foreign-currency indicator.
    pub fn is_fx_risk_clause(&self) -> (r: bool)
        ensures
            r == is_fx_text(self.clause_text@),
    {
        mentions_fx(self.clause_text.as_str())
    }

    /// Derives the risk level again from the text and the confidence.
    pub fn calculate_risk_level(&mut self)
        ensures
            final(self).risk_level == risk_of(
                is_fx_text(old(self).clause_text@),
                old(self).confidence_score as int,
            ),
            final(self).id == old(self).id,
            final(self).document_id == old(self).document_id,
            final(self).clause_type == old(self).clause_type,
            final(self).clause_text == old(self).clause_text,
            final(self).original_language == old(self).original_language,
            final(self).english_translation == old(self).english_translation,
            final(self).start_position == old(self).start_position,
            final(self).end_position == old(self).end_position,
            final(self).confidence_score == old(self).confidence_score,
    {
        let is_fx = self.is_fx_risk_clause();
        self.risk_level = risk_level_for(is_fx, self.confidence_score);
    }
}

} // verus!

verus! {

/// The records of a list of clauses.
pub open spec fn clause_views(s: Seq<ExtractedClause>) -> Seq<ClauseView> {
    s.map_values(|c: ExtractedClause| c@)
}

/// Every clause of a list is well formed.
pub open spec fn all_wf(s: Seq<ExtractedClause>) -> bool {
    forall|k: int| 0 <= k < s.len() ==> (#[trigger] s[k]).wf()
}

} // verus!
