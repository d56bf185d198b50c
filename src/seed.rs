//! The pattern set and precedent corpus that ship with the library.

use vstd::prelude::*;
use vstd::string::*;
use crate::clause::{ClauseCategory, fresh_id};
use crate::case::{CaseDate, LegalCase, is_fx_case, fx_case_indicators};
use crate::text::{has_term, occurs_at};

verus! {

/// A named rule for recognising a clause category.
#[derive(Debug)]
pub struct ClausePattern {
    pub id: u128,
    pub name: String,
    pub pattern_type: String,
    pub pattern_text: String,
    pub language: String,
    pub clause_category: ClauseCategory,
    pub severity: String,
    pub description: String,
    pub legal_basis: Option<String>,
    pub is_active: bool,
}

impl ClausePattern {
    fn make(
        name: &str,
        pattern_type: &str,
        pattern_text: &str,
        clause_category: ClauseCategory,
        severity: &str,
        description: &str,
        legal_basis: &str,
    ) -> (r: Self)
        ensures
            r.name@ == name@,
            r.pattern_type@ == pattern_type@,
            r.pattern_text@ == pattern_text@,
            r.language@ == "multilingual"@,
            r.clause_category == clause_category,
            r.severity@ == severity@,
            r.legal_basis matches Some(b) && b@ == legal_basis@,
            pattern_text@.len() > 0 ==> r.pattern_text@.len() > 0,
            r.is_active,
    {
        ClausePattern {
            id: fresh_id(),
            name: String::from_str(name),
            pattern_type: String::from_str(pattern_type),
            pattern_text: String::from_str(pattern_text),
            language: String::from_str("multilingual"),
            clause_category,
            severity: String::from_str(severity),
            description: String::from_str(description),
            legal_basis: Some(String::from_str(legal_basis)),
            is_active: true,
        }
    }

    /// The active multilingual rule for foreign-currency risk clauses.
    pub fn new_fx_risk_pattern() -> (r: Self)
        ensures
            r.clause_category == ClauseCategory::FxRisk,
            r.pattern_type@ == "regex"@,
            r.severity@ == "critical"@,
            r.pattern_text@.len() > 0,
            r.is_active,
            r.legal_basis is Some,
    {
        proof {
            reveal_strlit(
                "(?i)(deviza|foreign\\s+currency|árfolyam|exchange\\s+rate|currency\\s+risk|CHF|švýcarský\\s+frank)",
            );
        }
        Self::make(
            "Foreign Currency Risk Clause",
            "regex",
            "(?i)(deviza|foreign\\s+currency|árfolyam|exchange\\s+rate|currency\\s+risk|CHF|švýcarský\\s+frank)",
            ClauseCategory::FxRisk,
            "critical",
            "Clauses relating to foreign currency exchange rate risk",
            "EU Directive 93/13/EEC on unfair terms",
        )
    }

    /// The active multilingual rule for information-disclosure clauses.
    pub fn new_transparency_pattern() -> (r: Self)
        ensures
            r.clause_category == ClauseCategory::Transparency,
            r.pattern_type@ == "keyword"@,
            r.severity@ == "warning"@,
            r.pattern_text@.len() > 0,
            r.is_active,
            r.legal_basis is Some,
    {
        proof {
            reveal_strlit("tájékoztatás|information|disclosure|warning|risk|figyelmeztetés");
        }
        Self::make(
            "Information Disclosure Requirements",
            "keyword",
            "tájékoztatás|information|disclosure|warning|risk|figyelmeztetés",
            ClauseCategory::Transparency,
            "warning",
            "Clauses related to information disclosure and transparency requirements",
            "CJEU Andriciuc v. Banca Românească",
        )
    }

    fn interest_rate_pattern() -> (r: Self)
        ensures
            r.clause_category == ClauseCategory::InterestRate,
            r.pattern_type@ == "regex"@,
            r.severity@ == "warning"@,
            r.pattern_text@.len() > 0,
            r.is_active,
            r.legal_basis is Some,
    {
        proof {
            reveal_strlit("(?i)(kamat|interest\\s+rate|úrok|změna\\s+úroku|rate\\s+change)");
        }
        Self::make(
            "Interest Rate Variation Clause",
            "regex",
            "(?i)(kamat|interest\\s+rate|úrok|změna\\s+úroku|rate\\s+change)",
            ClauseCategory::InterestRate,
            "warning",
            "Clauses allowing unilateral interest rate changes",
            "EU consumer protection directives",
        )
    }

    fn penalty_pattern() -> (r: Self)
        ensures
            r.clause_category == ClauseCategory::Penalty,
            r.pattern_type@ == "keyword"@,
            r.severity@ == "medium"@,
            r.pattern_text@.len() > 0,
            r.is_active,
            r.legal_basis is Some,
    {
        proof {
            reveal_strlit("penalty|fee|költség|díj|sankce|poplatek|fine");
        }
        Self::make(
            "Penalty and Fee Clauses",
            "keyword",
            "penalty|fee|költség|díj|sankce|poplatek|fine",
            ClauseCategory::Penalty,
            "medium",
            "Clauses imposing penalties or additional fees",
            "Unfair Terms Directive",
        )
    }

    fn unfair_term_pattern() -> (r: Self)
        ensures
            r.clause_category == ClauseCategory::UnfairTerm,
            r.pattern_type@ == "regex"@,
            r.severity@ == "critical"@,
            r.pattern_text@.len() > 0,
            r.is_active,
            r.legal_basis is Some,
    {
        proof {
            reveal_strlit(
                "(?i)(egyoldalú|unilateral|kizárólag.*bank.*dönt|solely.*bank.*discretion)",
            );
        }
        Self::make(
            "Unilateral Modification and Bank Discretion Clauses",
            "regex",
            "(?i)(egyoldalú|unilateral|kizárólag.*bank.*dönt|solely.*bank.*discretion)",
            ClauseCategory::UnfairTerm,
            "critical",
            "Clauses letting the bank change the contract alone or decide at its sole discretion",
            "EU Directive 93/13/EEC, Annex point 1(j)",
        )
    }

    /// The default rules, one per category: currency risk, transparency,
    /// interest rate, penalty and unfair term, each active, of a known type
    /// and severity, and citing its legal basis.
    pub fn get_default_patterns() -> (r: Vec<Self>)
        ensures
            r@.len() == 5,
            r@[0].clause_category == ClauseCategory::FxRisk,
            r@[1].clause_category == ClauseCategory::Transparency,
            r@[2].clause_category == ClauseCategory::InterestRate,
            r@[3].clause_category == ClauseCategory::Penalty,
            r@[4].clause_category == ClauseCategory::UnfairTerm,
            forall|k: int|
                0 <= k < r@.len() ==> {
                    let p = #[trigger] r@[k];
                    &&& p.is_active
                    &&& p.legal_basis is Some
                    &&& (p.pattern_type@ == "regex"@ || p.pattern_type@ == "keyword"@)
                    &&& (p.severity@ == "critical"@ || p.severity@ == "warning"@ || p.severity@
                        == "medium"@)
                    &&& p.pattern_text@.len() > 0
                },
    {
        let mut v: Vec<Self> = Vec::new();
        v.push(Self::new_fx_risk_pattern());
        v.push(Self::new_transparency_pattern());
        v.push(Self::interest_rate_pattern());
        v.push(Self::penalty_pattern());
        v.push(Self::unfair_term_pattern());
        v
    }
}

/// The data from which a precedent is created.
#[derive(Debug)]
pub struct CaseCreateRequest {
    pub case_number: String,
    pub case_name: String,
    pub country: String,
    pub date: CaseDate,
    pub currency: String,
    pub key_ruling: String,
    pub full_text: Option<String>,
    pub court: Option<String>,
    pub case_type: String,
}

impl LegalCase {
    /// A precedent with a fresh identifier and no significance score.
    pub fn new(request: CaseCreateRequest) -> (r: Self)
        ensures
            r.case_number == request.case_number,
            r.case_name == request.case_name,
            r.country == request.country,
            r.date == request.date,
            r.currency == request.currency,
            r.key_ruling == request.key_ruling,
            r.full_text == request.full_text,
            r.court == request.court,
            r.case_type == request.case_type,
            r.significance_score is None,
    {
        LegalCase {
            id: fresh_id(),
            case_number: request.case_number,
            case_name: request.case_name,
            country: request.country,
            date: request.date,
            currency: request.currency,
            key_ruling: request.key_ruling,
            full_text: request.full_text,
            court: request.court,
            case_type: request.case_type,
            significance_score: None,
        }
    }
}

/// Case numbers of the shipped corpus, in order; the matcher's per-case
/// adjustments name some of them.
pub open spec fn default_case_numbers() -> Seq<Seq<char>> {
    seq![
        "C-186/16"@,
        "C-520/21"@,
        "C-705/21"@,
        "C-609/19"@,
        "C-26/13"@,
        "C-51/17"@,
        "C-118/17"@,
        "C-630/23"@,
    ]
}

/// A ruling of the Court of Justice on a Swiss-franc loan in the currency
/// `local`.
fn cjeu_case(
    number: &str,
    name: &str,
    country: &str,
    date: CaseDate,
    local: &str,
    ruling: &str,
    full_text: &str,
) -> (r: LegalCase)
    ensures
        r.case_number@ == number@,
        r.date == date,
        r.currency@ == "CHF/"@ + local@,
        has_term(r.currency@, "CHF"@),
        is_fx_case(r),
{
    let mut currency = String::from_str("CHF/");
    currency.append(local);
    proof {
        reveal_strlit("CHF/");
        reveal_strlit("CHF");
        assert(currency@.subrange(0, 3) =~= "CHF"@);
        assert(occurs_at(currency@, "CHF"@, 0));
        assert(fx_case_indicators()[0] == "CHF"@);
    }
    LegalCase::new(
        CaseCreateRequest {
            case_number: String::from_str(number),
            case_name: String::from_str(name),
            country: String::from_str(country),
            date,
            currency,
            key_ruling: String::from_str(ruling),
            full_text: Some(String::from_str(full_text)),
            court: Some(String::from_str("CJEU")),
            case_type: String::from_str("CJEU"),
        },
    )
}

/// The shipped precedent corpus: eight rulings of the Court of Justice on
/// Swiss-franc loans, with valid dates.
pub fn get_default_precedent_cases() -> (r: Vec<LegalCase>)
    ensures
        r@.len() == default_case_numbers().len(),
        forall|k: int|
            0 <= k < r@.len() ==> {
                let c = #[trigger] r@[k];
                &&& c.case_number@ == default_case_numbers()[k]
                &&& c.date.valid()
                &&& has_term(c.currency@, "CHF"@)
                &&& is_fx_case(c)
            },
{
    let mut v: Vec<LegalCase> = Vec::new();
    v.push(cjeu_case(
        "C-186/16",
        "Andriciuc v Banca Românească SA",
        "Romania",
        CaseDate { year: 2017, month: 9, day: 20 },
        "RON",
        "Banks must provide adequate information about currency risk",
        "The Court held that when a bank grants a foreign-currency loan, it must provide the borrower with sufficient information to enable him to take a prudent and well-informed decision.",
    ));
    v.push(cjeu_case(
        "C-520/21",
        "Arkadiusz Szcześniak v Bank M. SA",
        "Poland",
        CaseDate { year: 2023, month: 6, day: 15 },
        "PLN",
        "Banks not entitled to interest on invalidated contracts; consumers can claim compensation",
        "When a mortgage contract is annulled for unfair terms, banks cannot demand any additional compensation beyond the return of the principal loan amount.",
    ));
    v.push(cjeu_case(
        "C-705/21",
        "MJ v AxFina Hungary Zrt.",
        "Hungary",
        CaseDate { year: 2023, month: 4, day: 27 },
        "HUF",
        "Full restitution required when contract invalid due to unfair currency terms",
        "If a contract includes a contractual term placing the exchange rate risk on the consumer which is unfair, and if without that term the contract can't survive, then the contract should be declared invalid in its entirety.",
    ));
    v.push(cjeu_case(
        "C-609/19",
        "BNP Paribas Personal Finance SA v VE",
        "France",
        CaseDate { year: 2021, month: 6, day: 10 },
        "EUR",
        "Currency terms placing disproportionate FX risk on consumers are unfair",
        "Currency terms that place disproportionate exchange rate risk on consumers without adequate safeguards are contrary to the requirement of good faith.",
    ));
    v.push(cjeu_case(
        "C-26/13",
        "Kásler v OTP Jelzálogbank Zrt",
        "Hungary",
        CaseDate { year: 2014, month: 4, day: 30 },
        "HUF",
        "Unfair currency clauses can be replaced by national law if contract cannot exist without them",
        "A clause requiring use of different exchange rates for loan disbursement vs. repayment could be unfair if not transparent. National courts may replace unfair terms with supplementary provisions of national law in exceptional circumstances.",
    ));
    v.push(cjeu_case(
        "C-51/17",
        "OTP Bank Nyrt v Teréz Ilyés and Emil Kiss",
        "Hungary",
        CaseDate { year: 2018, month: 9, day: 20 },
        "HUF",
        "Currency risk clauses subject to unfairness assessment; must be transparent",
        "Currency risk clauses are subject to unfairness assessment under Directive 93/13/EEC and must meet transparency requirements.",
    ));
    v.push(cjeu_case(
        "C-118/17",
        "Zsuzsanna Dunai v ERSTE Bank Hungary Zrt",
        "Hungary",
        CaseDate { year: 2019, month: 3, day: 14 },
        "HUF",
        "National legislation excluding retroactive cancellation is contrary to EU law",
        "National legislation that prevents courts from retroactively cancelling unfair contract terms is contrary to EU consumer protection law.",
    ));
    v.push(cjeu_case(
        "C-630/23",
        "ZH, KN v AxFina Hungary Zrt.",
        "Hungary",
        CaseDate { year: 2025, month: 4, day: 30 },
        "HUF",
        "Leasing agreements with unfair currency terms must be fully invalidated",
        "Recent CJEU ruling requiring full invalidation and restitution for foreign currency leasing agreements with unfair exchange rate risk allocation.",
    ));
    assert forall|k: int| 0 <= k < v@.len() implies {
        let c = #[trigger] v@[k];
        &&& c.case_number@ == default_case_numbers()[k]
        &&& c.date.valid()
        &&& has_term(c.currency@, "CHF"@)
        &&& is_fx_case(c)
    } by {}
    v
}

} // verus!
