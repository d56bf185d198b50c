use devizahitel_legal_research::case::{CaseDate, LegalCase};
use devizahitel_legal_research::clause::{ClauseCategory, ExtractedClause};
use devizahitel_legal_research::precedent_matcher::PrecedentMatcher;
use devizahitel_legal_research::similarity_engine::SimilarityEngine;

fn case(number: &str, name: &str, country: &str, year: i32, currency: &str, ruling: &str) -> LegalCase {
    LegalCase {
        id: 1,
        case_number: number.to_string(),
        case_name: name.to_string(),
        country: country.to_string(),
        date: CaseDate { year, month: 9, day: 20 },
        currency: currency.to_string(),
        key_ruling: ruling.to_string(),
        full_text: None,
        court: None,
        case_type: "National Court".to_string(),
        significance_score: None,
    }
}

fn clause(cat: ClauseCategory, text: &str) -> ExtractedClause {
    ExtractedClause::new(5, cat, text.to_string(), "hu".to_string(), 7000)
}

#[test]
fn no_clause_gives_empty_result() {
    let m = PrecedentMatcher::new();
    let corpus = vec![case("P-7", "Kovacs", "Hungary", 2021, "CHF/HUF", "Loans in foreign currency")];
    let r = m.match_precedents(&vec![], &corpus);
    assert!(r.clause_matches.is_empty());
    assert!(r.overall_case_matches.is_empty());
    assert_eq!(r.confidence_score, 0);
}

#[test]
fn empty_corpus_gives_no_match() {
    let m = PrecedentMatcher::new();
    let r = m.match_precedents(&vec![clause(ClauseCategory::FxRisk, "deviza")], &vec![]);
    assert_eq!(r.clause_matches.len(), 1);
    assert!(r.clause_matches[0].matched_cases.is_empty());
    assert_eq!(r.clause_matches[0].match_reasoning, "No relevant precedents found for this clause type.");
    assert!(r.overall_case_matches.is_empty());
    assert_eq!(r.confidence_score, 0);
}

#[test]
fn aggregate_is_divided_by_clause_count() {
    let m = PrecedentMatcher::new();
    let corpus = vec![case("P-7", "Kovacs", "Hungary", 2021, "CHF/HUF", "Loans in foreign currency")];
    let clauses = vec![clause(ClauseCategory::FxRisk, "deviza"), clause(ClauseCategory::InterestRate, "fee")];
    let r = m.match_precedents(&clauses, &corpus);
    assert_eq!(r.clause_matches.len(), 2);
    assert_eq!(r.clause_matches[0].clause_id, clauses[0].id);
    let first = &r.clause_matches[0].matched_cases;
    assert_eq!(first.len(), 1);
    assert_eq!(first[0].similarity_score, 9000);
    assert_eq!(first[0].matching_clauses, vec![ClauseCategory::FxRisk]);
    assert_eq!(first[0].relevance_explanation, "Relevant to fx_risk clause (90% similarity): Loans in foreign currency");
    assert_eq!(
        r.clause_matches[0].match_reasoning,
        "This foreign currency risk allocation clause is most similar to the precedent in Kovacs (similarity: 90.0%), which established that loans in foreign currency. 0 additional related cases were found."
    );
    assert!(r.clause_matches[1].matched_cases.is_empty());
    assert_eq!(r.overall_case_matches.len(), 1);
    let o = &r.overall_case_matches[0];
    assert_eq!(o.similarity_score, 4500);
    assert_eq!(o.case.case_number, "P-7");
    assert_eq!(o.matching_clauses, vec![ClauseCategory::FxRisk]);
    assert_eq!(
        o.relevance_explanation,
        "This Hungary case from 2021 is relevant to the fx_risk clause in your document. The court ruled: Loans in foreign currency"
    );
    assert_eq!(r.confidence_score, 4500);
}

#[test]
fn weak_aggregates_are_dropped() {
    let m = PrecedentMatcher::new();
    let corpus = vec![case("P-7", "Kovacs", "Hungary", 2021, "CHF/HUF", "Loans in foreign currency")];
    let clauses = vec![
        clause(ClauseCategory::FxRisk, "deviza"),
        clause(ClauseCategory::InterestRate, "fee"),
        clause(ClauseCategory::InterestRate, "fee"),
    ];
    let r = m.match_precedents(&clauses, &corpus);
    assert_eq!(r.clause_matches[0].matched_cases[0].similarity_score, 9000);
    assert!(r.overall_case_matches.is_empty());
    assert_eq!(r.confidence_score, 0);
}

#[test]
fn ties_keep_corpus_order() {
    let m = PrecedentMatcher::new();
    let corpus = vec![
        case("P-8", "Second", "Hungary", 2021, "CHF/HUF", "Loans in foreign currency"),
        case("P-7", "First", "Hungary", 2021, "CHF/HUF", "Loans in foreign currency"),
    ];
    let r = m.match_precedents(&vec![clause(ClauseCategory::FxRisk, "deviza")], &corpus);
    let ms = &r.clause_matches[0].matched_cases;
    assert_eq!(ms.len(), 2);
    assert_eq!(ms[0].case.case_number, "P-8");
    assert_eq!(ms[1].case.case_number, "P-7");
    assert_eq!(r.overall_case_matches[0].case.case_number, "P-8");
    assert_eq!(r.overall_case_matches[1].case.case_number, "P-7");
    assert_eq!(r.confidence_score, 9000);
}

#[test]
fn at_most_five_matches_per_clause() {
    let m = PrecedentMatcher::new();
    let mut corpus = Vec::new();
    for i in 0..7 {
        corpus.push(case(&format!("P-{}", i), "Same", "Hungary", 2021, "CHF", "Loans in foreign currency"));
    }
    corpus.push(case("C-705/21", "MJ v AxFina Hungary Zrt.", "Hungary", 2023, "CHF/HUF", "Full restitution required when contract invalid due to unfair currency terms"));
    let r = m.match_precedents(&vec![clause(ClauseCategory::FxRisk, "deviza")], &corpus);
    let ms = &r.clause_matches[0].matched_cases;
    assert_eq!(ms.len(), 5);
    assert_eq!(ms[0].case.case_number, "C-705/21");
    assert_eq!(ms[0].similarity_score, 10000);
    assert_eq!(ms[1].case.case_number, "P-0");
    assert!(r.clause_matches[0].match_reasoning.ends_with("4 additional related cases were found."));
    assert_eq!(r.overall_case_matches.len(), 5);
}

#[test]
fn clause_case_scores() {
    let m = PrecedentMatcher::new();
    let andriciuc = case("C-186/16", "Andriciuc v Banca Românească SA", "Romania", 2017, "CHF/RON", "Banks must provide adequate information about currency risk");
    assert_eq!(m.clause_case_similarity(ClauseCategory::FxRisk, "deviza", &andriciuc), 10000);
    assert_eq!(m.clause_case_similarity(ClauseCategory::Transparency, "x", &andriciuc), 10000);
    assert_eq!(m.clause_case_similarity(ClauseCategory::Penalty, "x", &andriciuc), 2000);
    assert_eq!(m.clause_case_similarity(ClauseCategory::UnfairTerm, "x", &andriciuc), 3000);
    let local = case("P-1", "Local", "Hungary", 2024, "HUF", "Interest changes were void");
    assert_eq!(m.clause_case_similarity(ClauseCategory::InterestRate, "x", &local), 9000);
    assert_eq!(m.clause_case_similarity(ClauseCategory::FxRisk, "x", &local), 2000);
}

#[test]
fn explanations_of_precedents() {
    let m = PrecedentMatcher::new();
    let andriciuc = case("C-186/16", "Andriciuc v Banca Românească SA", "Romania", 2017, "CHF/RON", "Banks must provide adequate information about currency risk");
    assert_eq!(m.format_citation(&andriciuc), "Case C-186/16, Andriciuc v Banca Românească SA, ECLI:EU:C:2017:09:20");
    assert_eq!(m.extract_key_principles(&andriciuc), vec!["Banks must provide adequate information about currency risks".to_string()]);
    assert!(m.generate_application_notes(&andriciuc).starts_with("Establishes duty to inform"));
    let local = case("P-1", "Kovacs", "Hungary", 2021, "HUF", "Nothing relevant here");
    assert_eq!(m.format_citation(&local), "Kovacs, Court (Hungary 2021)");
    assert_eq!(m.extract_key_principles(&local), vec!["Nothing relevant here".to_string()]);
    assert_eq!(m.generate_application_notes(&local), "Relevant precedent from Hungary addressing foreign currency mortgage issues.");
    let axfina = case("C-705/21", "MJ", "Hungary", 2023, "CHF/HUF", "Full restitution required when contract invalid due to unfair currency terms");
    assert_eq!(
        m.extract_key_principles(&axfina),
        vec![
            "Currency clauses placing disproportionate risk on consumers are unfair".to_string(),
            "Full restitution required when contracts are invalidated for unfair terms".to_string(),
            "Contracts with unfair terms can be declared invalid in their entirety".to_string(),
        ]
    );
    assert_eq!(axfina.get_jurisdiction(), "CJEU");
    assert_eq!(local.get_jurisdiction(), "Hungary");
    assert!(axfina.is_foreign_currency_case());
    assert!(!local.is_foreign_currency_case());
}

#[test]
fn applicable_precedents_follow_matches() {
    let m = PrecedentMatcher::new();
    let corpus = vec![case("P-7", "Kovacs", "Hungary", 2021, "CHF/HUF", "Loans in foreign currency")];
    let r = m.match_precedents(&vec![clause(ClauseCategory::FxRisk, "deviza")], &corpus);
    let ps = m.create_applicable_precedents(&r.overall_case_matches);
    assert_eq!(ps.len(), 1);
    assert_eq!(ps[0].case_number, "P-7");
    assert_eq!(ps[0].jurisdiction, "Hungary");
    assert_eq!(ps[0].relevance_score, 9000);
    assert_eq!(ps[0].citation_text, "Kovacs, Court (Hungary 2021)");
}

#[test]
fn text_similarity_scores() {
    let e = SimilarityEngine::new();
    assert_eq!(e.calculate_text_similarity("swiss franc loan", "Swiss Franc loan"), 10000);
    assert_eq!(e.calculate_text_similarity("apple banana", "cherry pie"), 0);
    assert_eq!(e.calculate_text_similarity("the red car", "the blue car"), 5000);
    assert_eq!(e.calculate_text_similarity("unfair term", "unfair rule"), 3833);
    assert_eq!(e.calculate_text_similarity("", ""), 0);
    assert_eq!(e.calculate_text_similarity("a b", "a b"), 0);
}

#[test]
fn semantic_similarity_scores() {
    let e = SimilarityEngine::new();
    assert_eq!(e.calculate_semantic_similarity(ClauseCategory::FxRisk, "CHF and deviza"), 3000);
    assert_eq!(e.calculate_semantic_similarity(ClauseCategory::Transparency, "Warning and information"), 4000);
    assert_eq!(e.calculate_semantic_similarity(ClauseCategory::Penalty, "unfair and void"), 2000);
}

#[test]
fn precedent_strength_tiers() {
    let e = SimilarityEngine::new();
    assert_eq!(e.calculate_precedent_strength(2024, "CJEU", Some(150)), 10000);
    assert_eq!(e.calculate_precedent_strength(2010, "Hungary", None), 7000);
    assert_eq!(e.calculate_precedent_strength(2018, "France", Some(20)), 6500);
    assert_eq!(e.calculate_precedent_strength(2014, "Poland", Some(60)), 8000);
}

#[test]
fn clause_criticality_scores() {
    let e = SimilarityEngine::new();
    assert_eq!(e.calculate_clause_criticality("The bank may make a unilateral change", ClauseCategory::FxRisk), 10000);
    assert_eq!(e.calculate_clause_criticality("nem tájékoztatta", ClauseCategory::Transparency), 9000);
    assert_eq!(e.calculate_clause_criticality("plain text", ClauseCategory::Penalty), 3000);
    assert_eq!(e.calculate_clause_criticality("bank discretion applies", ClauseCategory::Penalty), 5000);
    assert_eq!(e.calculate_clause_criticality("risk noted", ClauseCategory::FxRisk), 8000);
}

#[test]
fn a_score_of_exactly_one_fifth_is_kept() {
    let m = PrecedentMatcher::new();
    let national = case("N-1", "Nat", "Hungary", 2020, "HUF", "Ruling text here");
    assert_eq!(m.clause_case_similarity(ClauseCategory::UnfairTerm, "x", &national), 2000);
    let r = m.match_precedents(&vec![clause(ClauseCategory::UnfairTerm, "x")], &vec![national]);
    assert_eq!(r.clause_matches[0].matched_cases.len(), 1);
    assert_eq!(r.clause_matches[0].matched_cases[0].similarity_score, 2000);
    assert!(r.overall_case_matches.is_empty());
}
