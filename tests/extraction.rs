use devizahitel_legal_research::clause::{ClauseCategory, ExtractedClause, RiskLevel, risk_level_for};
use devizahitel_legal_research::clause_extractor::{
    calculate_fx_confidence, calculate_transparency_confidence, ClauseExtractor,
};
use devizahitel_legal_research::language_detector::{Language, LanguageDetector};

#[test]
fn swiss_franc_without_warning_scores_nine_tenths() {
    let extractor = ClauseExtractor::new();
    let text = "The loan is denominated in Swiss franc and the borrower bears the exchange rate risk.";
    let r = extractor.extract_clauses(7, text, "en");
    assert_eq!(r.language_detected, "en");
    let fx: Vec<&ExtractedClause> =
        r.clauses.iter().filter(|c| c.clause_type == ClauseCategory::FxRisk).collect();
    assert_eq!(fx.len(), 2);
    for c in &fx {
        assert_eq!(c.confidence_score, 9000);
        assert_eq!(c.risk_level, RiskLevel::Critical);
        assert_eq!(c.document_id, 7);
        assert_eq!(c.clause_text, text);
    }
    assert_eq!(r.confidence, 9000);
}

#[test]
fn hungarian_uninformed_consumer_sentence() {
    let extractor = ClauseExtractor::new();
    let text = "A fogyasztó nem volt tájékoztatva az árfolyamkockázatról.";
    let r = extractor.extract_clauses(1, text, "hu");
    assert_eq!(r.clauses.len(), 2);
    let fx = &r.clauses[0];
    assert_eq!(fx.clause_type, ClauseCategory::FxRisk);
    assert!(fx.confidence_score >= 8000);
    assert_eq!(fx.confidence_score, 9000);
    assert_eq!(fx.risk_level, RiskLevel::Critical);
    assert_eq!(fx.start_position, Some(37));
    assert_eq!(fx.end_position, Some(53));
    let tr = &r.clauses[1];
    assert_eq!(tr.clause_type, ClauseCategory::Transparency);
    // 0.4 base, +0.1 for "kockázat", +0.3 for "nem" with "tájékoztat".
    assert_eq!(tr.confidence_score, 8000);
    assert_eq!(tr.start_position, Some(12));
    assert_eq!(calculate_transparency_confidence(text), 8000);
    assert_eq!(r.confidence, 8500);
}

#[test]
fn empty_text_yields_no_clause() {
    let extractor = ClauseExtractor::new();
    let r = extractor.extract_clauses(1, "", "en");
    assert!(r.clauses.is_empty());
    assert_eq!(r.confidence, 0);
    let r = extractor.extract_clauses(1, "", "unknown");
    assert!(r.clauses.is_empty());
    assert_eq!(r.language_detected, "unknown");
}

#[test]
fn interest_rate_text_is_isolated() {
    let extractor = ClauseExtractor::new();
    let r = extractor.extract_clauses(3, "The agreement sets a variable interest for the whole term.", "en");
    assert_eq!(r.clauses.len(), 1);
    assert_eq!(r.clauses[0].clause_type, ClauseCategory::InterestRate);
    assert_eq!(r.clauses[0].confidence_score, 7000);
    assert_eq!(r.clauses[0].risk_level, RiskLevel::Low);
    assert_eq!(r.confidence, 7000);
}

#[test]
fn penalty_and_unfair_term_constants() {
    let extractor = ClauseExtractor::new();
    let text = "A late payment is charged. The bank has the right to a unilateral change.";
    let r = extractor.extract_clauses(3, text, "en");
    let kinds: Vec<ClauseCategory> = r.clauses.iter().map(|c| c.clause_type).collect();
    assert_eq!(kinds, vec![ClauseCategory::Penalty, ClauseCategory::UnfairTerm]);
    assert_eq!(r.clauses[0].confidence_score, 8000);
    assert_eq!(r.clauses[0].risk_level, RiskLevel::Medium);
    assert_eq!(r.clauses[1].confidence_score, 6000);
    assert_eq!(r.confidence, 7000);
}

#[test]
fn context_window_is_clamped_and_counted_in_characters() {
    let extractor = ClauseExtractor::new();
    let prefix = "é".repeat(150);
    let text = format!("{}CHF loan", prefix);
    let r = extractor.extract_clauses(1, &text, "en");
    assert_eq!(r.clauses.len(), 1);
    let c = &r.clauses[0];
    assert_eq!(c.start_position, Some(150));
    assert_eq!(c.end_position, Some(158));
    assert_eq!(c.clause_text.chars().count(), 108);
}

#[test]
fn unknown_language_is_detected_before_extraction() {
    let extractor = ClauseExtractor::new();
    let text = "the loan and the bank carry exchange rate risk";
    let r = extractor.extract_clauses(1, text, "unknown");
    assert_eq!(r.language_detected, "en");
    assert_eq!(r.clauses[0].original_language, "en");
}

#[test]
fn fx_confidence_formula() {
    assert_eq!(calculate_fx_confidence("CHF risk warning"), 10000);
    assert_eq!(calculate_fx_confidence("deviza"), 7000);
    assert_eq!(calculate_fx_confidence("kockázat"), 6000);
    assert_eq!(calculate_fx_confidence("Swiss Franc disclosure"), 9000);
    assert_eq!(calculate_transparency_confidence("nothing here"), 4000);
    assert_eq!(calculate_transparency_confidence("Information and Warning"), 6000);
}

#[test]
fn risk_level_is_monotone_in_confidence() {
    let mut last = 0;
    for conf in (0..=10000).step_by(250) {
        let rank = match risk_level_for(true, conf) {
            RiskLevel::Low => 0,
            RiskLevel::Medium => 1,
            RiskLevel::High => 2,
            RiskLevel::Critical => 3,
        };
        assert!(rank >= last);
        last = rank;
    }
    assert_eq!(risk_level_for(true, 8001), RiskLevel::Critical);
    assert_eq!(risk_level_for(true, 6001), RiskLevel::High);
    assert_eq!(risk_level_for(false, 7001), RiskLevel::Medium);
    assert_eq!(risk_level_for(false, 9000), RiskLevel::Medium);
    assert_eq!(risk_level_for(false, 7000), RiskLevel::Low);
}

#[test]
fn clause_risk_is_recomputed() {
    let mut c = ExtractedClause::new(1, ClauseCategory::Penalty, "deviza fee".to_string(), "hu".to_string(), 9000);
    assert!(c.is_fx_risk_clause());
    assert_eq!(c.risk_level, RiskLevel::Critical);
    c.confidence_score = 6500;
    c.calculate_risk_level();
    assert_eq!(c.risk_level, RiskLevel::High);
    assert_eq!(c.clause_type.as_str(), "penalty");
}

#[test]
fn extraction_is_repeatable() {
    let extractor = ClauseExtractor::new();
    let text = "A devizaalapú hitel árfolyamkockázat miatt. A kamat változás és késedelmi kamat.";
    let a = extractor.extract_clauses(9, text, "hu");
    let b = extractor.extract_clauses(9, text, "hu");
    assert_eq!(a.clauses.len(), b.clauses.len());
    for (x, y) in a.clauses.iter().zip(b.clauses.iter()) {
        assert_eq!(x.clause_type, y.clause_type);
        assert_eq!(x.clause_text, y.clause_text);
        assert_eq!(x.confidence_score, y.confidence_score);
        assert_eq!(x.start_position, y.start_position);
    }
    assert_eq!(a.confidence, b.confidence);
}

#[test]
fn detects_languages() {
    let d = LanguageDetector::new();
    let r = d.detect_language("The loan and the bank");
    assert_eq!(r.language, "en");
    assert_eq!(r.confidence, 10000);
    assert_eq!(r.scores.len(), 4);
    assert_eq!(r.scores[1], (Language::English, 10000));
    let r = d.detect_language("A hitel és a deviza");
    assert_eq!(r.language, "hu");
    assert_eq!(r.confidence, 12000);
    let r = d.detect_language("   ");
    assert_eq!(r.language, "unknown");
    assert_eq!(r.confidence, 0);
    assert!(r.scores.is_empty());
}

#[test]
fn language_ties_go_to_the_first_language() {
    let d = LanguageDetector::new();
    let r = d.detect_language("xyz qqq");
    assert_eq!(r.language, "hu");
    assert_eq!(r.confidence, 0);
}

#[test]
fn mixed_language_sentences() {
    let d = LanguageDetector::new();
    let r = d.detect_mixed_language("The loan and the bank have a cost. Short one. A hitel és a bank és a kamat");
    assert_eq!(r.len(), 2);
    assert_eq!(r[0].language, "en");
    assert_eq!(r[1].language, "hu");
}

#[test]
fn language_names() {
    let d = LanguageDetector::new();
    assert_eq!(d.get_language_name("hu"), "Hungarian");
    assert_eq!(d.get_language_name("sl"), "Slovenian");
    assert_eq!(d.get_language_name("xx"), "Unknown");
    assert!(d.is_central_european_language("pl"));
    assert!(!d.is_central_european_language("en"));
}
