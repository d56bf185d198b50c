use devizahitel_legal_research::clause::{ClauseCategory, RiskLevel};
use devizahitel_legal_research::clause_extractor::ClauseExtractor;
use devizahitel_legal_research::language_detector::LanguageDetector;
use devizahitel_legal_research::precedent_matcher::PrecedentMatcher;
use devizahitel_legal_research::seed::get_default_precedent_cases;

#[test]
fn clauses_from_given_spans() {
    let r = ClauseExtractor::clauses_for_spans(1, "abc CHF loan xyz", "en", ClauseCategory::FxRisk, &vec![(4, 12)]);
    assert_eq!(r.len(), 1);
    assert_eq!(r[0].start_position, Some(4));
    assert_eq!(r[0].end_position, Some(12));
    assert_eq!(r[0].clause_text, "abc CHF loan xyz");
    assert_eq!(r[0].confidence_score, 7000);
    assert_eq!(r[0].risk_level, RiskLevel::High);
}

#[test]
fn spans_are_mapped_from_bytes_to_characters() {
    let r = ClauseExtractor::clauses_for_spans(1, "éé CHF", "en", ClauseCategory::Penalty, &vec![(5, 8)]);
    assert_eq!(r[0].start_position, Some(3));
    assert_eq!(r[0].end_position, Some(6));
    assert_eq!(r[0].confidence_score, 8000);
}

#[test]
fn low_confidence_spans_are_dropped() {
    let r = ClauseExtractor::clauses_for_spans(1, "deviza", "hu", ClauseCategory::FxRisk, &vec![(0, 6)]);
    assert_eq!(r.len(), 1);
    assert_eq!(r[0].confidence_score, 7000);
    let r = ClauseExtractor::clauses_for_spans(1, "plain words", "hu", ClauseCategory::Transparency, &vec![(0, 5)]);
    assert!(r.is_empty());
}

#[test]
fn detection_of_lowered_text() {
    let d = LanguageDetector::new();
    let lower: Vec<char> = "the loan".chars().collect();
    let r = d.detect_lowered(&lower);
    assert_eq!(r.language, "en");
    assert_eq!(r.confidence, 10000);
    let upper: Vec<char> = "THE LOAN".chars().collect();
    assert_eq!(d.detect_lowered(&upper).confidence, 0);
}

#[test]
fn complete_pipeline_on_a_contract() {
    let text = "A kölcsön devizaalapú hitel, svájci frank alapon. Az árfolyamkockázat teljes egészében \
                az adóst terheli. A bank jogosult a kamat egyoldalú módosítására. Késedelmi kamat és \
                bírság fizetendő.";
    let extractor = ClauseExtractor::new();
    let extraction = extractor.extract_clauses(42, text, "unknown");
    assert_eq!(extraction.language_detected, "hu");
    assert!(extraction.clauses.iter().any(|c| c.clause_type == ClauseCategory::FxRisk));
    assert!(extraction.clauses.iter().any(|c| c.clause_type == ClauseCategory::Penalty));
    assert!(extraction.clauses.iter().all(|c| c.confidence_score <= 10000));
    let corpus = get_default_precedent_cases();
    let matcher = PrecedentMatcher::new();
    let result = matcher.match_precedents(&extraction.clauses, &corpus);
    assert_eq!(result.clause_matches.len(), extraction.clauses.len());
    for cm in &result.clause_matches {
        assert!(cm.matched_cases.len() <= 5);
        for w in cm.matched_cases.windows(2) {
            assert!(w[0].similarity_score >= w[1].similarity_score);
        }
    }
    assert!(!result.overall_case_matches.is_empty());
    for w in result.overall_case_matches.windows(2) {
        assert!(w[0].similarity_score >= w[1].similarity_score);
    }
    assert!(result.overall_case_matches.iter().all(|m| m.similarity_score > 3000 && m.similarity_score <= 10000));
    assert!(result.confidence_score <= 10000 && result.confidence_score > 3000);
    let applicable = matcher.create_applicable_precedents(&result.overall_case_matches);
    assert_eq!(applicable.len(), result.overall_case_matches.len());
    assert!(applicable.iter().all(|p| p.citation_text.starts_with("Case C-")));
}
