use devizahitel_legal_research::file_watcher::{FileChangeType, FileState, FileWatcher};
use devizahitel_legal_research::seed::{get_default_precedent_cases, ClausePattern};
use devizahitel_legal_research::similarity_engine::SimilarityEngine;
use devizahitel_legal_research::clause::ClauseCategory;
use devizahitel_legal_research::text_processor::TextProcessor;

const SECOND: u64 = 1_000_000_000;

#[test]
fn cleans_lines() {
    let p = TextProcessor::new();
    assert_eq!(p.clean_text("  a  \n\n  b \r\n"), "a\nb");
    assert_eq!(p.clean_text(""), "");
    assert_eq!(p.clean_text("\n \n"), "");
}

#[test]
fn extracts_sentences() {
    let p = TextProcessor::new();
    let s = p.extract_sentences("Short. This is a long enough sentence. Another long sentence here");
    assert_eq!(s, vec!["This is a long enough sentence".to_string(), "Another long sentence here".to_string()]);
}

#[test]
fn extracts_paragraphs() {
    let p = TextProcessor::new();
    let s = p.extract_paragraphs("First paragraph is long enough here.\n\nshort\n\n\nThird paragraph also long enough.");
    assert_eq!(
        s,
        vec!["First paragraph is long enough here.".to_string(), "Third paragraph also long enough.".to_string()]
    );
}

#[test]
fn normalizes_spacing() {
    let p = TextProcessor::new();
    assert_eq!(p.normalize_text("  a   b\n\n\n\nc  "), "a b\n\nc");
    assert_eq!(p.normalize_text("x\n\ny"), "x\n\ny");
}

#[test]
fn detects_structure() {
    let p = TextProcessor::new();
    let text = "1. SECTION\nThe bank shall provide the borrower with all the information in this agreement.\n\nlowercase short";
    let st = p.detect_document_structure(text);
    assert_eq!(st.headers, vec![(0, "1. SECTION".to_string()), (2, "".to_string())]);
    assert_eq!(st.clauses.len(), 1);
    assert_eq!(st.clauses[0].0, 1);
    assert!(st.paragraphs.is_empty());
}

#[test]
fn test_file_watcher_detects_new_file() {
    let mut watcher = FileWatcher::new("docs".to_string(), vec![], 5, true);
    let changes = watcher.apply_scan(vec![("docs/test.md".to_string(), FileState { modified_time: 7 * SECOND, size: 12 })], 9);
    assert_eq!(changes.len(), 1);
    assert!(matches!(changes[0].change_type, FileChangeType::Added));
    assert_eq!(changes[0].timestamp, 7);
    assert_eq!(changes[0].file_size, 12);
}

#[test]
fn test_file_watcher_detects_modification() {
    let initial = vec![("docs/test.md".to_string(), FileState { modified_time: 10 * SECOND, size: 15 })];
    let mut watcher = FileWatcher::new("docs".to_string(), initial, 5, true);
    let changes = watcher.apply_scan(vec![("docs/test.md".to_string(), FileState { modified_time: 10 * SECOND + 10_000_000, size: 16 })], 11);
    assert_eq!(changes.len(), 1);
    assert!(matches!(changes[0].change_type, FileChangeType::Modified));
}

#[test]
fn file_watcher_reports_deletions_and_keeps_state() {
    let initial = vec![
        ("a.md".to_string(), FileState { modified_time: 100 * SECOND, size: 5 }),
        ("b.md".to_string(), FileState { modified_time: 50 * SECOND, size: 3 }),
    ];
    let mut watcher = FileWatcher::new("d".to_string(), initial, 5, false);
    assert!(!watcher.is_enabled());
    assert_eq!(watcher.get_file_count(), 2);
    let unchanged = watcher.apply_scan(
        vec![
            ("b.md".to_string(), FileState { modified_time: 50 * SECOND, size: 3 }),
            ("a.md".to_string(), FileState { modified_time: 100 * SECOND, size: 5 }),
        ],
        500,
    );
    assert!(unchanged.is_empty());
    let changes = watcher.apply_scan(vec![("c.md".to_string(), FileState { modified_time: 60 * SECOND, size: 1 })], 600);
    assert_eq!(changes.len(), 3);
    assert!(matches!(changes[0].change_type, FileChangeType::Added));
    assert!(matches!(changes[1].change_type, FileChangeType::Deleted));
    assert_eq!(changes[1].file_path, "b.md");
    assert_eq!(changes[1].timestamp, 600);
    assert_eq!(changes[1].file_size, 0);
    assert_eq!(changes[2].file_path, "a.md");
    assert_eq!(watcher.get_monitored_files(), vec!["c.md".to_string()]);
    assert_eq!(watcher.watch_directory(), "d");
    assert_eq!(watcher.check_interval_seconds(), 5);
}

#[test]
fn ships_default_corpus_and_patterns() {
    let cases = get_default_precedent_cases();
    assert_eq!(cases.len(), 8);
    assert_eq!(cases[0].case_number, "C-186/16");
    assert_eq!(cases[7].case_number, "C-630/23");
    assert_ne!(cases[0].id, cases[1].id);
    let patterns = ClausePattern::get_default_patterns();
    assert_eq!(patterns.len(), 5);
    assert_eq!(patterns[0].clause_category, ClauseCategory::FxRisk);
    assert_eq!(patterns[3].clause_category, ClauseCategory::Penalty);
    assert_eq!(patterns[4].clause_category, ClauseCategory::UnfairTerm);
    assert!(patterns.iter().all(|p| p.legal_basis.is_some() && !p.pattern_text.is_empty()));
    assert!(cases.iter().all(|c| c.currency.contains("CHF") && c.is_foreign_currency_case()));
    assert!(patterns.iter().all(|p| p.is_active));
}

#[test]
fn extracts_key_phrases_sorted_once() {
    let e = SimilarityEngine::new();
    let phrases = e.extract_key_phrases("Swiss franc loan and consumer protection, Swiss franc again and restitution");
    assert_eq!(
        phrases,
        vec!["Swiss franc".to_string(), "consumer protection".to_string(), "restitution".to_string()]
    );
    assert!(e.extract_key_phrases("nothing to see").is_empty());
}

#[test]
fn explains_similarity() {
    let e = SimilarityEngine::new();
    assert_eq!(e.generate_similarity_explanation(9000, &vec![]), "Similarity: very high (90.0%)");
    assert_eq!(
        e.generate_similarity_explanation(4500, &vec!["chf".to_string(), "deviza".to_string()]),
        "Similarity: moderate (45.0%) - shared terms: chf, deviza"
    );
    assert_eq!(e.generate_similarity_explanation(1234, &vec![]), "Similarity: very low (12.3%)");
}
