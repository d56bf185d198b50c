use devizahitel_legal_research::applicable::ApplicablePrecedent;
use devizahitel_legal_research::clause::{ClauseCategory, ExtractedClause};
use devizahitel_legal_research::document::{Document, DocumentUploadRequest};
use devizahitel_legal_research::research::{ClauseAnalysis, GeneratedPleading, LegalFindings};

fn upload(document_type: &str, content_type: &str, language: Option<&str>) -> DocumentUploadRequest {
    DocumentUploadRequest {
        filename: "contract.pdf".to_string(),
        content_type: content_type.to_string(),
        file_data: String::new(),
        document_type: document_type.to_string(),
        language: language.map(|l| l.to_string()),
        client_id: None,
        case_reference: Some("2024/17".to_string()),
    }
}

#[test]
fn new_documents_start_uploaded() {
    let d = Document::new(upload("loan_agreement", "image/png", None));
    assert_eq!(d.language, "unknown");
    assert_eq!(d.processing_status, "uploaded");
    assert_eq!(d.file_size, 0);
    assert!(d.extracted_text.is_none());
    assert_eq!(d.case_reference.as_deref(), Some("2024/17"));
    assert!(d.is_mortgage_contract());
    assert!(d.supports_ocr());
    let d = Document::new(upload("correspondence", "text/plain", Some("hu")));
    assert_eq!(d.language, "hu");
    assert!(!d.is_mortgage_contract());
    assert!(!d.supports_ocr());
}

#[test]
fn findings_record_issues() {
    let mut f = LegalFindings::new();
    f.add_fx_risk_issue(vec![1, 2]);
    f.add_transparency_issue(vec![3]);
    assert_eq!(f.identified_issues.len(), 2);
    assert_eq!(f.identified_issues[0].issue_type, "fx_risk_unfair_term");
    assert_eq!(f.identified_issues[0].severity, "critical");
    assert_eq!(f.identified_issues[0].legal_basis.len(), 3);
    assert_eq!(f.identified_issues[0].supporting_clauses, vec![1, 2]);
    assert_eq!(f.identified_issues[1].issue_type, "transparency_violation");
    assert_eq!(f.identified_issues[1].legal_basis.len(), 2);
}

fn precedent() -> ApplicablePrecedent {
    ApplicablePrecedent {
        case_id: 9,
        case_number: "C-1/01".to_string(),
        case_name: "X".to_string(),
        jurisdiction: "CJEU".to_string(),
        relevance_score: 8000,
        key_principles: vec!["A".to_string(), "B".to_string()],
        citation_text: "Case X".to_string(),
        application_notes: String::new(),
    }
}

#[test]
fn complaint_lists_issues_and_precedents() {
    let mut f = LegalFindings::new();
    f.add_transparency_issue(vec![3]);
    let content = GeneratedPleading::build_complaint_content(&f, &vec![precedent()]);
    let expected = String::from(
        "COMPLAINT FOR UNFAIR FOREIGN CURRENCY MORTGAGE TERMS\n\nI. FACTUAL BACKGROUND\n\n\
         The Plaintiff entered into a foreign currency mortgage agreement with the Defendant bank, \
         which contained unfair terms placing disproportionate currency exchange risk on the consumer \
         without adequate disclosure or warning of the risks involved.\n\nII. LEGAL ARGUMENTS\n\n",
    ) + "1. Lack of clear and intelligible information about currency risk\n"
        + "Legal Basis: EU Directive 93/13/EEC Article 5; CJEU requirement for 'sufficient information for prudent decision'\n\n"
        + "III. SUPPORTING PRECEDENTS\n\n"
        + "In Case X, the Court ruled: A; B\n\n"
        + "IV. RELIEF REQUESTED\n\nWHEREFORE, Plaintiff respectfully requests that this Court:\n"
        + "1. Declare the foreign currency clauses unfair and void under EU Directive 93/13/EEC;\n"
        + "2. Order full restitution of all payments made under the invalid contract;\n"
        + "3. Award damages for harm suffered due to the unfair terms;\n"
        + "4. Grant such other relief as the Court deems just and proper.\n";
    assert_eq!(content, expected);
}

#[test]
fn complaint_carries_citations() {
    let f = LegalFindings::new();
    let p = GeneratedPleading::generate_fx_mortgage_complaint(5, &f, &vec![precedent()]);
    assert_eq!(p.research_sheet_id, 5);
    assert_eq!(p.pleading_type, "complaint");
    assert_eq!(p.title, "Complaint for Unfair Foreign Currency Mortgage Terms");
    assert_eq!(p.citations.len(), 1);
    assert_eq!(p.citations[0].case_id, 9);
    assert_eq!(p.citations[0].citation_format, "CJEU");
    assert_eq!(p.citations[0].full_citation, "Case X");
}

#[test]
fn clause_analysis_scores_currency_clauses() {
    let mut a = ClauseAnalysis::new();
    let c = ExtractedClause::new(1, ClauseCategory::FxRisk, "deviza loan".to_string(), "hu".to_string(), 6000);
    a.calculate_scores(&c);
    assert_eq!(a.unfairness_score, 9000);
    assert_eq!(a.consumer_detriment_score, 9500);
    assert_eq!(a.transparency_score, 1000);
    assert_eq!(a.eu_compliance_issues.len(), 1);
    assert_eq!(a.suggested_challenges.len(), 2);
    let mut b = ClauseAnalysis::new();
    b.calculate_scores(&ExtractedClause::new(1, ClauseCategory::FxRisk, "CHF risk".to_string(), "en".to_string(), 6000));
    assert_eq!(b.transparency_score, 6000);
    assert!(b.eu_compliance_issues.is_empty());
    let mut n = ClauseAnalysis::new();
    n.calculate_scores(&ExtractedClause::new(1, ClauseCategory::Penalty, "fee".to_string(), "en".to_string(), 8000));
    assert_eq!(n.unfairness_score, 0);
    assert!(n.hungarian_law_issues.is_empty());
}
