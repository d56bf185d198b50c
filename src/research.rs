//! Legal findings assembled from extracted clauses, and the complaint
//! drafted from them.

use vstd::prelude::*;
use vstd::string::*;
use crate::text::{string_views, decimal, decimal_text, lowered_chars};
use crate::clause::{ExtractedClause, fresh_id, views, has_any, contains_any, is_fx_text};
use crate::text::lower_of;
use crate::applicable::ApplicablePrecedent;
use crate::document::now_seconds;

verus! {

/// A legal problem found in a document, with the clauses that show it.
#[derive(Debug)]
pub struct LegalIssue {
    pub issue_type: String,
    pub description: String,
    pub severity: String,
    pub legal_basis: Vec<String>,
    pub supporting_clauses: Vec<u128>,
}

/// An argument built on precedents.
#[derive(Debug)]
pub struct LegalArgument {
    pub argument_type: String,
    pub title: String,
    pub description: String,
    pub supporting_precedents: Vec<u128>,
    pub legal_reasoning: String,
    pub strength_assessment: String,
}

/// What the research on a document found.
#[derive(Debug)]
pub struct LegalFindings {
    pub identified_issues: Vec<LegalIssue>,
    pub applicable_precedents: Vec<ApplicablePrecedent>,
    pub legal_arguments: Vec<LegalArgument>,
    pub evidence_requirements: Vec<String>,
}

pub open spec fn fx_issue_description() -> Seq<char> {
    "Foreign currency risk clauses that place disproportionate risk on consumer without adequate disclosure"@
}

pub open spec fn fx_issue_basis() -> Seq<Seq<char>> {
    seq![
        "EU Directive 93/13/EEC on unfair terms"@,
        "CJEU Andriciuc v. Banca Românească (C-186/16)"@,
        "CJEU Kásler v. OTP Bank (C-26/13)"@,
    ]
}

pub open spec fn transparency_issue_description() -> Seq<char> {
    "Lack of clear and intelligible information about currency risk"@
}

pub open spec fn transparency_issue_basis() -> Seq<Seq<char>> {
    seq![
        "EU Directive 93/13/EEC Article 5"@,
        "CJEU requirement for 'sufficient information for prudent decision'"@,
    ]
}

/// An issue as plain values.
pub struct IssueView {
    pub issue_type: Seq<char>,
    pub description: Seq<char>,
    pub severity: Seq<char>,
    pub legal_basis: Seq<Seq<char>>,
    pub supporting_clauses: Seq<u128>,
}

impl View for LegalIssue {
    type V = IssueView;

    open spec fn view(&self) -> IssueView {
        IssueView {
            issue_type: self.issue_type@,
            description: self.description@,
            severity: self.severity@,
            legal_basis: string_views(self.legal_basis@),
            supporting_clauses: self.supporting_clauses@,
        }
    }
}

pub open spec fn issue_views(v: Seq<LegalIssue>) -> Seq<IssueView> {
    v.map_values(|i: LegalIssue| i@)
}

fn texts(items: &Vec<&str>) -> (r: Vec<String>)
    ensures
        string_views(r@) == views(items@),
{
    let mut out: Vec<String> = Vec::new();
    let mut k: usize = 0;
    while k < items.len()
        invariant
            k <= items@.len(),
            string_views(out@) == views(items@).take(k as int),
        decreases items@.len() - k,
    {
        let ghost before = string_views(out@);
        let s = String::from_str(items[k]);
        out.push(s);
        assert(string_views(out@) =~= before.push(items@[k as int]@));
        assert(views(items@).take(k + 1) =~= views(items@).take(k as int).push(items@[k as int]@));
        k = k + 1;
    }
    assert(views(items@).take(k as int) =~= views(items@));
    out
}

impl LegalFindings {
    pub fn new() -> (r: Self)
        ensures
            r.identified_issues@.len() == 0,
            r.applicable_precedents@.len() == 0,
            r.legal_arguments@.len() == 0,
            r.evidence_requirements@.len() == 0,
    {
        LegalFindings {
            identified_issues: Vec::new(),
            applicable_precedents: Vec::new(),
            legal_arguments: Vec::new(),
            evidence_requirements: Vec::new(),
        }
    }

    /// Records the critical issue of unfair currency-risk clauses.
    pub fn add_fx_risk_issue(&mut self, clause_ids: Vec<u128>)
        ensures
            issue_views(final(self).identified_issues@) == issue_views(
                old(self).identified_issues@,
            ).push(
                IssueView {
                    issue_type: "fx_risk_unfair_term"@,
                    description: fx_issue_description(),
                    severity: "critical"@,
                    legal_basis: fx_issue_basis(),
                    supporting_clauses: clause_ids@,
                },
            ),
            final(self).applicable_precedents@ == old(self).applicable_precedents@,
    {
        let basis = vec![
            "EU Directive 93/13/EEC on unfair terms",
            "CJEU Andriciuc v. Banca Românească (C-186/16)",
            "CJEU Kásler v. OTP Bank (C-26/13)",
        ];
        assert(views(basis@) =~= fx_issue_basis());
        let issue = LegalIssue {
            issue_type: String::from_str("fx_risk_unfair_term"),
            description: String::from_str(
                "Foreign currency risk clauses that place disproportionate risk on consumer without adequate disclosure",
            ),
            severity: String::from_str("critical"),
            legal_basis: texts(&basis),
            supporting_clauses: clause_ids,
        };
        let ghost before = issue_views(self.identified_issues@);
        let ghost iv = issue@;
        self.identified_issues.push(issue);
        assert(issue_views(self.identified_issues@) =~= before.push(iv));
    }

    /// Records the issue of missing information about currency risk.
    pub fn add_transparency_issue(&mut self, clause_ids: Vec<u128>)
        ensures
            issue_views(final(self).identified_issues@) == issue_views(
                old(self).identified_issues@,
            ).push(
                IssueView {
                    issue_type: "transparency_violation"@,
                    description: transparency_issue_description(),
                    severity: "high"@,
                    legal_basis: transparency_issue_basis(),
                    supporting_clauses: clause_ids@,
                },
            ),
            final(self).applicable_precedents@ == old(self).applicable_precedents@,
    {
        let basis = vec![
            "EU Directive 93/13/EEC Article 5",
            "CJEU requirement for 'sufficient information for prudent decision'",
        ];
        assert(views(basis@) =~= transparency_issue_basis());
        let issue = LegalIssue {
            issue_type: String::from_str("transparency_violation"),
            description: String::from_str(
                "Lack of clear and intelligible information about currency risk",
            ),
            severity: String::from_str("high"),
            legal_basis: texts(&basis),
            supporting_clauses: clause_ids,
        };
        let ghost before = issue_views(self.identified_issues@);
        let ghost iv = issue@;
        self.identified_issues.push(issue);
        assert(issue_views(self.identified_issues@) =~= before.push(iv));
    }
}

/// A reference to a precedent in a pleading.
#[derive(Debug)]
pub struct Citation {
    pub case_id: u128,
    pub citation_format: String,
    pub full_citation: String,
    pub paragraph_reference: Option<String>,
    pub page_reference: Option<String>,
}

/// A drafted court document; `generated_at` is in seconds since the Unix
/// epoch.
#[derive(Debug)]
pub struct GeneratedPleading {
    pub id: u128,
    pub research_sheet_id: u128,
    pub pleading_type: String,
    pub title: String,
    pub content: String,
    pub citations: Vec<Citation>,
    pub generated_at: i64,
}

/// Texts joined with "; " between two of them.
pub open spec fn semicolon_joined(ts: Seq<Seq<char>>) -> Seq<char>
    decreases ts.len(),
{
    if ts.len() == 0 {
        Seq::empty()
    } else if ts.len() == 1 {
        ts[0]
    } else {
        semicolon_joined(ts.drop_last()) + "; "@ + ts.last()
    }
}

/// The numbered arguments of a complaint, one per issue.
pub open spec fn argument_section(issues: Seq<IssueView>) -> Seq<char>
    decreases issues.len(),
{
    if issues.len() == 0 {
        Seq::empty()
    } else {
        let i = issues.last();
        argument_section(issues.drop_last()) + decimal_text(issues.len()) + ". "@
            + i.description + "\n"@ + "Legal Basis: "@ + semicolon_joined(i.legal_basis) + "\n\n"@
    }
}

/// The precedents section of a complaint, one paragraph per precedent.
pub open spec fn precedent_section(ps: Seq<ApplicablePrecedent>) -> Seq<char>
    decreases ps.len(),
{
    if ps.len() == 0 {
        Seq::empty()
    } else {
        let p = ps.last();
        precedent_section(ps.drop_last()) + "In "@ + p.citation_text@ + ", the Court ruled: "@
            + semicolon_joined(string_views(p.key_principles@)) + "\n\n"@
    }
}

pub open spec fn complaint_opening() -> Seq<char> {
    "COMPLAINT FOR UNFAIR FOREIGN CURRENCY MORTGAGE TERMS\n\nI. FACTUAL BACKGROUND\n\nThe Plaintiff entered into a foreign currency mortgage agreement with the Defendant bank, which contained unfair terms placing disproportionate currency exchange risk on the consumer without adequate disclosure or warning of the risks involved.\n\nII. LEGAL ARGUMENTS\n\n"@
}

pub open spec fn complaint_relief() -> Seq<char> {
    "IV. RELIEF REQUESTED\n\nWHEREFORE, Plaintiff respectfully requests that this Court:\n1. Declare the foreign currency clauses unfair and void under EU Directive 93/13/EEC;\n2. Order full restitution of all payments made under the invalid contract;\n3. Award damages for harm suffered due to the unfair terms;\n4. Grant such other relief as the Court deems just and proper.\n"@
}

/// The text of a complaint over these issues and precedents.
pub open spec fn complaint_text(issues: Seq<IssueView>, ps: Seq<ApplicablePrecedent>) -> Seq<char> {
    complaint_opening() + argument_section(issues) + "III. SUPPORTING PRECEDENTS\n\n"@
        + precedent_section(ps) + complaint_relief()
}

fn join_semicolon(ts: &Vec<String>) -> (r: String)
    ensures
        r@ == semicolon_joined(string_views(ts@)),
{
    let ghost tv = string_views(ts@);
    let mut s = String::new();
    assert(s@ =~= semicolon_joined(tv.take(0)));
    let mut i: usize = 0;
    while i < ts.len()
        invariant
            i <= ts@.len(),
            tv == string_views(ts@),
            s@ == semicolon_joined(tv.take(i as int)),
        decreases ts@.len() - i,
    {
        let ghost before = s@;
        if i > 0 {
            s.append("; ");
        }
        s.append(ts[i].as_str());
        proof {
            assert(tv.take(i + 1).drop_last() =~= tv.take(i as int));
            assert(tv.take(i + 1).last() == ts@[i as int]@);
            if i == 0 {
                assert(tv.take(1).len() == 1);
                assert(before.len() == 0);
                assert(s@ =~= semicolon_joined(tv.take(i + 1)));
            } else {
                assert(s@ =~= semicolon_joined(tv.take(i + 1)));
            }
        }
        i = i + 1;
    }
    assert(tv.take(i as int) =~= tv);
    s
}

impl GeneratedPleading {
    /// The text of a complaint: background, one numbered argument per issue,
    /// one paragraph per precedent, and the relief requested.
    pub fn build_complaint_content(findings: &LegalFindings, precedents: &Vec<ApplicablePrecedent>) -> (r:
        String)
        ensures
            r@ == complaint_text(issue_views(findings.identified_issues@), precedents@),
    {
        let mut s = String::from_str(
            "COMPLAINT FOR UNFAIR FOREIGN CURRENCY MORTGAGE TERMS\n\nI. FACTUAL BACKGROUND\n\nThe Plaintiff entered into a foreign currency mortgage agreement with the Defendant bank, which contained unfair terms placing disproportionate currency exchange risk on the consumer without adequate disclosure or warning of the risks involved.\n\nII. LEGAL ARGUMENTS\n\n",
        );
        let ghost iv = issue_views(findings.identified_issues@);
        let ghost head = s@;
        let mut i: usize = 0;
        assert(iv.take(0) =~= Seq::<IssueView>::empty());
        assert(s@ =~= head + argument_section(iv.take(0)));
        while i < findings.identified_issues.len()
            invariant
                i <= findings.identified_issues@.len(),
                iv == issue_views(findings.identified_issues@),
                s@ == head + argument_section(iv.take(i as int)),
            decreases findings.identified_issues@.len() - i,
        {
            let issue = &findings.identified_issues[i];
            let ghost before = s@;
            let n = decimal((i + 1) as u64);
            s.append(n.as_str());
            s.append(". ");
            s.append(issue.description.as_str());
            s.append("\n");
            s.append("Legal Basis: ");
            let b = join_semicolon(&issue.legal_basis);
            s.append(b.as_str());
            s.append("\n\n");
            proof {
                assert(iv.take(i + 1).drop_last() =~= iv.take(i as int));
                assert(iv.take(i + 1).last() == issue@);
                assert(iv.take(i + 1).len() == i + 1);
                assert(s@ =~= head + argument_section(iv.take(i + 1)));
            }
            i = i + 1;
        }
        assert(iv.take(i as int) =~= iv);
        s.append("III. SUPPORTING PRECEDENTS\n\n");
        let ghost head2 = s@;
        let mut k: usize = 0;
        assert(precedents@.take(0) =~= Seq::<ApplicablePrecedent>::empty());
        assert(s@ =~= head2 + precedent_section(precedents@.take(0)));
        while k < precedents.len()
            invariant
                k <= precedents@.len(),
                s@ == head2 + precedent_section(precedents@.take(k as int)),
            decreases precedents@.len() - k,
        {
            let p = &precedents[k];
            s.append("In ");
            s.append(p.citation_text.as_str());
            s.append(", the Court ruled: ");
            let j = join_semicolon(&p.key_principles);
            s.append(j.as_str());
            s.append("\n\n");
            proof {
                assert(precedents@.take(k + 1).drop_last() =~= precedents@.take(k as int));
                assert(precedents@.take(k + 1).last() == *p);
                assert(s@ =~= head2 + precedent_section(precedents@.take(k + 1)));
            }
            k = k + 1;
        }
        assert(precedents@.take(k as int) =~= precedents@);
        s.append(
            "IV. RELIEF REQUESTED\n\nWHEREFORE, Plaintiff respectfully requests that this Court:\n1. Declare the foreign currency clauses unfair and void under EU Directive 93/13/EEC;\n2. Order full restitution of all payments made under the invalid contract;\n3. Award damages for harm suffered due to the unfair terms;\n4. Grant such other relief as the Court deems just and proper.\n",
        );
        assert(s@ =~= complaint_text(iv, precedents@));
        s
    }

    /// One court-of-justice citation per precedent.
    pub fn extract_citations(precedents: &Vec<ApplicablePrecedent>) -> (r: Vec<Citation>)
        ensures
            r@.len() == precedents@.len(),
            forall|k: int|
                0 <= k < r@.len() ==> {
                    let c = #[trigger] r@[k];
                    &&& c.case_id == precedents@[k].case_id
                    &&& c.citation_format@ == "CJEU"@
                    &&& c.full_citation@ == precedents@[k].citation_text@
                    &&& c.paragraph_reference is None
                    &&& c.page_reference is None
                },
    {
        let mut out: Vec<Citation> = Vec::new();
        let mut k: usize = 0;
        while k < precedents.len()
            invariant
                k <= precedents@.len(),
                out@.len() == k,
                forall|j: int|
                    0 <= j < k ==> {
                        let c = #[trigger] out@[j];
                        &&& c.case_id == precedents@[j].case_id
                        &&& c.citation_format@ == "CJEU"@
                        &&& c.full_citation@ == precedents@[j].citation_text@
                        &&& c.paragraph_reference is None
                        &&& c.page_reference is None
                    },
            decreases precedents@.len() - k,
        {
            let p = &precedents[k];
            out.push(
                Citation {
                    case_id: p.case_id,
                    citation_format: String::from_str("CJEU"),
                    full_citation: p.citation_text.clone(),
                    paragraph_reference: None,
                    page_reference: None,
                },
            );
            k = k + 1;
        }
        out
    }

    /// A complaint drafted from research findings and precedents.
    pub fn generate_fx_mortgage_complaint(
        research_sheet_id: u128,
        findings: &LegalFindings,
        precedents: &Vec<ApplicablePrecedent>,
    ) -> (r: Self)
        ensures
            r.research_sheet_id == research_sheet_id,
            r.pleading_type@ == "complaint"@,
            r.title@ == "Complaint for Unfair Foreign Currency Mortgage Terms"@,
            r.content@ == complaint_text(issue_views(findings.identified_issues@), precedents@),
            r.citations@.len() == precedents@.len(),
    {
        let content = Self::build_complaint_content(findings, precedents);
        let citations = Self::extract_citations(precedents);
        GeneratedPleading {
            id: fresh_id(),
            research_sheet_id,
            pleading_type: String::from_str("complaint"),
            title: String::from_str("Complaint for Unfair Foreign Currency Mortgage Terms"),
            content,
            citations,
            generated_at: now_seconds(),
        }
    }
}

/// Scores of a clause for unfairness, transparency and consumer detriment,
/// with the issues it raises.
#[derive(Debug)]
pub struct ClauseAnalysis {
    pub unfairness_score: u32,
    pub transparency_score: u32,
    pub consumer_detriment_score: u32,
    pub eu_compliance_issues: Vec<String>,
    pub hungarian_law_issues: Vec<String>,
    pub suggested_challenges: Vec<String>,
}

pub open spec fn warning_indicators() -> Seq<Seq<char>> {
    seq!["warning"@, "risk"@, "tájékoztatás"@, "figyelmeztetés"@]
}

impl ClauseAnalysis {
    pub fn new() -> (r: Self)
        ensures
            r.unfairness_score == 0,
            r.transparency_score == 0,
            r.consumer_detriment_score == 0,
            r.eu_compliance_issues@.len() == 0,
            r.hungarian_law_issues@.len() == 0,
            r.suggested_challenges@.len() == 0,
    {
        ClauseAnalysis {
            unfairness_score: 0,
            transparency_score: 0,
            consumer_detriment_score: 0,
            eu_compliance_issues: Vec::new(),
            hungarian_law_issues: Vec::new(),
            suggested_challenges: Vec::new(),
        }
    }

    /// Scores a currency-risk clause: high unfairness and detriment, and a
    /// transparency score and issues according to whether it warns of the
    /// risk. Other clauses leave the analysis as it was.
    pub fn calculate_scores(&mut self, clause: &ExtractedClause)
        ensures
            ({
                let warned = has_any(lower_of(clause.clause_text@), warning_indicators());
                if is_fx_text(clause.clause_text@) {
                    &&& final(self).unfairness_score == 9000
                    &&& final(self).consumer_detriment_score == 9500
                    &&& final(self).transparency_score == if warned {
                        6000u32
                    } else {
                        1000u32
                    }
                    &&& string_views(final(self).eu_compliance_issues@) == string_views(
                        old(self).eu_compliance_issues@,
                    ) + if warned {
                        Seq::empty()
                    } else {
                        seq!["Insufficient warning about currency risk (Andriciuc v. Banca Românească)"@]
                    }
                    &&& final(self).hungarian_law_issues@.len() == old(self).hungarian_law_issues@.len()
                        + if warned {
                        0int
                    } else {
                        1
                    }
                    &&& final(self).suggested_challenges@.len() == old(self).suggested_challenges@.len()
                        + if warned {
                        0int
                    } else {
                        2
                    }
                } else {
                    &&& final(self).unfairness_score == old(self).unfairness_score
                    &&& final(self).transparency_score == old(self).transparency_score
                    &&& final(self).consumer_detriment_score == old(self).consumer_detriment_score
                    &&& final(self).eu_compliance_issues@ == old(self).eu_compliance_issues@
                    &&& final(self).hungarian_law_issues@ == old(self).hungarian_law_issues@
                    &&& final(self).suggested_challenges@ == old(self).suggested_challenges@
                }
            }),
    {
        if !clause.is_fx_risk_clause() {
            return;
        }
        self.unfairness_score = 9000;
        self.consumer_detriment_score = 9500;
        let indicators = vec!["warning", "risk", "tájékoztatás", "figyelmeztetés"];
        assert(views(indicators@) =~= warning_indicators());
        let lower = lowered_chars(clause.clause_text.as_str());
        let warned = contains_any(&lower, &indicators);
        self.transparency_score = if warned {
            6000
        } else {
            1000
        };
        if !warned {
            let ghost before = string_views(self.eu_compliance_issues@);
            self.eu_compliance_issues.push(
                String::from_str(
                    "Insufficient warning about currency risk (Andriciuc v. Banca Românească)",
                ),
            );
            assert(string_views(self.eu_compliance_issues@) =~= before + seq![
                "Insufficient warning about currency risk (Andriciuc v. Banca Românească)"@,
            ]);
            self.hungarian_law_issues.push(
                String::from_str(
                    "Violation of transparency requirements under Hungarian consumer protection law",
                ),
            );
            self.suggested_challenges.push(
                String::from_str("Challenge under EU Directive 93/13/EEC for lack of transparency"),
            );
            self.suggested_challenges.push(
                String::from_str("Cite CJEU precedents on FX risk disclosure requirements"),
            );
        } else {
            assert(string_views(self.eu_compliance_issues@) =~= string_views(
                self.eu_compliance_issues@,
            ) + Seq::<Seq<char>>::empty());
        }
    }
}

} // verus!
