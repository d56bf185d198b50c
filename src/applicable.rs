//! Citations, key principles and application notes for matched precedents.

use vstd::prelude::*;
use vstd::string::*;
use crate::text::{string_views, lower_of, has_term, lowered_chars, contains_term, same_text, fixed_digits, fixed_width};
use crate::case::{LegalCase, CaseMatch, is_cjeu, jurisdiction_of};
use crate::precedent_matcher::{PrecedentMatcher, year_text};

verus! {

/// A precedent as it is cited in a research sheet.
#[derive(Debug)]
pub struct ApplicablePrecedent {
    pub case_id: u128,
    pub case_number: String,
    pub case_name: String,
    pub jurisdiction: String,
    pub relevance_score: u32,
    pub key_principles: Vec<String>,
    pub citation_text: String,
    pub application_notes: String,
}

/// Two digits of a month or day.
pub open spec fn two_digits(n: int) -> Seq<char> {
    fixed_digits(n as nat, 2)
}

/// The citation of a ruling: the European form with its ECLI date for the
/// Court of Justice, the national form with court, country and year else.
pub open spec fn citation_text(c: LegalCase) -> Seq<char> {
    if is_cjeu(c) {
        "Case "@ + c.case_number@ + ", "@ + c.case_name@ + ", ECLI:EU:C:"@ + year_text(
            c.date.year as int,
        ) + ":"@ + two_digits(c.date.month as int) + ":"@ + two_digits(c.date.day as int)
    } else {
        c.case_name@ + ", "@ + (match c.court {
            Some(s) => s@,
            None => "Court"@,
        }) + " ("@ + c.country@ + " "@ + year_text(c.date.year as int) + ")"@
    }
}

pub open spec fn principle_information() -> Seq<char> {
    "Banks must provide adequate information about currency risks"@
}

pub open spec fn principle_unfair_currency() -> Seq<char> {
    "Currency clauses placing disproportionate risk on consumers are unfair"@
}

pub open spec fn principle_restitution() -> Seq<char> {
    "Full restitution required when contracts are invalidated for unfair terms"@
}

pub open spec fn principle_transparency() -> Seq<char> {
    "Contract terms must be transparent and intelligible"@
}

pub open spec fn principle_invalidity() -> Seq<char> {
    "Contracts with unfair terms can be declared invalid in their entirety"@
}

pub open spec fn opt_text(b: bool, t: Seq<char>) -> Seq<Seq<char>> {
    if b {
        seq![t]
    } else {
        Seq::empty()
    }
}

/// The principles that trigger phrases of a lower-cased ruling establish.
pub open spec fn triggered_principles(r: Seq<char>) -> Seq<Seq<char>> {
    opt_text(
        has_term(r, "adequate information"@) || has_term(r, "sufficient information"@),
        principle_information(),
    ) + opt_text(has_term(r, "unfair"@) && has_term(r, "currency"@), principle_unfair_currency())
        + opt_text(
        has_term(r, "restitution"@) || has_term(r, "compensation"@),
        principle_restitution(),
    ) + opt_text(has_term(r, "transparent"@), principle_transparency()) + opt_text(
        has_term(r, "invalid"@) || has_term(r, "void"@),
        principle_invalidity(),
    )
}

/// The key principles of a ruling; the ruling itself when no trigger
/// phrase occurs.
pub open spec fn key_principles(c: LegalCase) -> Seq<Seq<char>> {
    let t = triggered_principles(lower_of(c.key_ruling@));
    if t.len() == 0 {
        seq![c.key_ruling@]
    } else {
        t
    }
}

/// How a ruling applies, by case number, with a general note for others.
pub open spec fn application_notes(c: LegalCase) -> Seq<char> {
    let n = c.case_number@;
    if n == "C-186/16"@ {
        "Establishes duty to inform consumers about FX risks. Banks must explain how currency depreciation would affect payments."@
    } else if n == "C-705/21"@ || n == "C-630/23"@ {
        "Recent CJEU ruling requiring full contract invalidation when FX risk clauses are unfair. Provides strong precedent for complete restitution."@
    } else if n == "C-520/21"@ {
        "Confirms banks cannot claim compensation when contracts are invalidated. Consumers entitled to full refund of payments made."@
    } else if n == "C-26/13"@ {
        "Early precedent on currency clause transparency. Shows evolution of CJEU thinking toward stronger consumer protection."@
    } else {
        "Relevant precedent from "@ + c.country@ + " addressing foreign currency mortgage issues."@
    }
}

/// `p` presents the precedent of `m`.
pub open spec fn presents(p: ApplicablePrecedent, m: CaseMatch) -> bool {
    &&& p.case_id == m.case.id
    &&& p.case_number@ == m.case.case_number@
    &&& p.case_name@ == m.case.case_name@
    &&& p.jurisdiction@ == jurisdiction_of(m.case)
    &&& p.relevance_score == m.similarity_score
    &&& string_views(p.key_principles@) == key_principles(m.case)
    &&& p.citation_text@ == citation_text(m.case)
    &&& p.application_notes@ == application_notes(m.case)
}

fn push_if(v: &mut Vec<String>, b: bool, t: &str)
    ensures
        string_views(final(v)@) == string_views(old(v)@) + opt_text(b, t@),
{
    let ghost before = string_views(v@);
    if b {
        v.push(String::from_str(t));
        assert(string_views(v@) =~= before + opt_text(b, t@));
    } else {
        assert(string_views(v@) =~= before + opt_text(b, t@));
    }
}

impl PrecedentMatcher {
    /// The citation of a ruling.
    pub fn format_citation(&self, c: &LegalCase) -> (r: String)
        ensures
            r@ == citation_text(*c),
    {
        let y: u64 = if c.date.year < 0 {
            0
        } else {
            c.date.year as u64
        };
        let yt = fixed_width(y, 4);
        if crate::text::begins_with(c.case_number.as_str(), "C-") {
            let mut s = String::from_str("Case ");
            s.append(c.case_number.as_str());
            s.append(", ");
            s.append(c.case_name.as_str());
            s.append(", ECLI:EU:C:");
            s.append(yt.as_str());
            s.append(":");
            let m = fixed_width(c.date.month as u64, 2);
            s.append(m.as_str());
            s.append(":");
            let d = fixed_width(c.date.day as u64, 2);
            s.append(d.as_str());
            s
        } else {
            let mut s = c.case_name.clone();
            s.append(", ");
            let court = match &c.court {
                Some(t) => t.clone(),
                None => String::from_str("Court"),
            };
            s.append(court.as_str());
            s.append(" (");
            s.append(c.country.as_str());
            s.append(" ");
            s.append(yt.as_str());
            s.append(")");
            s
        }
    }

    /// The key principles of a ruling.
    pub fn extract_key_principles(&self, c: &LegalCase) -> (r: Vec<String>)
        ensures
            string_views(r@) == key_principles(*c),
    {
        let l = lowered_chars(c.key_ruling.as_str());
        let mut v: Vec<String> = Vec::new();
        assert(string_views(v@) =~= Seq::<Seq<char>>::empty());
        let a = contains_term(&l, "adequate information") || contains_term(&l, "sufficient information");
        push_if(&mut v, a, "Banks must provide adequate information about currency risks");
        let b = contains_term(&l, "unfair") && contains_term(&l, "currency");
        push_if(&mut v, b, "Currency clauses placing disproportionate risk on consumers are unfair");
        let d = contains_term(&l, "restitution") || contains_term(&l, "compensation");
        push_if(&mut v, d, "Full restitution required when contracts are invalidated for unfair terms");
        let e = contains_term(&l, "transparent");
        push_if(&mut v, e, "Contract terms must be transparent and intelligible");
        let f = contains_term(&l, "invalid") || contains_term(&l, "void");
        push_if(&mut v, f, "Contracts with unfair terms can be declared invalid in their entirety");
        assert(string_views(v@) =~= triggered_principles(l@));
        if v.len() == 0 {
            v.push(c.key_ruling.clone());
            assert(string_views(v@) =~= seq![c.key_ruling@]);
        }
        v
    }

    /// How a ruling applies to a foreign-currency mortgage dispute.
    pub fn generate_application_notes(&self, c: &LegalCase) -> (r: String)
        ensures
            r@ == application_notes(*c),
    {
        let n = c.case_number.as_str();
        if same_text(n, "C-186/16") {
            String::from_str("Establishes duty to inform consumers about FX risks. Banks must explain how currency depreciation would affect payments.")
        } else if same_text(n, "C-705/21") || same_text(n, "C-630/23") {
            String::from_str("Recent CJEU ruling requiring full contract invalidation when FX risk clauses are unfair. Provides strong precedent for complete restitution.")
        } else if same_text(n, "C-520/21") {
            String::from_str("Confirms banks cannot claim compensation when contracts are invalidated. Consumers entitled to full refund of payments made.")
        } else if same_text(n, "C-26/13") {
            String::from_str("Early precedent on currency clause transparency. Shows evolution of CJEU thinking toward stronger consumer protection.")
        } else {
            let mut s = String::from_str("Relevant precedent from ");
            s.append(c.country.as_str());
            s.append(" addressing foreign currency mortgage issues.");
            s
        }
    }

    /// Each matched precedent with its citation, key principles and
    /// application notes.
    pub fn create_applicable_precedents(&self, matches: &Vec<CaseMatch>) -> (r: Vec<ApplicablePrecedent>)
        ensures
            r@.len() == matches@.len(),
            forall|k: int| 0 <= k < r@.len() ==> presents(#[trigger] r@[k], matches@[k]),
    {
        let mut out: Vec<ApplicablePrecedent> = Vec::new();
        let mut k: usize = 0;
        while k < matches.len()
            invariant
                k <= matches@.len(),
                out@.len() == k,
                forall|j: int| 0 <= j < k ==> presents(#[trigger] out@[j], matches@[j]),
            decreases matches@.len() - k,
        {
            let m = &matches[k];
            let c = &m.case;
            let p = ApplicablePrecedent {
                case_id: c.id,
                case_number: c.case_number.clone(),
                case_name: c.case_name.clone(),
                jurisdiction: c.get_jurisdiction(),
                relevance_score: m.similarity_score,
                key_principles: self.extract_key_principles(c),
                citation_text: self.format_citation(c),
                application_notes: self.generate_application_notes(c),
            };
            out.push(p);
            k = k + 1;
        }
        out
    }
}

} // verus!
