//! Precedent rulings and the result of matching one against clauses.

use vstd::prelude::*;
use vstd::string::*;
use crate::text::{lower_of, lowered_chars, chars_of, starts_with, begins_with};
use crate::clause::{ClauseCategory, views, has_any, contains_any};

verus! {

/// A calendar date held as plain numbers.
#[derive(Clone, Copy, Debug, PartialEq, Eq, Structural)]
pub struct CaseDate {
    pub year: i32,
    pub month: u32,
    pub day: u32,
}

impl CaseDate {
    /// A year of four digits, a month and a day in range.
    pub open spec fn valid(self) -> bool {
        1 <= self.year <= 9999 && 1 <= self.month <= 12 && 1 <= self.day <= 31
    }
}

/// A judicial ruling used as a precedent.
#[derive(Debug)]
pub struct LegalCase {
    pub id: u128,
    pub case_number: String,
    pub case_name: String,
    pub country: String,
    pub date: CaseDate,
    pub currency: String,
    pub key_ruling: String,
    pub full_text: Option<String>,
    pub court: Option<String>,
    pub case_type: String,
    pub significance_score: Option<u32>,
}

fn copy_text(s: &Option<String>) -> (r: Option<String>)
    ensures
        r == *s,
{
    match s {
        Some(t) => Some(t.clone()),
        None => None,
    }
}

impl LegalCase {
    /// A field-by-field copy.
    pub fn duplicate(&self) -> (r: LegalCase)
        ensures
            r == *self,
    {
        LegalCase {
            id: self.id,
            case_number: self.case_number.clone(),
            case_name: self.case_name.clone(),
            country: self.country.clone(),
            date: self.date,
            currency: self.currency.clone(),
            key_ruling: self.key_ruling.clone(),
            full_text: copy_text(&self.full_text),
            court: copy_text(&self.court),
            case_type: self.case_type.clone(),
            significance_score: self.significance_score,
        }
    }

    /// Whether the case concerns a foreign-currency loan.
    pub fn is_foreign_currency_case(&self) -> (r: bool)
        ensures
            r == is_fx_case(*self),
    {
        let raw = vec!["CHF", "EUR", "USD", "foreign currency", "deviza", "waluta"];
        let low = vec!["chf", "eur", "usd", "foreign currency", "deviza", "waluta"];
        assert(views(raw@) =~= fx_case_indicators());
        assert(views(low@) =~= fx_case_indicators_lower());
        let cur = chars_of(self.currency.as_str());
        if contains_any(&cur, &raw) {
            return true;
        }
        let ruling = lowered_chars(self.key_ruling.as_str());
        if contains_any(&ruling, &low) {
            return true;
        }
        let name = lowered_chars(self.case_name.as_str());
        contains_any(&name, &low)
    }

    /// "CJEU" for a case of the Court of Justice (number "C-..."), else the
    /// country.
    pub fn get_jurisdiction(&self) -> (r: String)
        ensures
            r@ == jurisdiction_of(*self),
    {
        if begins_with(self.case_number.as_str(), "C-") {
            String::from_str("CJEU")
        } else {
            self.country.clone()
        }
    }
}

pub open spec fn fx_case_indicators() -> Seq<Seq<char>> {
    seq!["CHF"@, "EUR"@, "USD"@, "foreign currency"@, "deviza"@, "waluta"@]
}

pub open spec fn fx_case_indicators_lower() -> Seq<Seq<char>> {
    seq!["chf"@, "eur"@, "usd"@, "foreign currency"@, "deviza"@, "waluta"@]
}

/// A currency indicator occurs in the currency as written, or in the ruling
/// or the case name in any letter case.
pub open spec fn is_fx_case(c: LegalCase) -> bool {
    has_any(c.currency@, fx_case_indicators()) || has_any(
        lower_of(c.key_ruling@),
        fx_case_indicators_lower(),
    ) || has_any(lower_of(c.case_name@), fx_case_indicators_lower())
}

/// A case of the Court of Justice of the European Union.
pub open spec fn is_cjeu(c: LegalCase) -> bool {
    starts_with(c.case_number@, "C-"@)
}

pub open spec fn jurisdiction_of(c: LegalCase) -> Seq<char> {
    if is_cjeu(c) {
        "CJEU"@
    } else {
        c.country@
    }
}

/// A precedent scored against one clause or against a whole clause list.
#[derive(Debug)]
pub struct CaseMatch {
    pub case: LegalCase,
    pub similarity_score: u32,
    pub matching_clauses: Vec<ClauseCategory>,
    pub relevance_explanation: String,
}

} // verus!
