//! Extraction of typed, scored clauses from a document's text.

use vstd::prelude::*;
use vstd::string::*;
use crate::text::{SCALE, lower_of, has_term, lowered_chars, contains_term, chars_of, same_text};
use crate::clause::{
    ClauseCategory, ClauseView, ExtractedClause, clause_record, clause_views, all_wf, views,
    has_any, contains_any,
};
use crate::pattern::{
    regex_spans, spans_view, find_spans, char_index, char_index_of, lemma_char_index,
    window_start, window_end, substring,
};
use crate::language_detector::{LanguageDetector, detection_of};

verus! {

/// Which language's pattern lists apply to a text.
#[derive(Clone, Copy, Debug, PartialEq, Eq, Structural)]
pub enum PatternSet {
    Hungarian,
    English,
}

/// English for "en" and "english"; Hungarian, the regional default, for
/// every other code.
pub open spec fn pattern_set_of(lang: Seq<char>) -> PatternSet {
    if lang == "en"@ || lang == "english"@ {
        PatternSet::English
    } else {
        PatternSet::Hungarian
    }
}

pub fn pattern_set(lang: &str) -> (r: PatternSet)
    ensures
        r == pattern_set_of(lang@),
{
    if same_text(lang, "en") || same_text(lang, "english") {
        PatternSet::English
    } else {
        PatternSet::Hungarian
    }
}

/// The patterns of a category in a pattern set.
pub open spec fn category_patterns(cat: ClauseCategory, set: PatternSet) -> Seq<Seq<char>> {
    match (cat, set) {
        (ClauseCategory::FxRisk, PatternSet::Hungarian) => seq![
            "(?i)devizaalapú\\s+hitel"@,
            "(?i)árfolyamkockázat"@,
            "(?i)deviza.*kockázat"@,
            "(?i)svájci\\s+frank"@,
            "(?i)CHF.*alapú"@,
            "(?i)devizában\\s+denominált"@,
            "(?i)árfolyam.*változás"@,
            "(?i)deviza.*kamat"@,
        ],
        (ClauseCategory::FxRisk, PatternSet::English) => seq![
            "(?i)foreign\\s+currency\\s+loan"@,
            "(?i)exchange\\s+rate\\s+risk"@,
            "(?i)currency\\s+fluctuation"@,
            "(?i)Swiss\\s+franc"@,
            "(?i)CHF\\s+loan"@,
            "(?i)foreign\\s+exchange"@,
            "(?i)currency\\s+exposure"@,
            "(?i)FX\\s+risk"@,
        ],
        (ClauseCategory::Transparency, PatternSet::Hungarian) => seq![
            "(?i)tájékoztatás.*kockázat"@,
            "(?i)figyelmeztetés"@,
            "(?i)kockázat.*ismertetés"@,
            "(?i)információ.*nyújtás"@,
            "(?i)kockázat.*felvilágosítás"@,
            "(?i)nem\\s+(volt\\s+)?tájékoztat"@,
        ],
        (ClauseCategory::Transparency, PatternSet::English) => seq![
            "(?i)risk\\s+disclosure"@,
            "(?i)information\\s+provided"@,
            "(?i)warning.*risk"@,
            "(?i)disclosure.*currency"@,
            "(?i)informed.*decision"@,
        ],
        (ClauseCategory::InterestRate, PatternSet::Hungarian) => seq![
            "(?i)kamat.*változás"@,
            "(?i)kamatláb.*módosítás"@,
            "(?i)kamat.*emelés"@,
            "(?i)változó\\s+kamat"@,
            "(?i)kamat.*feltétel"@,
        ],
        (ClauseCategory::InterestRate, PatternSet::English) => seq![
            "(?i)interest\\s+rate\\s+change"@,
            "(?i)variable\\s+interest"@,
            "(?i)rate\\s+adjustment"@,
            "(?i)interest.*modification"@,
            "(?i)rate\\s+variation"@,
        ],
        (ClauseCategory::Penalty, PatternSet::Hungarian) => seq![
            "(?i)késedelmi\\s+kamat"@,
            "(?i)díj.*felszámítás"@,
            "(?i)költség.*visel"@,
            "(?i)bírság"@,
            "(?i)pótlék.*fizetés"@,
        ],
        (ClauseCategory::Penalty, PatternSet::English) => seq![
            "(?i)penalty.*fee"@,
            "(?i)additional\\s+charges"@,
            "(?i)late\\s+payment"@,
            "(?i)default\\s+interest"@,
            "(?i)administrative\\s+fee"@,
        ],
        (ClauseCategory::UnfairTerm, _) => seq![
            "(?i)(bank|hitelező).*jogosult.*egyoldalú"@,
            "(?i)bank.*right.*unilateral"@,
            "(?i)szerződés.*módosítás.*bank"@,
            "(?i)contract.*modification.*bank"@,
            "(?i)kizárólag.*bank.*dönt"@,
            "(?i)solely.*bank.*discretion"@,
        ],
    }
}

fn pattern_list(cat: ClauseCategory, set: PatternSet) -> (r: Vec<&'static str>)
    ensures
        views(r@) == category_patterns(cat, set),
{
    let r = match (cat, set) {
        (ClauseCategory::FxRisk, PatternSet::Hungarian) => vec![
            "(?i)devizaalapú\\s+hitel",
            "(?i)árfolyamkockázat",
            "(?i)deviza.*kockázat",
            "(?i)svájci\\s+frank",
            "(?i)CHF.*alapú",
            "(?i)devizában\\s+denominált",
            "(?i)árfolyam.*változás",
            "(?i)deviza.*kamat",
        ],
        (ClauseCategory::FxRisk, PatternSet::English) => vec![
            "(?i)foreign\\s+currency\\s+loan",
            "(?i)exchange\\s+rate\\s+risk",
            "(?i)currency\\s+fluctuation",
            "(?i)Swiss\\s+franc",
            "(?i)CHF\\s+loan",
            "(?i)foreign\\s+exchange",
            "(?i)currency\\s+exposure",
            "(?i)FX\\s+risk",
        ],
        (ClauseCategory::Transparency, PatternSet::Hungarian) => vec![
            "(?i)tájékoztatás.*kockázat",
            "(?i)figyelmeztetés",
            "(?i)kockázat.*ismertetés",
            "(?i)információ.*nyújtás",
            "(?i)kockázat.*felvilágosítás",
            "(?i)nem\\s+(volt\\s+)?tájékoztat",
        ],
        (ClauseCategory::Transparency, PatternSet::English) => vec![
            "(?i)risk\\s+disclosure",
            "(?i)information\\s+provided",
            "(?i)warning.*risk",
            "(?i)disclosure.*currency",
            "(?i)informed.*decision",
        ],
        (ClauseCategory::InterestRate, PatternSet::Hungarian) => vec![
            "(?i)kamat.*változás",
            "(?i)kamatláb.*módosítás",
            "(?i)kamat.*emelés",
            "(?i)változó\\s+kamat",
            "(?i)kamat.*feltétel",
        ],
        (ClauseCategory::InterestRate, PatternSet::English) => vec![
            "(?i)interest\\s+rate\\s+change",
            "(?i)variable\\s+interest",
            "(?i)rate\\s+adjustment",
            "(?i)interest.*modification",
            "(?i)rate\\s+variation",
        ],
        (ClauseCategory::Penalty, PatternSet::Hungarian) => vec![
            "(?i)késedelmi\\s+kamat",
            "(?i)díj.*felszámítás",
            "(?i)költség.*visel",
            "(?i)bírság",
            "(?i)pótlék.*fizetés",
        ],
        (ClauseCategory::Penalty, PatternSet::English) => vec![
            "(?i)penalty.*fee",
            "(?i)additional\\s+charges",
            "(?i)late\\s+payment",
            "(?i)default\\s+interest",
            "(?i)administrative\\s+fee",
        ],
        (ClauseCategory::UnfairTerm, _) => vec![
            "(?i)(bank|hitelező).*jogosult.*egyoldalú",
            "(?i)bank.*right.*unilateral",
            "(?i)szerződés.*módosítás.*bank",
            "(?i)contract.*modification.*bank",
            "(?i)kizárólag.*bank.*dönt",
            "(?i)solely.*bank.*discretion",
        ],
    };
    assert(views(r@) =~= category_patterns(cat, set));
    r
}

/// Characters of context kept on each side of a match.
pub open spec fn context_radius(cat: ClauseCategory) -> int {
    match cat {
        ClauseCategory::FxRisk => 100,
        ClauseCategory::Transparency => 75,
        ClauseCategory::InterestRate => 60,
        ClauseCategory::Penalty => 50,
        ClauseCategory::UnfairTerm => 90,
    }
}

fn radius(cat: ClauseCategory) -> (r: usize)
    ensures
        r == context_radius(cat),
{
    match cat {
        ClauseCategory::FxRisk => 100,
        ClauseCategory::Transparency => 75,
        ClauseCategory::InterestRate => 60,
        ClauseCategory::Penalty => 50,
        ClauseCategory::UnfairTerm => 90,
    }
}

/// A value clamped to the score range.
pub open spec fn clamp_score(x: int) -> int {
    if x < 0 {
        0
    } else if x > SCALE {
        SCALE as int
    } else {
        x
    }
}

/// Words that name a foreign currency, or foreign currency and its exchange
/// rate as such.
pub open spec fn fx_currency_terms() -> Seq<Seq<char>> {
    seq![
        "chf"@,
        "svájci frank"@,
        "swiss franc"@,
        "árfolyam"@,
        "deviza"@,
        "exchange rate"@,
        "foreign currency"@,
    ]
}

pub open spec fn fx_risk_terms() -> Seq<Seq<char>> {
    seq!["kockázat"@, "risk"@]
}

pub open spec fn fx_warning_terms() -> Seq<Seq<char>> {
    seq!["tájékoztatás"@, "figyelmeztetés"@, "warning"@, "disclosure"@]
}

/// Confidence that a lower-cased context window shows foreign-currency risk:
/// 0.5, +0.3 for a named currency or exchange-rate word, +0.2 for a risk word, +0.1 for a warning
/// word and -0.1 without one, clamped.
pub open spec fn fx_confidence(lower: Seq<char>) -> int {
    clamp_score(
        5000 + (if has_any(lower, fx_currency_terms()) {
            3000int
        } else {
            0
        }) + (if has_any(lower, fx_risk_terms()) {
            2000int
        } else {
            0
        }) + (if has_any(lower, fx_warning_terms()) {
            1000int
        } else {
            -1000
        }),
    )
}

pub open spec fn transparency_terms() -> Seq<Seq<char>> {
    seq![
        "tájékoztatás"@,
        "information"@,
        "disclosure"@,
        "warning"@,
        "figyelmeztetés"@,
        "risk"@,
        "kockázat"@,
    ]
}

/// Number of the terms of `terms` that occur in `hay`.
pub open spec fn count_present(hay: Seq<char>, terms: Seq<Seq<char>>) -> int
    decreases terms.len(),
{
    if terms.len() == 0 {
        0
    } else {
        count_present(hay, terms.drop_last()) + if has_term(hay, terms.last()) {
            1int
        } else {
            0
        }
    }
}

/// Confidence that a lower-cased context window concerns transparency:
/// 0.4, +0.1 per indicator word, +0.3 when a negation and "inform" occur
/// together, clamped.
pub open spec fn transparency_confidence(lower: Seq<char>) -> int {
    clamp_score(
        4000 + 1000 * count_present(lower, transparency_terms()) + if has_term(lower, "nem"@)
            && has_term(lower, "tájékoztat"@) {
            3000int
        } else {
            0
        },
    )
}

/// Confidence of a clause of a category, from its lower-cased context.
pub open spec fn confidence_for(cat: ClauseCategory, lower: Seq<char>) -> int {
    match cat {
        ClauseCategory::FxRisk => fx_confidence(lower),
        ClauseCategory::Transparency => transparency_confidence(lower),
        ClauseCategory::InterestRate => 7000,
        ClauseCategory::Penalty => 8000,
        ClauseCategory::UnfairTerm => 6000,
    }
}

/// Whether a clause of a category with this confidence is kept.
pub open spec fn accepted(cat: ClauseCategory, confidence: int) -> bool {
    match cat {
        ClauseCategory::FxRisk => confidence > 3000,
        ClauseCategory::Transparency => confidence > 4000,
        _ => true,
    }
}

/// The clause recorded for a match with byte span `span`.
pub open spec fn clause_at(
    doc: u128,
    text: Seq<char>,
    lang: Seq<char>,
    cat: ClauseCategory,
    span: (int, int),
) -> ClauseView {
    let cs = char_index(text, span.0);
    let ce = char_index(text, span.1);
    let ctx = text.subrange(
        window_start(cs, context_radius(cat)),
        window_end(text.len() as int, ce, context_radius(cat)),
    );
    clause_record(
        doc,
        cat,
        ctx,
        lang,
        Some(cs as usize),
        Some(ce as usize),
        confidence_for(cat, lower_of(ctx)),
    )
}

/// The kept clauses for a list of match spans, in order.
pub open spec fn span_clauses(
    doc: u128,
    text: Seq<char>,
    lang: Seq<char>,
    cat: ClauseCategory,
    spans: Seq<(int, int)>,
) -> Seq<ClauseView>
    decreases spans.len(),
{
    if spans.len() == 0 {
        Seq::empty()
    } else {
        let prev = span_clauses(doc, text, lang, cat, spans.drop_last());
        let c = clause_at(doc, text, lang, cat, spans.last());
        if accepted(cat, c.confidence) {
            prev.push(c)
        } else {
            prev
        }
    }
}

/// The clauses that a list of patterns yields, pattern after pattern; a
/// pattern that does not compile yields none.
pub open spec fn pattern_clauses(
    doc: u128,
    text: Seq<char>,
    lang: Seq<char>,
    cat: ClauseCategory,
    patterns: Seq<Seq<char>>,
) -> Seq<ClauseView>
    decreases patterns.len(),
{
    if patterns.len() == 0 {
        Seq::empty()
    } else {
        pattern_clauses(doc, text, lang, cat, patterns.drop_last()) + match regex_spans(
            patterns.last(),
            text,
        ) {
            None => Seq::empty(),
            Some(spans) => span_clauses(doc, text, lang, cat, spans),
        }
    }
}

/// The clauses of one category.
pub open spec fn category_clauses(
    doc: u128,
    text: Seq<char>,
    lang: Seq<char>,
    cat: ClauseCategory,
) -> Seq<ClauseView> {
    pattern_clauses(doc, text, lang, cat, category_patterns(cat, pattern_set_of(lang)))
}

/// The clauses of all categories, in the order fx risk, transparency,
/// interest rate, penalty, unfair term.
pub open spec fn all_clauses(doc: u128, text: Seq<char>, lang: Seq<char>) -> Seq<ClauseView> {
    category_clauses(doc, text, lang, ClauseCategory::FxRisk) + category_clauses(
        doc,
        text,
        lang,
        ClauseCategory::Transparency,
    ) + category_clauses(doc, text, lang, ClauseCategory::InterestRate) + category_clauses(
        doc,
        text,
        lang,
        ClauseCategory::Penalty,
    ) + category_clauses(doc, text, lang, ClauseCategory::UnfairTerm)
}

/// The language a run uses: the given code, or the detected one when the
/// code is "unknown" or empty.
pub open spec fn resolved_language(text: Seq<char>, lang: Seq<char>) -> Seq<char> {
    if lang == "unknown"@ || lang.len() == 0 {
        detection_of(text).language
    } else {
        lang
    }
}

/// Sum of the confidences of a list of clauses.
pub open spec fn confidence_sum(s: Seq<ClauseView>) -> int
    decreases s.len(),
{
    if s.len() == 0 {
        0
    } else {
        confidence_sum(s.drop_last()) + s.last().confidence
    }
}

/// Mean confidence of a list of clauses, 0 for none.
pub open spec fn mean_confidence(s: Seq<ClauseView>) -> int {
    if s.len() == 0 {
        0
    } else {
        confidence_sum(s) / (s.len() as int)
    }
}

/// What a run of the extractor states.
pub struct ExtractionView {
    pub clauses: Seq<ClauseView>,
    pub confidence: int,
    pub language: Seq<char>,
}

/// The result of extracting from `text` with language code `lang`.
pub open spec fn extraction_of(doc: u128, text: Seq<char>, lang: Seq<char>) -> ExtractionView {
    let l = resolved_language(text, lang);
    let cs = if text.len() == 0 {
        Seq::empty()
    } else {
        all_clauses(doc, text, l)
    };
    ExtractionView { clauses: cs, confidence: mean_confidence(cs), language: l }
}

/// The clauses found in a document, their mean confidence and the language used.
#[derive(Debug)]
pub struct ExtractionResult {
    pub clauses: Vec<ExtractedClause>,
    pub confidence: u32,
    pub language_detected: String,
}

impl View for ExtractionResult {
    type V = ExtractionView;

    open spec fn view(&self) -> ExtractionView {
        ExtractionView {
            clauses: clause_views(self.clauses@),
            confidence: self.confidence as int,
            language: self.language_detected@,
        }
    }
}

fn list_of(terms: Ghost<Seq<Seq<char>>>, v: Vec<&'static str>) -> (r: Vec<&'static str>)
    requires
        views(v@) =~= terms@,
    ensures
        views(r@) == terms@,
{
    v
}

/// Confidence that a lower-cased context shows foreign-currency risk.
pub fn fx_confidence_of_lower(lower: &Vec<char>) -> (r: u32)
    ensures
        r == fx_confidence(lower@),
{
    let currency = list_of(
        Ghost(fx_currency_terms()),
        vec![
            "chf",
            "svájci frank",
            "swiss franc",
            "árfolyam",
            "deviza",
            "exchange rate",
            "foreign currency",
        ],
    );
    let risk = list_of(Ghost(fx_risk_terms()), vec!["kockázat", "risk"]);
    let warning = list_of(
        Ghost(fx_warning_terms()),
        vec!["tájékoztatás", "figyelmeztetés", "warning", "disclosure"],
    );
    let mut c: i64 = 5000;
    if contains_any(lower, &currency) {
        c = c + 3000;
    }
    if contains_any(lower, &risk) {
        c = c + 2000;
    }
    if contains_any(lower, &warning) {
        c = c + 1000;
    } else {
        c = c - 1000;
    }
    if c > 10000 {
        SCALE
    } else {
        c as u32
    }
}

/// Confidence that a context shows foreign-currency risk, in any letter case.
pub fn calculate_fx_confidence(context: &str) -> (r: u32)
    ensures
        r == fx_confidence(lower_of(context@)),
{
    let lower = lowered_chars(context);
    fx_confidence_of_lower(&lower)
}

/// Confidence that a lower-cased context concerns transparency.
pub fn transparency_confidence_of_lower(lower: &Vec<char>) -> (r: u32)
    ensures
        r == transparency_confidence(lower@),
{
    let terms = list_of(
        Ghost(transparency_terms()),
        vec!["tájékoztatás", "information", "disclosure", "warning", "figyelmeztetés", "risk", "kockázat"],
    );
    let mut found: u64 = 0;
    let mut k: usize = 0;
    while k < terms.len()
        invariant
            k <= terms@.len(),
            views(terms@) == transparency_terms(),
            found == count_present(lower@, transparency_terms().take(k as int)),
            found <= k,
        decreases terms@.len() - k,
    {
        proof {
            assert(transparency_terms().take(k + 1).drop_last() =~= transparency_terms().take(
                k as int,
            ));
            assert(views(terms@)[k as int] == terms@[k as int]@);
        }
        if contains_term(lower, terms[k]) {
            found = found + 1;
        }
        k = k + 1;
    }
    assert(transparency_terms().take(7) =~= transparency_terms());
    let mut c: u64 = 4000 + 1000 * found;
    if contains_term(lower, "nem") && contains_term(lower, "tájékoztat") {
        c = c + 3000;
    }
    if c > 10000 {
        SCALE
    } else {
        c as u32
    }
}

/// Confidence that a context concerns transparency, in any letter case.
pub fn calculate_transparency_confidence(context: &str) -> (r: u32)
    ensures
        r == transparency_confidence(lower_of(context@)),
{
    let lower = lowered_chars(context);
    transparency_confidence_of_lower(&lower)
}

fn confidence_of(cat: ClauseCategory, context: &str) -> (r: u32)
    ensures
        r == confidence_for(cat, lower_of(context@)),
        r <= SCALE,
{
    match cat {
        ClauseCategory::FxRisk => calculate_fx_confidence(context),
        ClauseCategory::Transparency => calculate_transparency_confidence(context),
        ClauseCategory::InterestRate => 7000,
        ClauseCategory::Penalty => 8000,
        ClauseCategory::UnfairTerm => 6000,
    }
}

fn is_accepted(cat: ClauseCategory, confidence: u32) -> (r: bool)
    ensures
        r == accepted(cat, confidence as int),
{
    match cat {
        ClauseCategory::FxRisk => confidence > 3000,
        ClauseCategory::Transparency => confidence > 4000,
        _ => true,
    }
}

/// Applies the multilingual clause patterns to texts.
pub struct ClauseExtractor {
    language_detector: LanguageDetector,
}

impl ClauseExtractor {
    pub closed spec fn wf(&self) -> bool {
        self.language_detector.wf()
    }

    pub fn new() -> (r: Self)
        ensures
            r.wf(),
    {
        ClauseExtractor { language_detector: LanguageDetector::new() }
    }

    /// The clause for one match span, if its confidence is high enough.
    fn clause_for_span(
        doc: u128,
        text: &str,
        chars: &Vec<char>,
        lang: &str,
        cat: ClauseCategory,
        span: (usize, usize),
    ) -> (r: Option<ExtractedClause>)
        requires
            chars@ == text@,
            span.0 <= span.1,
        ensures
            ({
                let c = clause_at(doc, text@, lang@, cat, (span.0 as int, span.1 as int));
                &&& r is Some <==> accepted(cat, c.confidence)
                &&& r matches Some(x) ==> x@ == c && x.wf()
            }),
    {
        proof {
            lemma_char_index(text@, span.0 as int, span.1 as int);
        }
        let cs = char_index_of(chars, span.0);
        let ce = char_index_of(chars, span.1);
        let rad = radius(cat);
        let n = chars.len();
        let ws = if cs >= rad {
            cs - rad
        } else {
            0
        };
        let we = if rad >= n - ce {
            n
        } else {
            ce + rad
        };
        let ctx = substring(text, ws, we);
        let conf = confidence_of(cat, ctx.as_str());
        if is_accepted(cat, conf) {
            let mut c = ExtractedClause::new(doc, cat, ctx, String::from_str(lang), conf);
            c.start_position = Some(cs);
            c.end_position = Some(ce);
            Some(c)
        } else {
            None
        }
    }

    /// The kept clauses of a category for a list of byte spans of `text`,
    /// in order.
    pub fn clauses_for_spans(
        doc: u128,
        text: &str,
        lang: &str,
        cat: ClauseCategory,
        spans: &Vec<(usize, usize)>,
    ) -> (r: Vec<ExtractedClause>)
        requires
            forall|k: int| 0 <= k < spans@.len() ==> spans@[k].0 <= spans@[k].1,
        ensures
            clause_views(r@) == span_clauses(doc, text@, lang@, cat, spans_view(spans@)),
            all_wf(r@),
    {
        let chars = chars_of(text);
        let ghost sv = spans_view(spans@);
        let mut out: Vec<ExtractedClause> = Vec::new();
        let mut j: usize = 0;
        assert(clause_views(out@) =~= span_clauses(doc, text@, lang@, cat, sv.take(0)));
        while j < spans.len()
            invariant
                j <= spans@.len(),
                chars@ == text@,
                sv == spans_view(spans@),
                forall|k: int| 0 <= k < spans@.len() ==> spans@[k].0 <= spans@[k].1,
                clause_views(out@) == span_clauses(doc, text@, lang@, cat, sv.take(j as int)),
                all_wf(out@),
            decreases spans@.len() - j,
        {
            assert(sv.take(j + 1).drop_last() =~= sv.take(j as int));
            let ghost prev = clause_views(out@);
            match Self::clause_for_span(doc, text, &chars, lang, cat, spans[j]) {
                Some(c) => {
                    out.push(c);
                    assert(clause_views(out@) =~= prev.push(c@));
                },
                None => {},
            }
            j = j + 1;
        }
        assert(sv.take(j as int) =~= sv);
        out
    }

    /// The clauses of one category, pattern after pattern and match after match.
    fn extract_category(
        doc: u128,
        text: &str,
        lang: &str,
        cat: ClauseCategory,
    ) -> (r: Vec<ExtractedClause>)
        ensures
            clause_views(r@) == category_clauses(doc, text@, lang@, cat),
            all_wf(r@),
    {
        let pats = pattern_list(cat, pattern_set(lang));
        let ghost pv = views(pats@);
        let mut out: Vec<ExtractedClause> = Vec::new();
        let mut i: usize = 0;
        while i < pats.len()
            invariant
                i <= pats@.len(),
                pv == views(pats@),
                pv == category_patterns(cat, pattern_set_of(lang@)),
                clause_views(out@) == pattern_clauses(doc, text@, lang@, cat, pv.take(i as int)),
                all_wf(out@),
            decreases pats@.len() - i,
        {
            proof {
                assert(pv.take(i + 1).drop_last() =~= pv.take(i as int));
                assert(pv[i as int] == pats@[i as int]@);
            }
            let ghost base = clause_views(out@);
            let ghost w0 = out@;
            match find_spans(pats[i], text) {
                None => {
                    assert(base + Seq::<ClauseView>::empty() =~= base);
                },
                Some(spans) => {
                    let mut more = Self::clauses_for_spans(doc, text, lang, cat, &spans);
                    let ghost w1 = more@;
                    out.append(&mut more);
                    assert(out@ =~= w0 + w1);
                    assert(clause_views(out@) =~= base + clause_views(w1));
                    assert(all_wf(out@)) by {
                        assert forall|k: int| 0 <= k < out@.len() implies (#[trigger] out@[k]).wf() by {
                            if k < w0.len() {
                                assert(out@[k] == w0[k]);
                            } else {
                                assert(out@[k] == w1[k - w0.len()]);
                            }
                        }
                    }
                },
            }
            i = i + 1;
        }
        assert(pv.take(i as int) =~= pv);
        out
    }

    /// Clauses of every category found in `text`, their mean confidence, and
    /// the language used: `language`, or the detected language when it is
    /// "unknown" or empty. An empty text gives no clause and confidence 0.
    pub fn extract_clauses(&self, document_id: u128, text: &str, language: &str) -> (r:
        ExtractionResult)
        requires
            self.wf(),
        ensures
            r@ == extraction_of(document_id, text@, language@),
            all_wf(r.clauses@),
    {
        let lang = if same_text(language, "unknown") || language.is_empty() {
            self.language_detector.detect_language(text).language
        } else {
            String::from_str(language)
        };
        if text.is_empty() {
            let r = ExtractionResult { clauses: Vec::new(), confidence: 0, language_detected: lang };
            assert(clause_views(r.clauses@) =~= Seq::<ClauseView>::empty());
            return r;
        }
        let l = lang.as_str();
        let mut clauses = Self::extract_category(document_id, text, l, ClauseCategory::FxRisk);
        let mut t = Self::extract_category(document_id, text, l, ClauseCategory::Transparency);
        let mut ir = Self::extract_category(document_id, text, l, ClauseCategory::InterestRate);
        let mut p = Self::extract_category(document_id, text, l, ClauseCategory::Penalty);
        let mut u = Self::extract_category(document_id, text, l, ClauseCategory::UnfairTerm);
        let ghost v1 = clause_views(clauses@);
        let ghost v2 = clause_views(t@);
        let ghost v3 = clause_views(ir@);
        let ghost v4 = clause_views(p@);
        let ghost v5 = clause_views(u@);
        let ghost w1 = clauses@;
        let ghost w2 = t@;
        let ghost w3 = ir@;
        let ghost w4 = p@;
        let ghost w5 = u@;
        clauses.append(&mut t);
        clauses.append(&mut ir);
        clauses.append(&mut p);
        clauses.append(&mut u);
        assert(clauses@ =~= w1 + w2 + w3 + w4 + w5);
        assert(clause_views(clauses@) =~= v1 + v2 + v3 + v4 + v5);
        assert(all_wf(clauses@)) by {
            assert forall|k: int| 0 <= k < clauses@.len() implies (#[trigger] clauses@[k]).wf() by {
                if k < w1.len() {
                    assert(clauses@[k] == w1[k]);
                } else if k < w1.len() + w2.len() {
                    assert(clauses@[k] == w2[k - w1.len()]);
                } else if k < w1.len() + w2.len() + w3.len() {
                    assert(clauses@[k] == w3[k - w1.len() - w2.len()]);
                } else if k < w1.len() + w2.len() + w3.len() + w4.len() {
                    assert(clauses@[k] == w4[k - w1.len() - w2.len() - w3.len()]);
                } else {
                    assert(clauses@[k] == w5[k - w1.len() - w2.len() - w3.len() - w4.len()]);
                }
            }
        }
        let confidence = mean_of(&clauses);
        ExtractionResult { clauses, confidence, language_detected: lang }
    }
}

/// Mean confidence of a list of clauses, 0 for an empty list.
pub fn mean_of(clauses: &Vec<ExtractedClause>) -> (r: u32)
    requires
        all_wf(clauses@),
    ensures
        r == mean_confidence(clause_views(clauses@)),
        r <= SCALE,
{
    let ghost cv = clause_views(clauses@);
    let mut sum: u128 = 0;
    let mut i: usize = 0;
    while i < clauses.len()
        invariant
            i <= clauses@.len(),
            cv == clause_views(clauses@),
            all_wf(clauses@),
            sum == confidence_sum(cv.take(i as int)),
            sum <= (SCALE as int) * i,
        decreases clauses@.len() - i,
    {
        proof {
            assert(cv.take(i + 1).drop_last() =~= cv.take(i as int));
            assert(clauses@[i as int].wf());
        }
        sum = sum + clauses[i].confidence_score as u128;
        i = i + 1;
    }
    assert(cv.take(i as int) =~= cv);
    if i == 0 {
        0
    } else {
        proof {
            let s = sum as int;
            let n = i as int;
            assert(s / n <= 10000) by (nonlinear_arith)
                requires
                    s <= 10000 * n,
                    n > 0,
                    s >= 0,
            ;
        }
        (sum / (i as u128)) as u32
    }
}

} // verus!
