//! Guessing the language of a text from frequent-word lists.

use vstd::prelude::*;
use vstd::string::*;
use crate::text::{SCALE, lower_of, lowered_chars, chars_of, same_chars, same_text, split_words, words, char_views, split_at_char, pieces, trim_chars, trimmed, text_of};
use crate::clause::{views, has_any, contains_any};

verus! {

/// The languages the detector scores, in the order that breaks ties.
#[derive(Clone, Copy, Debug, PartialEq, Eq, Structural)]
pub enum Language {
    Hungarian,
    English,
    Czech,
    Polish,
}

impl Language {
    /// Two-letter code of the language.
    pub open spec fn code(self) -> Seq<char> {
        match self {
            Language::Hungarian => "hu"@,
            Language::English => "en"@,
            Language::Czech => "cs"@,
            Language::Polish => "pl"@,
        }
    }

    pub fn as_code(&self) -> (r: &'static str)
        ensures
            r@ == self.code(),
    {
        match self {
            Language::Hungarian => "hu",
            Language::English => "en",
            Language::Czech => "cs",
            Language::Polish => "pl",
        }
    }
}

pub open spec fn hungarian_words() -> Seq<Seq<char>> {
    seq![
        "a"@, "az"@, "és"@, "vagy"@, "de"@, "hogy"@, "nem"@, "van"@, "volt"@, "lesz"@,
        "hitel"@, "bank"@, "szerződés"@, "kamat"@, "deviza"@, "kockázat"@, "árfolyam"@,
        "tájékoztatás"@, "figyelmeztetés"@, "költség"@, "díj"@, "kölcsön"@, "jelzálog"@,
        "törlesztés"@, "részlet"@, "feltétel"@, "módosítás"@, "felmondás"@,
    ]
}

pub open spec fn english_words() -> Seq<Seq<char>> {
    seq![
        "the"@, "and"@, "or"@, "but"@, "that"@, "not"@, "is"@, "was"@, "will"@, "have"@,
        "loan"@, "bank"@, "contract"@, "interest"@, "currency"@, "risk"@, "exchange"@,
        "information"@, "warning"@, "cost"@, "fee"@, "mortgage"@, "payment"@,
        "installment"@, "condition"@, "modification"@, "termination"@,
    ]
}

pub open spec fn czech_words() -> Seq<Seq<char>> {
    seq![
        "a"@, "je"@, "se"@, "na"@, "do"@, "za"@, "od"@, "po"@, "před"@, "při"@,
        "úvěr"@, "banka"@, "smlouva"@, "úrok"@, "měna"@, "riziko"@, "kurz"@,
        "informace"@, "varování"@, "náklad"@, "poplatek"@, "hypotéka"@,
    ]
}

pub open spec fn polish_words() -> Seq<Seq<char>> {
    seq![
        "i"@, "a"@, "w"@, "na"@, "z"@, "do"@, "od"@, "po"@, "przez"@, "przy"@,
        "kredyt"@, "bank"@, "umowa"@, "odsetki"@, "waluta"@, "ryzyko"@, "kurs"@,
        "informacja"@, "ostrzeżenie"@, "koszt"@, "opłata"@, "hipoteka"@,
    ]
}

/// The frequent words of a language.
pub open spec fn word_list(l: Language) -> Seq<Seq<char>> {
    match l {
        Language::Hungarian => hungarian_words(),
        Language::English => english_words(),
        Language::Czech => czech_words(),
        Language::Polish => polish_words(),
    }
}

/// Phrases whose presence adds a bonus to a language's score.
pub open spec fn bonus_terms(l: Language) -> Seq<Seq<char>> {
    match l {
        Language::Hungarian => seq!["deviza"@, "árfolyam"@, "huf"@],
        Language::English => seq!["foreign currency"@, "exchange rate"@],
        Language::Czech => seq!["měnové riziko"@, "směnný kurz"@],
        Language::Polish => seq!["ryzyko walutowe"@, "kurs wymiany"@],
    }
}

/// Bonus for a language-distinctive phrase.
pub const PHRASE_BONUS: u32 = 2000;

/// Number of tokens that occur in `list`.
pub open spec fn count_listed(tokens: Seq<Seq<char>>, list: Seq<Seq<char>>) -> int
    decreases tokens.len(),
{
    if tokens.len() == 0 {
        0
    } else {
        count_listed(tokens.drop_last(), list) + if list.contains(tokens.last()) {
            1int
        } else {
            0int
        }
    }
}

/// Score of a language for a lower-cased text with at least one word.
pub open spec fn language_score(l: Language, lower: Seq<char>) -> int {
    count_listed(words(lower), word_list(l)) * (SCALE as int) / (words(lower).len() as int) + if has_any(
        lower,
        bonus_terms(l),
    ) {
        PHRASE_BONUS as int
    } else {
        0
    }
}

/// The first language with the highest score, in the order
/// Hungarian, English, Czech, Polish.
pub open spec fn winner(h: int, e: int, c: int, p: int) -> Language {
    if h >= e && h >= c && h >= p {
        Language::Hungarian
    } else if e >= c && e >= p {
        Language::English
    } else if c >= p {
        Language::Czech
    } else {
        Language::Polish
    }
}

/// What detection states of a text.
pub struct DetectionView {
    pub language: Seq<char>,
    pub confidence: int,
    pub scores: Seq<(Language, int)>,
}

/// The detection for a text.
pub open spec fn detection_of(text: Seq<char>) -> DetectionView {
    detection_of_lower(lower_of(text))
}

/// The detection for a lower-cased text.
pub open spec fn detection_of_lower(lower: Seq<char>) -> DetectionView {
    if words(lower).len() == 0 {
        DetectionView { language: "unknown"@, confidence: 0, scores: Seq::empty() }
    } else {
        let h = language_score(Language::Hungarian, lower);
        let e = language_score(Language::English, lower);
        let c = language_score(Language::Czech, lower);
        let p = language_score(Language::Polish, lower);
        let w = winner(h, e, c, p);
        DetectionView {
            language: w.code(),
            confidence: language_score(w, lower),
            scores: seq![
                (Language::Hungarian, h),
                (Language::English, e),
                (Language::Czech, c),
                (Language::Polish, p),
            ],
        }
    }
}

/// Best-guess language of a text, with the score of every language.
#[derive(Clone, Debug)]
pub struct LanguageDetection {
    pub language: String,
    pub confidence: u32,
    pub scores: Vec<(Language, u32)>,
}

impl View for LanguageDetection {
    type V = DetectionView;

    open spec fn view(&self) -> DetectionView {
        DetectionView {
            language: self.language@,
            confidence: self.confidence as int,
            scores: self.scores@.map_values(|p: (Language, u32)| (p.0, p.1 as int)),
        }
    }
}

/// Detections of a list of views.
pub open spec fn detection_views(v: Seq<LanguageDetection>) -> Seq<DetectionView> {
    v.map_values(|d: LanguageDetection| d@)
}

/// Minimum number of characters of a sentence that is scored on its own.
pub const MIN_SENTENCE_CHARS: usize = 20;

/// Minimum confidence of a sentence's detection that is reported.
pub const MIN_SENTENCE_CONFIDENCE: u32 = 1000;

/// The detections of the sentences of `sentences` worth reporting.
pub open spec fn sentence_detections(sentences: Seq<Seq<char>>) -> Seq<DetectionView>
    decreases sentences.len(),
{
    if sentences.len() == 0 {
        Seq::empty()
    } else {
        let prev = sentence_detections(sentences.drop_last());
        let s = sentences.last();
        if trimmed(s).len() > MIN_SENTENCE_CHARS && detection_of(s).confidence
            > MIN_SENTENCE_CONFIDENCE {
            prev.push(detection_of(s))
        } else {
            prev
        }
    }
}

/// Codes of the central European languages.
pub open spec fn central_european_codes() -> Seq<Seq<char>> {
    seq!["hu"@, "cs"@, "pl"@, "sk"@, "ro"@, "hr"@, "sl"@]
}

/// English name of a language code.
pub open spec fn language_name(code: Seq<char>) -> Seq<char> {
    if code == "hu"@ {
        "Hungarian"@
    } else if code == "en"@ {
        "English"@
    } else if code == "cs"@ {
        "Czech"@
    } else if code == "pl"@ {
        "Polish"@
    } else if code == "sk"@ {
        "Slovak"@
    } else if code == "ro"@ {
        "Romanian"@
    } else if code == "hr"@ {
        "Croatian"@
    } else if code == "sl"@ {
        "Slovenian"@
    } else {
        "Unknown"@
    }
}

/// Whether the characters of `word` are one of the texts of `list`.
pub fn listed_in(word: &Vec<char>, list: &Vec<&str>) -> (r: bool)
    ensures
        r == views(list@).contains(word@),
{
    let mut k: usize = 0;
    while k < list.len()
        invariant
            k <= list@.len(),
            forall|j: int| 0 <= j < k ==> #[trigger] views(list@)[j] != word@,
        decreases list@.len() - k,
    {
        let t = chars_of(list[k]);
        if same_chars(&t, word) {
            assert(views(list@)[k as int] == word@);
            return true;
        }
        k = k + 1;
    }
    false
}

/// Whether `text` is one of the texts of `list`.
pub fn text_listed(text: &str, list: &Vec<&str>) -> (r: bool)
    ensures
        r == views(list@).contains(text@),
{
    let c = chars_of(text);
    listed_in(&c, list)
}

/// Number of words of `tokens` found in `list`.
fn count_listed_exec(tokens: &Vec<Vec<char>>, list: &Vec<&str>) -> (r: u128)
    ensures
        r == count_listed(char_views(tokens@), views(list@)),
        r <= tokens@.len(),
{
    let mut cnt: u128 = 0;
    let mut i: usize = 0;
    while i < tokens.len()
        invariant
            i <= tokens@.len(),
            cnt == count_listed(char_views(tokens@).take(i as int), views(list@)),
            cnt <= i,
        decreases tokens@.len() - i,
    {
        proof {
            assert(char_views(tokens@).take(i + 1).drop_last() =~= char_views(tokens@).take(
                i as int,
            ));
        }
        if listed_in(&tokens[i], list) {
            cnt = cnt + 1;
        }
        i = i + 1;
    }
    assert(char_views(tokens@).take(i as int) =~= char_views(tokens@));
    cnt
}

/// Scores a text against frequent-word lists of several languages.
pub struct LanguageDetector {
    hungarian_patterns: Vec<&'static str>,
    english_patterns: Vec<&'static str>,
    czech_patterns: Vec<&'static str>,
    polish_patterns: Vec<&'static str>,
}

impl LanguageDetector {
    /// The word lists are those of each language.
    pub closed spec fn wf(&self) -> bool {
        &&& views(self.hungarian_patterns@) == hungarian_words()
        &&& views(self.english_patterns@) == english_words()
        &&& views(self.czech_patterns@) == czech_words()
        &&& views(self.polish_patterns@) == polish_words()
    }

    pub fn new() -> (r: Self)
        ensures
            r.wf(),
    {
        let hungarian_patterns = vec![
            "a", "az", "és", "vagy", "de", "hogy", "nem", "van", "volt", "lesz",
            "hitel", "bank", "szerződés", "kamat", "deviza", "kockázat", "árfolyam",
            "tájékoztatás", "figyelmeztetés", "költség", "díj", "kölcsön", "jelzálog",
            "törlesztés", "részlet", "feltétel", "módosítás", "felmondás",
        ];
        let english_patterns = vec![
            "the", "and", "or", "but", "that", "not", "is", "was", "will", "have",
            "loan", "bank", "contract", "interest", "currency", "risk", "exchange",
            "information", "warning", "cost", "fee", "mortgage", "payment",
            "installment", "condition", "modification", "termination",
        ];
        let czech_patterns = vec![
            "a", "je", "se", "na", "do", "za", "od", "po", "před", "při",
            "úvěr", "banka", "smlouva", "úrok", "měna", "riziko", "kurz",
            "informace", "varování", "náklad", "poplatek", "hypotéka",
        ];
        let polish_patterns = vec![
            "i", "a", "w", "na", "z", "do", "od", "po", "przez", "przy",
            "kredyt", "bank", "umowa", "odsetki", "waluta", "ryzyko", "kurs",
            "informacja", "ostrzeżenie", "koszt", "opłata", "hipoteka",
        ];
        assert(views(hungarian_patterns@) =~= hungarian_words());
        assert(views(english_patterns@) =~= english_words());
        assert(views(czech_patterns@) =~= czech_words());
        assert(views(polish_patterns@) =~= polish_words());
        LanguageDetector { hungarian_patterns, english_patterns, czech_patterns, polish_patterns }
    }

    fn words_of(&self, l: Language) -> (r: &Vec<&'static str>)
        requires
            self.wf(),
        ensures
            views(r@) == word_list(l),
    {
        match l {
            Language::Hungarian => &self.hungarian_patterns,
            Language::English => &self.english_patterns,
            Language::Czech => &self.czech_patterns,
            Language::Polish => &self.polish_patterns,
        }
    }

    fn bonus_list(l: Language) -> (r: Vec<&'static str>)
        ensures
            views(r@) == bonus_terms(l),
    {
        let r = match l {
            Language::Hungarian => vec!["deviza", "árfolyam", "huf"],
            Language::English => vec!["foreign currency", "exchange rate"],
            Language::Czech => vec!["měnové riziko", "směnný kurz"],
            Language::Polish => vec!["ryzyko walutowe", "kurs wymiany"],
        };
        assert(views(r@) =~= bonus_terms(l));
        r
    }

    fn score_of(&self, l: Language, lower: &Vec<char>, tokens: &Vec<Vec<char>>) -> (r: u32)
        requires
            self.wf(),
            char_views(tokens@) == words(lower@),
            tokens@.len() > 0,
        ensures
            r == language_score(l, lower@),
    {
        let cnt = count_listed_exec(tokens, self.words_of(l));
        let total = tokens.len() as u128;
        proof {
            let ci = cnt as int;
            let ti = total as int;
            assert(ci * 10000 <= ti * 10000) by (nonlinear_arith)
                requires
                    ci <= ti,
            ;
            assert(ci * 10000 / ti <= 10000) by (nonlinear_arith)
                requires
                    ci * 10000 <= ti * 10000,
                    ti > 0,
            ;
        }
        let frac = (cnt * 10000) / total;
        let bonus = Self::bonus_list(l);
        let has_bonus = contains_any(lower, &bonus);
        if has_bonus {
            frac as u32 + PHRASE_BONUS
        } else {
            frac as u32
        }
    }

    /// Best-guess language of `text`: the first of Hungarian, English, Czech
    /// and Polish with the highest share of frequent words, plus a bonus for a
    /// distinctive phrase; "unknown" with confidence 0 for a text without words.
    pub fn detect_language(&self, text: &str) -> (r: LanguageDetection)
        requires
            self.wf(),
        ensures
            r@ == detection_of(text@),
            text@.len() == 0 ==> r.language@ == "unknown"@ && r.confidence == 0,
    {
        let lower = lowered_chars(text);
        proof {
            if text@.len() == 0 {
                assert(lower@ =~= Seq::<char>::empty());
                assert(words(lower@) =~= Seq::<Seq<char>>::empty());
            }
        }
        self.detect_lowered(&lower)
    }

    /// Detection for an already lower-cased text.
    pub fn detect_lowered(&self, lower: &Vec<char>) -> (r: LanguageDetection)
        requires
            self.wf(),
        ensures
            r@ == detection_of_lower(lower@),
    {
        let tokens = split_words(lower);
        if tokens.len() == 0 {
            let r = LanguageDetection {
                language: String::from_str("unknown"),
                confidence: 0,
                scores: Vec::new(),
            };
            assert(r@.scores =~= Seq::<(Language, int)>::empty());
            return r;
        }
        let h = self.score_of(Language::Hungarian, lower, &tokens);
        let e = self.score_of(Language::English, lower, &tokens);
        let c = self.score_of(Language::Czech, lower, &tokens);
        let p = self.score_of(Language::Polish, lower, &tokens);
        let (w, conf) = if h >= e && h >= c && h >= p {
            (Language::Hungarian, h)
        } else if e >= c && e >= p {
            (Language::English, e)
        } else if c >= p {
            (Language::Czech, c)
        } else {
            (Language::Polish, p)
        };
        let scores = vec![
            (Language::Hungarian, h),
            (Language::English, e),
            (Language::Czech, c),
            (Language::Polish, p),
        ];
        let r = LanguageDetection { language: String::from_str(w.as_code()), confidence: conf, scores };
        assert(r@.scores =~= detection_of_lower(lower@).scores);
        r
    }

    /// Detections of the sentences (pieces between full stops) of `text`
    /// that have more than twenty characters once trimmed and whose detection
    /// is confident enough.
    pub fn detect_mixed_language(&self, text: &str) -> (r: Vec<LanguageDetection>)
        requires
            self.wf(),
        ensures
            detection_views(r@) == sentence_detections(pieces(text@, '.')),
    {
        let chars = chars_of(text);
        let sentences = split_at_char(&chars, '.');
        let ghost sv = char_views(sentences@);
        let mut out: Vec<LanguageDetection> = Vec::new();
        let mut i: usize = 0;
        while i < sentences.len()
            invariant
                i <= sentences@.len(),
                sv == char_views(sentences@),
                sv == pieces(text@, '.'),
                self.wf(),
                detection_views(out@) == sentence_detections(sv.take(i as int)),
            decreases sentences@.len() - i,
        {
            proof {
                assert(sv.take(i + 1).drop_last() =~= sv.take(i as int));
            }
            let t = trim_chars(&sentences[i]);
            if t.len() > MIN_SENTENCE_CHARS {
                let s = text_of(&sentences[i]);
                let d = self.detect_language(s.as_str());
                if d.confidence > MIN_SENTENCE_CONFIDENCE {
                    let ghost before = detection_views(out@);
                    out.push(d);
                    assert(detection_views(out@) =~= before.push(d@));
                }
            }
            i = i + 1;
        }
        assert(sv.take(i as int) =~= sv);
        out
    }

    /// Whether a language code is one of the central European languages.
    pub fn is_central_european_language(&self, language: &str) -> (r: bool)
        ensures
            r == central_european_codes().contains(language@),
    {
        let codes = vec!["hu", "cs", "pl", "sk", "ro", "hr", "sl"];
        assert(views(codes@) =~= central_european_codes());
        text_listed(language, &codes)
    }

    /// English name of a language code, "Unknown" for other codes.
    pub fn get_language_name(&self, code: &str) -> (r: &'static str)
        ensures
            r@ == language_name(code@),
    {
        if same_text(code, "hu") {
            "Hungarian"
        } else if same_text(code, "en") {
            "English"
        } else if same_text(code, "cs") {
            "Czech"
        } else if same_text(code, "pl") {
            "Polish"
        } else if same_text(code, "sk") {
            "Slovak"
        } else if same_text(code, "ro") {
            "Romanian"
        } else if same_text(code, "hr") {
            "Croatian"
        } else if same_text(code, "sl") {
            "Slovenian"
        } else {
            "Unknown"
        }
    }
}

} // verus!
