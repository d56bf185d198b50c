//! Rule-based analysis of foreign-currency mortgage documents: multilingual
//! clause extraction, language detection, text similarity and precedent
//! matching, with every score kept in fixed-point units of `1 / SCALE`
//! (`text::SCALE` stands for 1.0).
//!
//! - `clause_extractor`, `language_detector`: from text to typed, scored clauses.
//! - `similarity_engine`, `key_phrases`: scoring primitives between texts.
//! - `precedent_matcher`, `ranking`, `applicable`: clauses against a precedent
//!   corpus, and the explanations of what matched.
//! - `laws`: properties proved of every input.
//! - `clause`, `case`, `document`, `research`, `seed`: the data model and the
//!   shipped pattern set and corpus.
//! - `text`, `pattern`, `text_processor`, `file_watcher`: text primitives,
//!   regular-expression spans, document clean-up, and directory-change state.

pub mod text;
pub mod clause;
pub mod pattern;
pub mod language_detector;
pub mod clause_extractor;
pub mod similarity_engine;
pub mod case;
pub mod ranking;
pub mod precedent_matcher;
pub mod applicable;
pub mod laws;
pub mod text_processor;
pub mod file_watcher;
pub mod seed;
pub mod key_phrases;
pub mod document;
pub mod research;
