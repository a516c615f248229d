//! A verified fuzzy-matching engine for finding approximate mentions of
//! search terms (for example drug names) in free-text fields of tabular data.
//!
//! Text is normalized, sliced into word windows, and each window is compared
//! against every search term with a string-distance algorithm; matches that
//! pass a caller-supplied threshold are reported, and summary statistics are
//! computed over the full match set.

pub mod text;
pub mod ngram;
pub mod algorithm;
pub mod metrics;
pub mod cache;
pub mod terms;
pub mod config;
pub mod columns;
pub mod matcher;
pub mod analyze;
pub mod drug;
