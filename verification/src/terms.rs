//! Search terms: what the matcher looks for.
//!
//! A term is loaded once before scanning, normalized by the caller through
//! [`clean_terms`], and read-only for the run. Its n-gram width — the number
//! of words it consists of — decides the width of the windows it is compared
//! against.

use vstd::prelude::*;
use crate::ngram::{string_views, words, words_spec};
use crate::text::{clean_text, clean_text_spec};

verus! {

/// The ghost image of a [`SearchTerm`].
pub struct SearchTermView {
    pub term: Seq<char>,
    pub metadata: Option<Seq<char>>,
}

/// The ghost image of an optional string.
pub open spec fn option_view(m: Option<String>) -> Option<Seq<char>> {
    match m {
        Some(s) => Some(s@),
        None => None,
    }
}

/// A term to search for, with optional metadata that is carried through to
/// every match it produces.
#[derive(Debug, Clone, PartialEq)]
pub struct SearchTerm {
    /// The term text, normalized.
    pub term: String,
    /// Optional metadata to be included in output.
    pub metadata: Option<String>,
}

impl View for SearchTerm {
    type V = SearchTermView;

    open spec fn view(&self) -> SearchTermView {
        SearchTermView { term: self.term@, metadata: option_view(self.metadata) }
    }
}

/// The ghost images of a sequence of terms.
pub open spec fn term_views(ts: Seq<SearchTerm>) -> Seq<SearchTermView> {
    ts.map_values(|t: SearchTerm| t@)
}

/// The n-gram width of a term: how many words it consists of.
pub open spec fn term_width(t: SearchTermView) -> nat {
    words_spec(t.term).len()
}

impl SearchTerm {
    /// A term over the given text and metadata, the text normalized as
    /// [`clean_text`] does.
    pub fn new(term: &str, metadata: Option<String>) -> (r: SearchTerm)
        ensures
            r@.term == clean_text_spec(term@),
            r@.metadata == option_view(metadata),
    {
        SearchTerm { term: clean_text(term), metadata }
    }

    /// The n-gram width of this term: the number of words it consists of.
    pub fn ngrams(&self) -> (r: usize)
        ensures
            r == term_width(self@),
    {
        let ws = words(self.term.as_str());
        proof {
            assert(string_views(ws@).len() == ws@.len());
        }
        ws.len()
    }
}

/// Each term's text normalized, metadata kept as it is.
pub fn clean_terms(raw: &Vec<SearchTerm>) -> (r: Vec<SearchTerm>)
    ensures
        r@.len() == raw@.len(),
        forall|i: int|
            0 <= i < raw@.len() ==> (#[trigger] r@[i])@.term == clean_text_spec(raw@[i]@.term)
                && r@[i]@.metadata == raw@[i]@.metadata,
{
    let mut r: Vec<SearchTerm> = Vec::new();
    let mut i: usize = 0;
    while i < raw.len()
        invariant
            i <= raw@.len(),
            r@.len() == i,
            forall|j: int|
                0 <= j < i ==> (#[trigger] r@[j])@.term == clean_text_spec(raw@[j]@.term)
                    && r@[j]@.metadata == raw@[j]@.metadata,
        decreases raw@.len() - i,
    {
        let metadata = match &raw[i].metadata {
            Some(m) => Some(m.clone()),
            None => None,
        };
        r.push(SearchTerm::new(raw[i].term.as_str(), metadata));
        i = i + 1;
    }
    r
}

/// The widest n-gram width among the terms, zero for no terms.
pub open spec fn max_width_spec(ts: Seq<SearchTermView>) -> nat
    decreases ts.len(),
{
    if ts.len() == 0 {
        0
    } else {
        let rest = max_width_spec(ts.drop_last());
        let w = term_width(ts.last());
        if w >= rest {
            w
        } else {
            rest
        }
    }
}

/// The widest n-gram width among the given terms.
pub fn max_ngram_size(terms: &Vec<SearchTerm>) -> (r: usize)
    requires
        terms@.len() >= 1,
    ensures
        r == max_width_spec(term_views(terms@)),
{
    let ghost tv = term_views(terms@);
    let mut best: usize = 0;
    let mut i: usize = 0;
    while i < terms.len()
        invariant
            tv == term_views(terms@),
            i <= terms@.len(),
            best == max_width_spec(tv.take(i as int)),
        decreases terms@.len() - i,
    {
        proof {
            assert(tv.take(i + 1).drop_last() =~= tv.take(i as int));
            assert(tv.take(i + 1).last() == tv[i as int]);
        }
        let w = terms[i].ngrams();
        if w > best {
            best = w;
        }
        i = i + 1;
    }
    proof {
        assert(tv.take(terms@.len() as int) =~= tv);
    }
    best
}

} // verus!
