//! The matcher: the central scan loop.
//!
//! For one record and one target column, the raw cell text is normalized,
//! split into words, and for every search term the unique word windows of the
//! term's width are compared against the term through the comparison cache.
//! Candidates that pass the threshold policy are emitted as match results.

use vstd::prelude::*;
use vstd::string::StrSliceExecFns;
use vstd::string::StringExecFns;
use crate::algorithm::Algorithm;
use crate::cache::ComparisonCache;
use crate::config::{keeps, passes_threshold, RunConfig};
use crate::metrics::{edit_similarity, raw_metric, similarity_tenk, SIMILARITY_SCALE};
use crate::ngram::{
    lemma_ngram_window_width, lemma_words_spec_shape, ngrams, ngrams_spec, string_views, words,
    words_spec,
};
use crate::terms::{option_view, term_views, term_width, SearchTerm, SearchTermView};
use crate::text::{clean_text, clean_text_spec};

verus! {

/// The ghost image of a [`MatchResult`].
pub struct MatchResultView {
    pub record_id: Seq<char>,
    pub search_term: Seq<char>,
    pub matched_term: Seq<char>,
    pub algorithm: Algorithm,
    pub edits: Option<nat>,
    pub similarity: nat,
    pub column: Seq<char>,
    pub metadata: Option<Seq<char>>,
}

/// One reported match: a window of a record's column that passed the
/// threshold policy against a search term.
#[derive(Debug, Clone, PartialEq)]
pub struct MatchResult {
    /// The identifier of the record the window came from.
    pub record_id: String,
    /// The term that matched.
    pub search_term: String,
    /// The matched window text.
    pub matched_term: String,
    /// The algorithm that scored the pair.
    pub algorithm: Algorithm,
    /// The edit count; present exactly for edit-based algorithms.
    pub edits: Option<u64>,
    /// The similarity in ten-thousandths of a point.
    pub similarity: u32,
    /// The name of the column the window came from.
    pub column: String,
    /// The metadata of the matching term, if any.
    pub metadata: Option<String>,
}

impl View for MatchResult {
    type V = MatchResultView;

    open spec fn view(&self) -> MatchResultView {
        MatchResultView {
            record_id: self.record_id@,
            search_term: self.search_term@,
            matched_term: self.matched_term@,
            algorithm: self.algorithm,
            edits: match self.edits {
                Some(e) => Some(e as nat),
                None => None,
            },
            similarity: self.similarity as nat,
            column: self.column@,
            metadata: option_view(self.metadata),
        }
    }
}

/// The ghost images of a sequence of match results.
pub open spec fn match_views(rs: Seq<MatchResult>) -> Seq<MatchResultView> {
    rs.map_values(|r: MatchResult| r@)
}

/// The match a term and a window produce: the raw metric is interpreted as
/// an edit count or a similarity according to the algorithm.
pub open spec fn match_for(
    cfg: RunConfig,
    term: SearchTermView,
    record_id: Seq<char>,
    column: Seq<char>,
    window: Seq<char>,
) -> MatchResultView {
    MatchResultView {
        record_id: record_id,
        search_term: term.term,
        matched_term: window,
        algorithm: cfg.algorithm,
        edits: if cfg.algorithm.edit_based() {
            Some(raw_metric(cfg.algorithm, term.term, window))
        } else {
            None
        },
        similarity: similarity_tenk(cfg.algorithm, term.term, window),
        column: column,
        metadata: term.metadata,
    }
}

/// The windows one term is compared against in a column's text: the unique
/// windows of the term's width over the normalized text. A term with no
/// words has no windows.
pub open spec fn term_windows(term: SearchTermView, text: Seq<char>) -> Seq<Seq<char>> {
    let k = term_width(term);
    if k == 0 {
        Seq::empty()
    } else {
        ngrams_spec(words_spec(clean_text_spec(text)), k)
    }
}

/// The matches one term produces over the given windows, in window order,
/// keeping exactly the candidates that pass the threshold policy.
pub open spec fn term_matches(
    cfg: RunConfig,
    term: SearchTermView,
    record_id: Seq<char>,
    column: Seq<char>,
    ws: Seq<Seq<char>>,
) -> Seq<MatchResultView>
    decreases ws.len(),
{
    if ws.len() == 0 {
        Seq::empty()
    } else {
        let prev = term_matches(cfg, term, record_id, column, ws.drop_last());
        let w = ws.last();
        if keeps(cfg, raw_metric(cfg.algorithm, term.term, w), similarity_tenk(cfg.algorithm, term.term, w)) {
            prev.push(match_for(cfg, term, record_id, column, w))
        } else {
            prev
        }
    }
}

/// The matches a column's text produces: every term against its own windows,
/// in term order.
pub open spec fn column_matches(
    cfg: RunConfig,
    terms: Seq<SearchTermView>,
    record_id: Seq<char>,
    column: Seq<char>,
    text: Seq<char>,
) -> Seq<MatchResultView>
    decreases terms.len(),
{
    if terms.len() == 0 {
        Seq::empty()
    } else {
        column_matches(cfg, terms.drop_last(), record_id, column, text) + term_matches(
            cfg,
            terms.last(),
            record_id,
            column,
            term_windows(terms.last(), text),
        )
    }
}

/// The matches a whole record produces: every target column in order, each
/// column given as its name and its raw cell text.
pub open spec fn record_matches(
    cfg: RunConfig,
    terms: Seq<SearchTermView>,
    record_id: Seq<char>,
    columns: Seq<(Seq<char>, Seq<char>)>,
) -> Seq<MatchResultView>
    decreases columns.len(),
{
    if columns.len() == 0 {
        Seq::empty()
    } else {
        record_matches(cfg, terms, record_id, columns.drop_last()) + column_matches(
            cfg,
            terms,
            record_id,
            columns.last().0,
            columns.last().1,
        )
    }
}

/// Scans one column of one record: normalizes the cell text, slides each
/// term's window across it, scores every unique window through the cache,
/// and keeps what passes the threshold policy.
pub fn scan_column(
    cfg: &RunConfig,
    cache: &mut ComparisonCache,
    terms: &Vec<SearchTerm>,
    record_id: &str,
    column: &str,
    text: &str,
) -> (r: Vec<MatchResult>)
    requires
        cfg.wf(),
        old(cache).wf(),
        old(cache).spec_algorithm() == cfg.algorithm,
    ensures
        final(cache).wf(),
        final(cache).spec_algorithm() == cfg.algorithm,
        final(cache).spec_capacity() == old(cache).spec_capacity(),
        match_views(r@) == column_matches(*cfg, term_views(terms@), record_id@, column@, text@),
{
    let clean = clean_text(text);
    let ws = words(clean.as_str());
    let ghost tv = term_views(terms@);
    let mut r: Vec<MatchResult> = Vec::new();
    let mut ti: usize = 0;
    while ti < terms.len()
        invariant
            cfg.wf(),
            cache.wf(),
            cache.spec_algorithm() == cfg.algorithm,
            cache.spec_capacity() == old(cache).spec_capacity(),
            string_views(ws@) == words_spec(clean_text_spec(text@)),
            tv == term_views(terms@),
            ti <= terms@.len(),
            match_views(r@) =~= column_matches(
                *cfg,
                tv.take(ti as int),
                record_id@,
                column@,
                text@,
            ),
        decreases terms@.len() - ti,
    {
        proof {
            assert(tv.take(ti + 1).drop_last() =~= tv.take(ti as int));
            assert(tv.take(ti + 1).last() == tv[ti as int]);
        }
        let k = terms[ti].ngrams();
        if k == 0 {
            proof {
                assert(term_windows(tv[ti as int], text@) =~= Seq::<Seq<char>>::empty());
                assert(term_matches(
                    *cfg,
                    tv[ti as int],
                    record_id@,
                    column@,
                    term_windows(tv[ti as int], text@),
                ) =~= Seq::<MatchResultView>::empty());
                assert(match_views(r@) =~= column_matches(
                    *cfg,
                    tv.take(ti + 1),
                    record_id@,
                    column@,
                    text@,
                ));
            }
            ti = ti + 1;
            continue ;
        }
        let grams = ngrams(&ws, k);
        let ghost gv = string_views(grams@);
        proof {
            assert(gv == term_windows(tv[ti as int], text@));
        }
        let mut gi: usize = 0;
        while gi < grams.len()
            invariant
                cfg.wf(),
                cache.wf(),
                cache.spec_algorithm() == cfg.algorithm,
                cache.spec_capacity() == old(cache).spec_capacity(),
                tv == term_views(terms@),
                ti < terms@.len(),
                gv == string_views(grams@),
                gi <= grams@.len(),
                match_views(r@) =~= column_matches(
                    *cfg,
                    tv.take(ti as int),
                    record_id@,
                    column@,
                    text@,
                ) + term_matches(*cfg, tv[ti as int], record_id@, column@, gv.take(gi as int)),
            decreases grams@.len() - gi,
        {
            proof {
                assert(gv.take(gi + 1).drop_last() =~= gv.take(gi as int));
                assert(gv.take(gi + 1).last() == gv[gi as int]);
            }
            let raw = cache.lookup_or_compute(terms[ti].term.as_str(), grams[gi].as_str());
            let edit_based = cfg.algorithm.is_edits();
            let similarity: u32 = if edit_based {
                let tlen = terms[ti].term.as_str().unicode_len();
                let glen = grams[gi].as_str().unicode_len();
                let len_max = if tlen >= glen {
                    tlen
                } else {
                    glen
                };
                edit_similarity(raw, len_max as u64)
            } else {
                raw as u32
            };
            proof {
                assert(similarity == similarity_tenk(cfg.algorithm, tv[ti as int].term, gv[gi as int]));
            }
            if passes_threshold(cfg, raw, similarity) {
                let edits: Option<u64> = if edit_based {
                    Some(raw)
                } else {
                    None
                };
                let metadata: Option<String> = match &terms[ti].metadata {
                    Some(m) => Some(m.clone()),
                    None => None,
                };
                let m = MatchResult {
                    record_id: String::from_str(record_id),
                    search_term: terms[ti].term.clone(),
                    matched_term: grams[gi].clone(),
                    algorithm: cfg.algorithm,
                    edits,
                    similarity,
                    column: String::from_str(column),
                    metadata,
                };
                proof {
                    assert(m@ == match_for(
                        *cfg,
                        tv[ti as int],
                        record_id@,
                        column@,
                        gv[gi as int],
                    ));
                }
                let ghost before = match_views(r@);
                r.push(m);
                proof {
                    assert(match_views(r@) =~= before.push(m@));
                }
            }
            gi = gi + 1;
        }
        proof {
            assert(gv.take(grams@.len() as int) =~= gv);
        }
        ti = ti + 1;
    }
    proof {
        assert(tv.take(terms@.len() as int) =~= tv);
    }
    r
}

/// Scans one record: every target column in order, each given as its name
/// and its raw cell text. An empty cell yields no windows and so no matches.
pub fn scan_record(
    cfg: &RunConfig,
    cache: &mut ComparisonCache,
    terms: &Vec<SearchTerm>,
    record_id: &str,
    columns: &Vec<(String, String)>,
) -> (r: Vec<MatchResult>)
    requires
        cfg.wf(),
        old(cache).wf(),
        old(cache).spec_algorithm() == cfg.algorithm,
    ensures
        final(cache).wf(),
        final(cache).spec_algorithm() == cfg.algorithm,
        final(cache).spec_capacity() == old(cache).spec_capacity(),
        match_views(r@) == record_matches(
            *cfg,
            term_views(terms@),
            record_id@,
            columns@.map_values(|c: (String, String)| (c.0@, c.1@)),
        ),
{
    let ghost cv = columns@.map_values(|c: (String, String)| (c.0@, c.1@));
    let mut r: Vec<MatchResult> = Vec::new();
    let mut ci: usize = 0;
    while ci < columns.len()
        invariant
            cfg.wf(),
            cache.wf(),
            cache.spec_algorithm() == cfg.algorithm,
            cache.spec_capacity() == old(cache).spec_capacity(),
            cv == columns@.map_values(|c: (String, String)| (c.0@, c.1@)),
            ci <= columns@.len(),
            match_views(r@) =~= record_matches(*cfg, term_views(terms@), record_id@, cv.take(ci as int)),
        decreases columns@.len() - ci,
    {
        proof {
            assert(cv.take(ci + 1).drop_last() =~= cv.take(ci as int));
            assert(cv.take(ci + 1).last() == cv[ci as int]);
        }
        let ghost before = match_views(r@);
        let mut part = scan_column(
            cfg,
            cache,
            terms,
            record_id,
            columns[ci].0.as_str(),
            columns[ci].1.as_str(),
        );
        let ghost partv = match_views(part@);
        r.append(&mut part);
        proof {
            assert(match_views(r@) =~= before + partv);
        }
        ci = ci + 1;
    }
    proof {
        assert(cv.take(columns@.len() as int) =~= cv);
    }
    r
}

/// The matches a whole dataset produces: every row in order, each given as
/// its record identifier and its target columns.
pub open spec fn rows_matches(
    cfg: RunConfig,
    terms: Seq<SearchTermView>,
    rows: Seq<(Seq<char>, Seq<(Seq<char>, Seq<char>)>)>,
) -> Seq<MatchResultView>
    decreases rows.len(),
{
    if rows.len() == 0 {
        Seq::empty()
    } else {
        rows_matches(cfg, terms, rows.drop_last()) + record_matches(
            cfg,
            terms,
            rows.last().0,
            rows.last().1,
        )
    }
}

/// The ghost image of a row: its record identifier and its columns.
pub open spec fn row_views(
    rows: Seq<(String, Vec<(String, String)>)>,
) -> Seq<(Seq<char>, Seq<(Seq<char>, Seq<char>)>)> {
    rows.map_values(
        |row: (String, Vec<(String, String)>)|
            (row.0@, row.1@.map_values(|c: (String, String)| (c.0@, c.1@))),
    )
}

/// Scans a whole dataset row by row, sharing one comparison cache across all
/// rows. Each row is given as its record identifier and its target columns,
/// each column as its name and its raw cell text.
pub fn scan_rows(
    cfg: &RunConfig,
    cache: &mut ComparisonCache,
    terms: &Vec<SearchTerm>,
    rows: &Vec<(String, Vec<(String, String)>)>,
) -> (r: Vec<MatchResult>)
    requires
        cfg.wf(),
        old(cache).wf(),
        old(cache).spec_algorithm() == cfg.algorithm,
    ensures
        final(cache).wf(),
        final(cache).spec_algorithm() == cfg.algorithm,
        final(cache).spec_capacity() == old(cache).spec_capacity(),
        match_views(r@) == rows_matches(*cfg, term_views(terms@), row_views(rows@)),
{
    let ghost rv = row_views(rows@);
    let mut r: Vec<MatchResult> = Vec::new();
    let mut i: usize = 0;
    while i < rows.len()
        invariant
            cfg.wf(),
            cache.wf(),
            cache.spec_algorithm() == cfg.algorithm,
            cache.spec_capacity() == old(cache).spec_capacity(),
            rv == row_views(rows@),
            i <= rows@.len(),
            match_views(r@) =~= rows_matches(*cfg, term_views(terms@), rv.take(i as int)),
        decreases rows@.len() - i,
    {
        proof {
            assert(rv.take(i + 1).drop_last() =~= rv.take(i as int));
            assert(rv.take(i + 1).last() == rv[i as int]);
        }
        let ghost before = match_views(r@);
        let mut part = scan_record(cfg, cache, terms, rows[i].0.as_str(), &rows[i].1);
        let ghost partv = match_views(part@);
        r.append(&mut part);
        proof {
            assert(match_views(r@) =~= before + partv);
        }
        i = i + 1;
    }
    proof {
        assert(rv.take(rows@.len() as int) =~= rv);
    }
    r
}

/// Determinism: the matches of a scan are a function of the configuration,
/// the terms and the rows alone. Two runs over the same input yield the same
/// match sequence, and so in particular the same multiset of matches,
/// however the rows were scheduled between runs.
pub proof fn lemma_scan_deterministic(
    cfg: RunConfig,
    terms: Seq<SearchTermView>,
    rows: Seq<(Seq<char>, Seq<(Seq<char>, Seq<char>)>)>,
    first: Seq<MatchResultView>,
    second: Seq<MatchResultView>,
)
    requires
        first == rows_matches(cfg, terms, rows),
        second == rows_matches(cfg, terms, rows),
    ensures
        first == second,
        first.to_multiset() == second.to_multiset(),
{
}

/// Window-width invariant: every window a term is compared against consists
/// of exactly as many words as the term itself.
pub proof fn lemma_window_word_count(term: SearchTermView, text: Seq<char>)
    ensures
        forall|i: int|
            0 <= i < term_windows(term, text).len() ==> words_spec(
                #[trigger] term_windows(term, text)[i],
            ).len() == term_width(term),
{
    let k = term_width(term);
    if k >= 1 {
        lemma_words_spec_shape(clean_text_spec(text));
        lemma_ngram_window_width(words_spec(clean_text_spec(text)), k);
    }
}

/// Threshold law for one term: with an edits cutoff configured, every match
/// the term produces reports an edit count, and it never exceeds the cutoff.
pub proof fn lemma_term_matches_edits_bound(
    cfg: RunConfig,
    term: SearchTermView,
    record_id: Seq<char>,
    column: Seq<char>,
    ws: Seq<Seq<char>>,
    me: u32,
)
    requires
        cfg.wf(),
        cfg.max_edits == Some(me),
    ensures
        forall|i: int|
            0 <= i < term_matches(cfg, term, record_id, column, ws).len() ==> ((
            #[trigger] term_matches(cfg, term, record_id, column, ws)[i]).edits matches Some(e)
                && e <= me),
    decreases ws.len(),
{
    if ws.len() > 0 {
        lemma_term_matches_edits_bound(cfg, term, record_id, column, ws.drop_last(), me);
    }
}

/// Threshold law for one column: with an edits cutoff configured, no match
/// with more edits than the cutoff ever appears in its output.
pub proof fn lemma_column_matches_edits_bound(
    cfg: RunConfig,
    terms: Seq<SearchTermView>,
    record_id: Seq<char>,
    column: Seq<char>,
    text: Seq<char>,
    me: u32,
)
    requires
        cfg.wf(),
        cfg.max_edits == Some(me),
    ensures
        forall|i: int|
            0 <= i < column_matches(cfg, terms, record_id, column, text).len() ==> ((
            #[trigger] column_matches(cfg, terms, record_id, column, text)[i]).edits matches Some(
                e,
            ) && e <= me),
    decreases terms.len(),
{
    if terms.len() > 0 {
        lemma_column_matches_edits_bound(cfg, terms.drop_last(), record_id, column, text, me);
        lemma_term_matches_edits_bound(
            cfg,
            terms.last(),
            record_id,
            column,
            term_windows(terms.last(), text),
            me,
        );
    }
}

/// Threshold law for a record: with an edits cutoff configured, no match
/// with more edits than the cutoff ever appears in its output.
pub proof fn lemma_record_matches_edits_bound(
    cfg: RunConfig,
    terms: Seq<SearchTermView>,
    record_id: Seq<char>,
    columns: Seq<(Seq<char>, Seq<char>)>,
    me: u32,
)
    requires
        cfg.wf(),
        cfg.max_edits == Some(me),
    ensures
        forall|i: int|
            0 <= i < record_matches(cfg, terms, record_id, columns).len() ==> ((
            #[trigger] record_matches(cfg, terms, record_id, columns)[i]).edits matches Some(e)
                && e <= me),
    decreases columns.len(),
{
    if columns.len() > 0 {
        lemma_record_matches_edits_bound(cfg, terms, record_id, columns.drop_last(), me);
        lemma_column_matches_edits_bound(
            cfg,
            terms,
            record_id,
            columns.last().0,
            columns.last().1,
            me,
        );
    }
}

/// Shape of one term's matches: the edit count is present exactly for
/// edit-based algorithms, and every match names the run's algorithm, its own
/// record and its own column.
pub proof fn lemma_term_matches_shape(
    cfg: RunConfig,
    term: SearchTermView,
    record_id: Seq<char>,
    column: Seq<char>,
    ws: Seq<Seq<char>>,
)
    ensures
        forall|i: int|
            0 <= i < term_matches(cfg, term, record_id, column, ws).len() ==> {
                let m = #[trigger] term_matches(cfg, term, record_id, column, ws)[i];
                &&& (m.edits is Some <==> cfg.algorithm.edit_based())
                &&& m.algorithm == cfg.algorithm
                &&& m.record_id == record_id
                &&& m.column == column
                &&& m.search_term == term.term
            },
    decreases ws.len(),
{
    if ws.len() > 0 {
        lemma_term_matches_shape(cfg, term, record_id, column, ws.drop_last());
    }
}

/// Shape of a column's matches: the edit count is present exactly for
/// edit-based algorithms, and every match names the run's algorithm, its own
/// record and its own column.
pub proof fn lemma_column_matches_shape(
    cfg: RunConfig,
    terms: Seq<SearchTermView>,
    record_id: Seq<char>,
    column: Seq<char>,
    text: Seq<char>,
)
    ensures
        forall|i: int|
            0 <= i < column_matches(cfg, terms, record_id, column, text).len() ==> {
                let m = #[trigger] column_matches(cfg, terms, record_id, column, text)[i];
                &&& (m.edits is Some <==> cfg.algorithm.edit_based())
                &&& m.algorithm == cfg.algorithm
                &&& m.record_id == record_id
                &&& m.column == column
            },
    decreases terms.len(),
{
    if terms.len() > 0 {
        lemma_column_matches_shape(cfg, terms.drop_last(), record_id, column, text);
        lemma_term_matches_shape(
            cfg,
            terms.last(),
            record_id,
            column,
            term_windows(terms.last(), text),
        );
    }
}

/// Shape of a record's matches: every match names the given record.
pub proof fn lemma_record_matches_shape(
    cfg: RunConfig,
    terms: Seq<SearchTermView>,
    record_id: Seq<char>,
    columns: Seq<(Seq<char>, Seq<char>)>,
)
    ensures
        forall|i: int|
            0 <= i < record_matches(cfg, terms, record_id, columns).len() ==> (
            #[trigger] record_matches(cfg, terms, record_id, columns)[i]).record_id == record_id,
    decreases columns.len(),
{
    if columns.len() > 0 {
        lemma_record_matches_shape(cfg, terms, record_id, columns.drop_last());
        lemma_column_matches_shape(cfg, terms, record_id, columns.last().0, columns.last().1);
    }
}

/// Every reported similarity stays within the scale.
pub proof fn lemma_column_matches_similarity_in_range(
    cfg: RunConfig,
    terms: Seq<SearchTermView>,
    record_id: Seq<char>,
    column: Seq<char>,
    text: Seq<char>,
)
    ensures
        forall|i: int|
            0 <= i < column_matches(cfg, terms, record_id, column, text).len() ==> (
            #[trigger] column_matches(cfg, terms, record_id, column, text)[i]).similarity
                <= SIMILARITY_SCALE,
    decreases terms.len(),
{
    if terms.len() > 0 {
        lemma_column_matches_similarity_in_range(cfg, terms.drop_last(), record_id, column, text);
        let ws = term_windows(terms.last(), text);
        lemma_term_matches_similarity_in_range(cfg, terms.last(), record_id, column, ws);
    }
}

/// Every reported similarity of one term stays within the scale.
pub proof fn lemma_term_matches_similarity_in_range(
    cfg: RunConfig,
    term: SearchTermView,
    record_id: Seq<char>,
    column: Seq<char>,
    ws: Seq<Seq<char>>,
)
    ensures
        forall|i: int|
            0 <= i < term_matches(cfg, term, record_id, column, ws).len() ==> (
            #[trigger] term_matches(cfg, term, record_id, column, ws)[i]).similarity
                <= SIMILARITY_SCALE,
    decreases ws.len(),
{
    if ws.len() > 0 {
        lemma_term_matches_similarity_in_range(cfg, term, record_id, column, ws.drop_last());
        crate::metrics::lemma_similarity_in_range(cfg.algorithm, term.term, ws.last());
    }
}

} // verus!
