//! The aggregator: summary statistics over the full match set.
//!
//! Pure reductions over the collected matches, computed once after the scan:
//! how many distinct records and terms matched, and which record and term
//! matched most often.

use vstd::prelude::*;
use vstd::string::StrSliceExecFns;
use crate::matcher::{match_views, rows_matches, MatchResult, MatchResultView};
use crate::ngram::{
    dedup_first, lemma_dedup_first_contains, lemma_dedup_first_no_dups, string_views,
};

verus! {

/// How many of the values equal `x`.
pub open spec fn count_eq(vals: Seq<Seq<char>>, x: Seq<char>) -> nat
    decreases vals.len(),
{
    if vals.len() == 0 {
        0
    } else {
        count_eq(vals.drop_last(), x) + if vals.last() == x {
            1nat
        } else {
            0
        }
    }
}

/// A value that never occurs has count zero, and one that occurs has a
/// positive count.
pub proof fn lemma_count_eq_contains(vals: Seq<Seq<char>>, x: Seq<char>)
    ensures
        vals.contains(x) <==> count_eq(vals, x) > 0,
    decreases vals.len(),
{
    if vals.len() > 0 {
        lemma_count_eq_contains(vals.drop_last(), x);
        if vals.contains(x) {
            let i = choose|i: int| 0 <= i < vals.len() && vals[i] == x;
            if i < vals.len() - 1 {
                assert(vals.drop_last()[i] == x);
                assert(vals.drop_last().contains(x));
            }
        }
        if vals.drop_last().contains(x) {
            let i = choose|i: int| 0 <= i < vals.drop_last().len() && vals.drop_last()[i] == x;
            assert(vals[i] == x);
        }
        if vals.last() == x {
            assert(vals[vals.len() - 1] == x);
        }
    }
}

/// The record identifiers of the matches, in order.
pub open spec fn match_ids(rs: Seq<MatchResultView>) -> Seq<Seq<char>> {
    rs.map_values(|r: MatchResultView| r.record_id)
}

/// The matched search terms, in order.
pub open spec fn match_terms(rs: Seq<MatchResultView>) -> Seq<Seq<char>> {
    rs.map_values(|r: MatchResultView| r.search_term)
}

/// The keys of a tally table.
pub open spec fn table_keys(t: Seq<(String, u64)>) -> Seq<Seq<char>> {
    t.map_values(|e: (String, u64)| e.0@)
}

/// Tallies the values: one entry per distinct value in order of first
/// occurrence, each carrying how often the value occurs.
fn tally(items: &Vec<String>) -> (r: Vec<(String, u64)>)
    ensures
        table_keys(r@) == dedup_first(string_views(items@)),
        forall|j: int|
            0 <= j < r@.len() ==> (#[trigger] r@[j]).1 == count_eq(
                string_views(items@),
                r@[j].0@,
            ),
{
    let ghost iv = string_views(items@);
    let mut r: Vec<(String, u64)> = Vec::new();
    let mut i: usize = 0;
    while i < items.len()
        invariant
            iv == string_views(items@),
            i <= items@.len(),
            table_keys(r@) =~= dedup_first(iv.take(i as int)),
            forall|j: int|
                0 <= j < r@.len() ==> (#[trigger] r@[j]).1 == count_eq(
                    iv.take(i as int),
                    r@[j].0@,
                ),
            forall|j: int| 0 <= j < r@.len() ==> (#[trigger] r@[j]).1 <= i,
        decreases items@.len() - i,
    {
        proof {
            assert(iv.take(i + 1).drop_last() =~= iv.take(i as int));
            assert(iv.take(i + 1).last() == iv[i as int]);
            lemma_dedup_first_no_dups(iv.take(i as int));
        }
        let x = &items[i];
        let mut j: usize = 0;
        let n = r.len();
        let mut found = false;
        while j < n && !found
            invariant
                n == r@.len(),
                j <= n,
                !found ==> forall|p: int| 0 <= p < j ==> (#[trigger] r@[p]).0@ != x@,
                found ==> j < n && r@[j as int].0@ == x@,
            decreases n - j + if found {
                0int
            } else {
                1int
            },
        {
            if crate::cache::str_eq(r[j].0.as_str(), x.as_str()) {
                found = true;
            } else {
                j = j + 1;
            }
        }
        if found {
            let ghost before = r@;
            let mut e = r.remove(j);
            e.1 = e.1 + 1;
            r.insert(j, e);
            proof {
                assert(r@ =~= before.update(j as int, (before[j as int].0, (before[j as int].1
                    + 1) as u64)));
                assert(table_keys(r@) =~= table_keys(before));
                assert(dedup_first(iv.take(i + 1)) =~= dedup_first(iv.take(i as int))) by {
                    lemma_dedup_first_contains(iv.take(i as int), iv[i as int]);
                    assert(table_keys(before)[j as int] == iv[i as int]);
                    assert(dedup_first(iv.take(i as int)).contains(iv[i as int]));
                }
                assert forall|p: int| 0 <= p < r@.len() implies (#[trigger] r@[p]).1 == count_eq(
                    iv.take(i + 1),
                    r@[p].0@,
                ) by {
                    if p == j {
                        assert(r@[p].0@ == iv[i as int]);
                    } else {
                        assert(table_keys(before)[p] != table_keys(before)[j as int]);
                        assert(r@[p].0@ != iv[i as int]);
                    }
                }
            }
        } else {
            let ghost before = r@;
            r.push((x.clone(), 1));
            proof {
                assert(!dedup_first(iv.take(i as int)).contains(iv[i as int])) by {
                    if dedup_first(iv.take(i as int)).contains(iv[i as int]) {
                        let p = choose|p: int|
                            0 <= p < dedup_first(iv.take(i as int)).len() && dedup_first(
                                iv.take(i as int),
                            )[p] == iv[i as int];
                        assert(table_keys(before)[p] == iv[i as int]);
                    }
                }
                assert(table_keys(r@) =~= table_keys(before).push(iv[i as int]));
                assert(table_keys(r@) =~= dedup_first(iv.take(i + 1)));
                lemma_count_eq_contains(iv.take(i as int), iv[i as int]);
                lemma_dedup_first_contains(iv.take(i as int), iv[i as int]);
                assert forall|p: int| 0 <= p < r@.len() implies (#[trigger] r@[p]).1 == count_eq(
                    iv.take(i + 1),
                    r@[p].0@,
                ) by {
                    if p < r@.len() - 1 {
                        assert(table_keys(before)[p] != iv[i as int]) by {
                            lemma_dedup_first_contains(iv.take(i as int), table_keys(before)[p]);
                        }
                        assert(r@[p] == before[p]);
                    } else {
                        assert(count_eq(iv.take(i as int), iv[i as int]) == 0);
                    }
                }
            }
        }
        i = i + 1;
    }
    proof {
        assert(iv.take(items@.len() as int) =~= iv);
    }
    r
}

/// The entry with the highest count, if the table is not empty.
fn max_entry(table: &Vec<(String, u64)>) -> (r: Option<(String, u64)>)
    ensures
        r is None <==> table@.len() == 0,
        r matches Some(e) ==> (exists|j: int|
            0 <= j < table@.len() && #[trigger] table@[j] == e) && forall|j: int|
            0 <= j < table@.len() ==> (#[trigger] table@[j]).1 <= e.1,
{
    if table.len() == 0 {
        return None;
    }
    let mut best: usize = 0;
    let mut j: usize = 1;
    while j < table.len()
        invariant
            1 <= j <= table@.len(),
            best < j,
            forall|p: int| 0 <= p < j ==> (#[trigger] table@[p]).1 <= table@[best as int].1,
        decreases table@.len() - j,
    {
        if table[j].1 > table[best].1 {
            best = j;
        }
        j = j + 1;
    }
    let e = (table[best].0.clone(), table[best].1);
    proof {
        assert(table@[best as int] == e);
    }
    Some(e)
}

/// The summary of one scan run.
#[derive(Debug, Clone, PartialEq)]
pub struct Analysis {
    /// How many records were scanned.
    pub total_records: u64,
    /// How many distinct record identifiers have at least one match.
    pub records_with_match: u64,
    /// How many search terms the run used.
    pub total_terms: u64,
    /// How many distinct search terms achieved at least one match.
    pub terms_with_match: u64,
    /// The record identifier with the most matches, and its match count.
    pub top_record: Option<(String, u64)>,
    /// The search term with the most matches, and its match count.
    pub top_term: Option<(String, u64)>,
}

/// Computes the summary statistics over the full match set: pure reductions,
/// run once after all records have been scanned.
pub fn analyze(results: &Vec<MatchResult>, total_records: u64, total_terms: u64) -> (a: Analysis)
    ensures
        a.total_records == total_records,
        a.total_terms == total_terms,
        a.records_with_match == dedup_first(match_ids(match_views(results@))).len(),
        a.records_with_match == match_ids(match_views(results@)).to_set().len(),
        a.terms_with_match == dedup_first(match_terms(match_views(results@))).len(),
        a.terms_with_match == match_terms(match_views(results@)).to_set().len(),
        a.top_record is None <==> results@.len() == 0,
        a.top_record matches Some(e) ==> match_ids(match_views(results@)).contains(e.0@) && e.1
            == count_eq(match_ids(match_views(results@)), e.0@) && (forall|id: Seq<char>|
            match_ids(match_views(results@)).contains(id) ==> count_eq(
                match_ids(match_views(results@)),
                id,
            ) <= e.1),
        a.top_term matches Some(e) ==> match_terms(match_views(results@)).contains(e.0@) && e.1
            == count_eq(match_terms(match_views(results@)), e.0@) && (forall|t: Seq<char>|
            match_terms(match_views(results@)).contains(t) ==> count_eq(
                match_terms(match_views(results@)),
                t,
            ) <= e.1),
{
    let ghost mv = match_views(results@);
    let mut ids: Vec<String> = Vec::new();
    let mut terms: Vec<String> = Vec::new();
    let mut i: usize = 0;
    while i < results.len()
        invariant
            mv == match_views(results@),
            i <= results@.len(),
            string_views(ids@) =~= match_ids(mv).take(i as int),
            string_views(terms@) =~= match_terms(mv).take(i as int),
        decreases results@.len() - i,
    {
        let ghost old_ids = string_views(ids@);
        let ghost old_terms = string_views(terms@);
        ids.push(results[i].record_id.clone());
        terms.push(results[i].search_term.clone());
        proof {
            assert(match_ids(mv)[i as int] == mv[i as int].record_id);
            assert(mv[i as int] == results@[i as int]@);
            assert(string_views(ids@) =~= old_ids.push(results@[i as int].record_id@));
            assert(match_ids(mv).take(i + 1) =~= match_ids(mv).take(i as int).push(
                match_ids(mv)[i as int],
            ));
            assert(match_terms(mv)[i as int] == mv[i as int].search_term);
            assert(string_views(terms@) =~= old_terms.push(results@[i as int].search_term@));
            assert(match_terms(mv).take(i + 1) =~= match_terms(mv).take(i as int).push(
                match_terms(mv)[i as int],
            ));
        }
        i = i + 1;
    }
    proof {
        assert(match_ids(mv).take(results@.len() as int) =~= match_ids(mv));
        assert(match_terms(mv).take(results@.len() as int) =~= match_terms(mv));
        assert(string_views(ids@) =~= match_ids(mv));
        assert(string_views(terms@) =~= match_terms(mv));
    }
    let id_table = tally(&ids);
    let term_table = tally(&terms);
    let top_record = max_entry(&id_table);
    let top_term = max_entry(&term_table);
    proof {
        crate::ngram::lemma_dedup_first_len_is_distinct_count(match_ids(mv));
        crate::ngram::lemma_dedup_first_len_is_distinct_count(match_terms(mv));
        if results@.len() == 0 {
            assert(dedup_first(match_ids(mv)) =~= Seq::<Seq<char>>::empty());
        } else {
            assert(match_ids(mv).len() > 0);
            assert(dedup_first(match_ids(mv)).len() > 0) by {
                lemma_dedup_first_contains(match_ids(mv), match_ids(mv).last());
                assert(match_ids(mv)[match_ids(mv).len() - 1] == match_ids(mv).last());
                assert(match_ids(mv).contains(match_ids(mv).last()));
            }
        }
        if top_record is Some {
            let e = top_record->Some_0;
            let j = choose|j: int| 0 <= j < id_table@.len() && id_table@[j] == e;
            assert(table_keys(id_table@)[j] == e.0@);
            assert(dedup_first(match_ids(mv)).contains(e.0@));
            lemma_dedup_first_contains(match_ids(mv), e.0@);
            assert forall|id: Seq<char>| match_ids(mv).contains(id) implies count_eq(
                match_ids(mv),
                id,
            ) <= e.1 by {
                lemma_dedup_first_contains(match_ids(mv), id);
                let p = choose|p: int|
                    0 <= p < dedup_first(match_ids(mv)).len() && dedup_first(match_ids(mv))[p]
                        == id;
                assert(table_keys(id_table@)[p] == id);
                assert(id_table@[p].1 == count_eq(match_ids(mv), id));
            }
        }
        if top_term is Some {
            let e = top_term->Some_0;
            let j = choose|j: int| 0 <= j < term_table@.len() && term_table@[j] == e;
            assert(table_keys(term_table@)[j] == e.0@);
            assert(dedup_first(match_terms(mv)).contains(e.0@));
            lemma_dedup_first_contains(match_terms(mv), e.0@);
            assert forall|t: Seq<char>| match_terms(mv).contains(t) implies count_eq(
                match_terms(mv),
                t,
            ) <= e.1 by {
                lemma_dedup_first_contains(match_terms(mv), t);
                let p = choose|p: int|
                    0 <= p < dedup_first(match_terms(mv)).len() && dedup_first(match_terms(mv))[p]
                        == t;
                assert(table_keys(term_table@)[p] == t);
                assert(term_table@[p].1 == count_eq(match_terms(mv), t));
            }
        }
    }
    Analysis {
        total_records,
        records_with_match: id_table.len() as u64,
        total_terms,
        terms_with_match: term_table.len() as u64,
        top_record,
        top_term,
    }
}

/// `part` of `total` as a percentage in hundredths of a percent, rounded
/// down: the whole-percent share times one hundred.
pub fn percent_hundredths(part: u64, total: u64) -> (r: u64)
    requires
        part <= total,
        total >= 1,
    ensures
        r == (10000 * part as int) / (total as int),
        r <= 10000,

{
    let num: u128 = 10000u128 * (part as u128);
    let q = num / (total as u128);
    proof {
        vstd::arithmetic::mul::lemma_mul_inequality(part as int, total as int, 10000int);
        vstd::arithmetic::div_mod::lemma_div_is_ordered(
            10000 * (part as int),
            10000 * (total as int),
            total as int,
        );
        vstd::arithmetic::div_mod::lemma_div_multiples_vanish(10000int, total as int);
    }
    q as u64
}


/// The record identifiers of a dataset's rows.
pub open spec fn row_ids(rows: Seq<(Seq<char>, Seq<(Seq<char>, Seq<char>)>)>) -> Seq<Seq<char>> {
    rows.map_values(|row: (Seq<char>, Seq<(Seq<char>, Seq<char>)>)| row.0)
}

/// Every match of a dataset scan names one of the scanned rows.
proof fn lemma_rows_matches_ids(
    cfg: crate::config::RunConfig,
    terms: Seq<crate::terms::SearchTermView>,
    rows: Seq<(Seq<char>, Seq<(Seq<char>, Seq<char>)>)>,
)
    ensures
        forall|k: int|
            0 <= k < rows_matches(cfg, terms, rows).len() ==> row_ids(rows).contains(
                (#[trigger] rows_matches(cfg, terms, rows)[k]).record_id,
            ),
    decreases rows.len(),
{
    if rows.len() > 0 {
        lemma_rows_matches_ids(cfg, terms, rows.drop_last());
        crate::matcher::lemma_record_matches_shape(cfg, terms, rows.last().0, rows.last().1);
        let prev = rows_matches(cfg, terms, rows.drop_last());
        let part = crate::matcher::record_matches(cfg, terms, rows.last().0, rows.last().1);
        assert(row_ids(rows.drop_last()) =~= row_ids(rows).drop_last());
        assert forall|k: int| 0 <= k < rows_matches(cfg, terms, rows).len() implies row_ids(
            rows,
        ).contains((#[trigger] rows_matches(cfg, terms, rows)[k]).record_id) by {
            if k < prev.len() {
                assert(rows_matches(cfg, terms, rows)[k] == prev[k]);
                assert(row_ids(rows.drop_last()).contains(prev[k].record_id));
                let j = choose|j: int|
                    0 <= j < row_ids(rows.drop_last()).len() && row_ids(rows.drop_last())[j]
                        == prev[k].record_id;
                assert(row_ids(rows)[j] == prev[k].record_id);
            } else {
                assert(rows_matches(cfg, terms, rows)[k] == part[k - prev.len()]);
                assert(part[k - prev.len()].record_id == rows.last().0);
                assert(row_ids(rows)[rows.len() - 1] == rows.last().0);
            }
        }
    }
}

/// Aggregator sanity for a whole scan: the number of distinct record
/// identifiers with at least one match never exceeds the number of rows
/// scanned, so the record-coverage fraction that [`analyze`] reports over the
/// scan's matches is a genuine fraction of the rows.
pub proof fn lemma_distinct_ids_bounded_by_rows(
    cfg: crate::config::RunConfig,
    terms: Seq<crate::terms::SearchTermView>,
    rows: Seq<(Seq<char>, Seq<(Seq<char>, Seq<char>)>)>,
)
    ensures
        match_ids(rows_matches(cfg, terms, rows)).to_set().len() <= rows.len(),
        dedup_first(match_ids(rows_matches(cfg, terms, rows))).len() <= rows.len(),
{
    broadcast use vstd::seq_lib::seq_to_set_is_finite;

    let ids = match_ids(rows_matches(cfg, terms, rows));
    let owners = row_ids(rows);
    lemma_rows_matches_ids(cfg, terms, rows);
    assert(ids.to_set().subset_of(owners.to_set())) by {
        assert forall|x: Seq<char>| #[trigger] ids.to_set().contains(x) implies owners.to_set()
            .contains(x) by {
            let k = choose|k: int| 0 <= k < ids.len() && ids[k] == x;
            assert(rows_matches(cfg, terms, rows)[k].record_id == x);
        }
    }
    vstd::set_lib::lemma_len_subset(ids.to_set(), owners.to_set());
    owners.lemma_cardinality_of_set();
    crate::ngram::lemma_dedup_first_len_is_distinct_count(ids);
}

} // verus!
