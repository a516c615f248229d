//! Drugs from a reference list, unified into plain search terms.
//!
//! A drug name may carry several aliases separated by `/`. Before matching,
//! each alias becomes one normalized search term carrying the drug's RxNorm
//! identifier as metadata, so that drug searches and plain term searches run
//! through the same matcher.

use vstd::prelude::*;
use crate::ngram::string_views;
use crate::terms::{term_views, SearchTerm, SearchTermView};
use crate::text::{clean_text, clean_text_spec, push_char};
use vstd::string::StrSliceExecFns;

verus! {

/// The ghost image of a [`Drug`].
pub struct DrugView {
    pub name: Seq<char>,
    pub rx_id: Seq<char>,
    pub class_id: Seq<char>,
}

/// A drug from a reference list.
#[derive(Debug, Clone, PartialEq)]
pub struct Drug {
    /// The name of the drug; may hold several aliases separated by `/`.
    pub name: String,
    /// The drug's RxNorm identifier.
    pub rx_id: String,
    /// The drug's RxClass identifier.
    pub class_id: String,
}

impl View for Drug {
    type V = DrugView;

    open spec fn view(&self) -> DrugView {
        DrugView { name: self.name@, rx_id: self.rx_id@, class_id: self.class_id@ }
    }
}

/// State of a left-to-right split on `/`: the completed parts and the part
/// being accumulated. Unlike a word split, empty parts are kept.
pub open spec fn slash_state(s: Seq<char>) -> (Seq<Seq<char>>, Seq<char>)
    decreases s.len(),
{
    if s.len() == 0 {
        (Seq::empty(), Seq::empty())
    } else {
        let prev = slash_state(s.drop_last());
        if s.last() == '/' {
            (prev.0.push(prev.1), Seq::empty())
        } else {
            (prev.0, prev.1.push(s.last()))
        }
    }
}

/// The aliases of a drug name: the parts of the name split on `/`.
pub open spec fn aliases_spec(s: Seq<char>) -> Seq<Seq<char>> {
    slash_state(s).0.push(slash_state(s).1)
}

impl Drug {
    /// The names the drug goes by: its name split on `/`.
    pub fn aliases(&self) -> (r: Vec<String>)
        ensures
            string_views(r@) == aliases_spec(self.name@),
    {
        let s = self.name.as_str();
        let n = s.unicode_len();
        let mut parts: Vec<String> = Vec::new();
        let mut cur = String::new();
        let mut i: usize = 0;
        while i < n
            invariant
                n == s@.len(),
                i <= n,
                string_views(parts@) =~= slash_state(s@.take(i as int)).0,
                cur@ =~= slash_state(s@.take(i as int)).1,
            decreases n - i,
        {
            let c = s.get_char(i);
            proof {
                assert(s@.take(i + 1).drop_last() =~= s@.take(i as int));
                assert(s@.take(i + 1).last() == s@[i as int]);
            }
            if c == '/' {
                let ghost old_parts = string_views(parts@);
                let ghost old_cur = cur@;
                parts.push(cur);
                cur = String::new();
                proof {
                    assert(string_views(parts@) =~= old_parts.push(old_cur));
                }
            } else {
                push_char(&mut cur, c);
            }
            i = i + 1;
        }
        proof {
            assert(s@.take(n as int) =~= s@);
        }
        let ghost old_parts = string_views(parts@);
        let ghost old_cur = cur@;
        parts.push(cur);
        proof {
            assert(string_views(parts@) =~= old_parts.push(old_cur));
        }
        parts
    }
}

/// The search terms one drug contributes: one per alias, normalized, each
/// carrying the drug's RxNorm identifier as metadata.
pub open spec fn drug_term_views(d: DrugView) -> Seq<SearchTermView> {
    aliases_spec(d.name).map_values(
        |a: Seq<char>| SearchTermView { term: clean_text_spec(a), metadata: Some(d.rx_id) },
    )
}

/// The search terms a drug list contributes, drug by drug.
pub open spec fn drugs_term_views(ds: Seq<DrugView>) -> Seq<SearchTermView>
    decreases ds.len(),
{
    if ds.len() == 0 {
        Seq::empty()
    } else {
        drugs_term_views(ds.drop_last()) + drug_term_views(ds.last())
    }
}

/// Unifies a drug list into plain search terms: every alias of every drug
/// becomes one normalized term whose metadata is the drug's RxNorm
/// identifier.
pub fn drug_search_terms(drugs: &Vec<Drug>) -> (r: Vec<SearchTerm>)
    ensures
        term_views(r@) == drugs_term_views(drugs@.map_values(|d: Drug| d@)),
{
    let ghost dv = drugs@.map_values(|d: Drug| d@);
    let mut r: Vec<SearchTerm> = Vec::new();
    let mut i: usize = 0;
    while i < drugs.len()
        invariant
            dv == drugs@.map_values(|d: Drug| d@),
            i <= drugs@.len(),
            term_views(r@) =~= drugs_term_views(dv.take(i as int)),
        decreases drugs@.len() - i,
    {
        proof {
            assert(dv.take(i + 1).drop_last() =~= dv.take(i as int));
            assert(dv.take(i + 1).last() == dv[i as int]);
        }
        let parts = drugs[i].aliases();
        let ghost pv = string_views(parts@);
        let mut j: usize = 0;
        while j < parts.len()
            invariant
                dv == drugs@.map_values(|d: Drug| d@),
                i < drugs@.len(),
                pv == string_views(parts@),
                pv == aliases_spec(dv[i as int].name),
                j <= parts@.len(),
                term_views(r@) =~= drugs_term_views(dv.take(i as int)) + drug_term_views(
                    dv[i as int],
                ).take(j as int),
            decreases parts@.len() - j,
        {
            let ghost before = term_views(r@);
            r.push(
                SearchTerm::new(parts[j].as_str(), Some(drugs[i].rx_id.clone())),
            );
            proof {
                assert(term_views(r@) =~= before.push(r@.last()@));
                assert(r@.last()@ == drug_term_views(dv[i as int])[j as int]);
                assert(drug_term_views(dv[i as int]).take(j + 1) =~= drug_term_views(
                    dv[i as int],
                ).take(j as int).push(drug_term_views(dv[i as int])[j as int]));
            }
            j = j + 1;
        }
        proof {
            assert(drug_term_views(dv[i as int]).take(parts@.len() as int) =~= drug_term_views(
                dv[i as int],
            ));
        }
        i = i + 1;
    }
    proof {
        assert(dv.take(drugs@.len() as int) =~= dv);
    }
    r
}

} // verus!
