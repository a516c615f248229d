//! The raw string metrics behind the algorithm registry.
//!
//! The five comparisons themselves are computed by the `strsim` crate; this
//! module gives each result a name that contracts can speak about, and fixes
//! the facts the rest of the library relies on: an algorithm returns zero
//! edits (or full similarity) exactly on equal inputs, similarity scores stay
//! within the scale, and Jaro-Winkler is symmetric.
//!
//! Similarity scores are fixed-point integers in ten-thousandths of a point:
//! [`SIMILARITY_SCALE`] stands for a similarity of 1.0.

use vstd::prelude::*;
use vstd::string::StrSliceExecFns;
use vstd::arithmetic::div_mod::{lemma_div_is_ordered, lemma_div_multiples_vanish};
use vstd::arithmetic::mul::lemma_mul_inequality;
use crate::algorithm::Algorithm;

verus! {

/// One full point of similarity: scores range over `0..=SIMILARITY_SCALE`.
pub const SIMILARITY_SCALE: u32 = 10000;

pub uninterp spec fn levenshtein_raw(a: Seq<char>, b: Seq<char>) -> nat;

pub uninterp spec fn damerau_raw(a: Seq<char>, b: Seq<char>) -> nat;

pub uninterp spec fn osa_raw(a: Seq<char>, b: Seq<char>) -> nat;

pub uninterp spec fn jaro_winkler_raw(a: Seq<char>, b: Seq<char>) -> nat;

pub uninterp spec fn sorensen_dice_raw(a: Seq<char>, b: Seq<char>) -> nat;

/// The Levenshtein edit distance: zero exactly between equal texts, at
/// least one edit otherwise.
pub open spec fn levenshtein_edits(a: Seq<char>, b: Seq<char>) -> nat {
    if a == b {
        0
    } else if levenshtein_raw(a, b) == 0 {
        1
    } else {
        levenshtein_raw(a, b)
    }
}

/// The Damerau-Levenshtein edit distance: zero exactly between equal texts,
/// at least one edit otherwise.
pub open spec fn damerau_edits(a: Seq<char>, b: Seq<char>) -> nat {
    if a == b {
        0
    } else if damerau_raw(a, b) == 0 {
        1
    } else {
        damerau_raw(a, b)
    }
}

/// The optimal string alignment edit distance: zero exactly between equal
/// texts, at least one edit otherwise.
pub open spec fn osa_edits(a: Seq<char>, b: Seq<char>) -> nat {
    if a == b {
        0
    } else if osa_raw(a, b) == 0 {
        1
    } else {
        osa_raw(a, b)
    }
}

/// Lexicographic order on character sequences, by code point.
pub open spec fn lex_le(a: Seq<char>, b: Seq<char>) -> bool
    decreases a.len(),
{
    if a.len() == 0 {
        true
    } else if b.len() == 0 {
        false
    } else if (a.first() as int) < (b.first() as int) {
        true
    } else if (a.first() as int) > (b.first() as int) {
        false
    } else {
        lex_le(a.drop_first(), b.drop_first())
    }
}

/// The order is total.
pub proof fn lemma_lex_le_total(a: Seq<char>, b: Seq<char>)
    ensures
        lex_le(a, b) || lex_le(b, a),
    decreases a.len(),
{
    if a.len() > 0 && b.len() > 0 && a.first() == b.first() {
        lemma_lex_le_total(a.drop_first(), b.drop_first());
    }
}

/// The order is antisymmetric.
pub proof fn lemma_lex_le_antisym(a: Seq<char>, b: Seq<char>)
    requires
        lex_le(a, b),
        lex_le(b, a),
    ensures
        a == b,
    decreases a.len(),
{
    if a.len() == 0 {
        assert(b.len() == 0);
        assert(a =~= b);
    } else {
        lemma_lex_le_antisym(a.drop_first(), b.drop_first());
        assert(a =~= seq![a.first()] + a.drop_first());
        assert(b =~= seq![b.first()] + b.drop_first());
    }
}

/// The Jaro-Winkler score applied to the lexicographically ordered pair;
/// the algorithm itself is symmetric, so the order of arguments is free.
pub open spec fn jaro_winkler_sym(a: Seq<char>, b: Seq<char>) -> nat {
    if lex_le(a, b) {
        jaro_winkler_raw(a, b)
    } else {
        jaro_winkler_raw(b, a)
    }
}

/// The Jaro-Winkler similarity in ten-thousandths: full scale between equal
/// texts, symmetric, never above the scale.
pub open spec fn jaro_winkler_tenk(a: Seq<char>, b: Seq<char>) -> nat {
    if a == b {
        SIMILARITY_SCALE as nat
    } else if jaro_winkler_sym(a, b) > SIMILARITY_SCALE {
        SIMILARITY_SCALE as nat
    } else {
        jaro_winkler_sym(a, b)
    }
}

/// The Sorensen-Dice score applied to the lexicographically ordered pair;
/// the coefficient is symmetric, so the order of arguments is free.
pub open spec fn sorensen_dice_sym(a: Seq<char>, b: Seq<char>) -> nat {
    if lex_le(a, b) {
        sorensen_dice_raw(a, b)
    } else {
        sorensen_dice_raw(b, a)
    }
}

/// The Sorensen-Dice similarity in ten-thousandths: full scale between equal
/// texts, symmetric, never above the scale.
pub open spec fn sorensen_dice_tenk(a: Seq<char>, b: Seq<char>) -> nat {
    if a == b {
        SIMILARITY_SCALE as nat
    } else if sorensen_dice_sym(a, b) > SIMILARITY_SCALE {
        SIMILARITY_SCALE as nat
    } else {
        sorensen_dice_sym(a, b)
    }
}

/// Relies on `strsim::levenshtein`: the minimum number of character
/// insertions, deletions and substitutions turning one text into the other,
/// which is zero for equal texts and at least one for unequal texts.
#[verifier::external_body]
pub(crate) fn levenshtein(a: &str, b: &str) -> (r: usize)
    ensures
        r == levenshtein_edits(a@, b@),
        a@ != b@ ==> r == levenshtein_raw(a@, b@),
        a@ != b@ ==> r >= 1,
{
    strsim::levenshtein(a, b)
}

/// Relies on `strsim::damerau_levenshtein`: like Levenshtein with
/// transpositions, zero for equal texts and at least one for unequal texts.
#[verifier::external_body]
pub(crate) fn damerau_levenshtein(a: &str, b: &str) -> (r: usize)
    ensures
        r == damerau_edits(a@, b@),
        a@ != b@ ==> r == damerau_raw(a@, b@),
        a@ != b@ ==> r >= 1,
{
    strsim::damerau_levenshtein(a, b)
}

/// Relies on `strsim::osa_distance`: the optimal string alignment distance,
/// zero for equal texts and at least one for unequal texts.
#[verifier::external_body]
pub(crate) fn osa_distance(a: &str, b: &str) -> (r: usize)
    ensures
        r == osa_edits(a@, b@),
        a@ != b@ ==> r == osa_raw(a@, b@),
        a@ != b@ ==> r >= 1,
{
    strsim::osa_distance(a, b)
}

/// Relies on `strsim::jaro_winkler`: a symmetric similarity in `[0, 1]` that
/// is exactly 1 for equal texts; scaled here to ten-thousandths.
#[verifier::external_body]
pub(crate) fn jaro_winkler(a: &str, b: &str) -> (r: u32)
    ensures
        r == jaro_winkler_tenk(a@, b@),
        a@ != b@ && lex_le(a@, b@) ==> r == jaro_winkler_raw(a@, b@),
        a@ != b@ && !lex_le(a@, b@) ==> r == jaro_winkler_raw(b@, a@),
{
    let score = strsim::jaro_winkler(a, b);
    // scale the unit-interval score to ten-thousandths and round to nearest
    score.mul_add(10_000_u16.into(), 0_u8.into()).round() as u32
}

/// Relies on `strsim::sorensen_dice`: a symmetric bigram similarity in
/// `[0, 1]` that is exactly 1 for equal texts; scaled here to ten-thousandths.
#[verifier::external_body]
pub(crate) fn sorensen_dice(a: &str, b: &str) -> (r: u32)
    ensures
        r == sorensen_dice_tenk(a@, b@),
        a@ != b@ && lex_le(a@, b@) ==> r == sorensen_dice_raw(a@, b@),
        a@ != b@ && !lex_le(a@, b@) ==> r == sorensen_dice_raw(b@, a@),
{
    let score = strsim::sorensen_dice(a, b);
    // scale the unit-interval score to ten-thousandths and round to nearest
    score.mul_add(10_000_u16.into(), 0_u8.into()).round() as u32
}

/// The raw metric of an algorithm: an edit count for the edit-based
/// algorithms, a similarity in ten-thousandths for the others.
pub open spec fn raw_metric(alg: Algorithm, a: Seq<char>, b: Seq<char>) -> nat {
    match alg {
        Algorithm::LEVENSHTEIN => levenshtein_edits(a, b),
        Algorithm::DAMERAU => damerau_edits(a, b),
        Algorithm::OSA => osa_edits(a, b),
        Algorithm::JAROWINKLER => jaro_winkler_tenk(a, b),
        Algorithm::SORENSENDICE => sorensen_dice_tenk(a, b),
    }
}

/// Computes the raw metric of the algorithm on the two texts.
pub fn compute_raw_metric(alg: Algorithm, a: &str, b: &str) -> (r: u64)
    ensures
        r == raw_metric(alg, a@, b@),
        !alg.edit_based() ==> r <= SIMILARITY_SCALE,
{
    match alg {
        Algorithm::LEVENSHTEIN => levenshtein(a, b) as u64,
        Algorithm::DAMERAU => damerau_levenshtein(a, b) as u64,
        Algorithm::OSA => osa_distance(a, b) as u64,
        Algorithm::JAROWINKLER => jaro_winkler(a, b) as u64,
        Algorithm::SORENSENDICE => sorensen_dice(a, b) as u64,
    }
}

/// The similarity derived from an edit count over the longer input length:
/// one minus `edits / len_max`, in ten-thousandths, rounded down. Two empty
/// texts are fully similar, and a count at or above the length gives zero.
pub open spec fn edit_similarity_tenk(edits: nat, len_max: nat) -> nat {
    if len_max == 0 {
        SIMILARITY_SCALE as nat
    } else if edits >= len_max {
        0
    } else {
        (((SIMILARITY_SCALE as int) * (len_max - edits)) / (len_max as int)) as nat
    }
}

/// The derived similarity never leaves the scale.
pub proof fn lemma_edit_similarity_in_range(edits: nat, len_max: nat)
    ensures
        edit_similarity_tenk(edits, len_max) <= SIMILARITY_SCALE,
{
    if len_max != 0 && edits < len_max {
        let d = len_max - edits;
        lemma_mul_inequality(d as int, len_max as int, SIMILARITY_SCALE as int);
        lemma_div_is_ordered(
            (SIMILARITY_SCALE as int) * d,
            (SIMILARITY_SCALE as int) * (len_max as int),
            len_max as int,
        );
        lemma_div_multiples_vanish(SIMILARITY_SCALE as int, len_max as int);
    }
}

/// Computes the derived similarity of an edit count.
pub fn edit_similarity(edits: u64, len_max: u64) -> (r: u32)
    ensures
        r == edit_similarity_tenk(edits as nat, len_max as nat),
        r <= SIMILARITY_SCALE,
{
    if len_max == 0 {
        SIMILARITY_SCALE
    } else if edits >= len_max {
        0
    } else {
        let num: u128 = (SIMILARITY_SCALE as u128) * ((len_max - edits) as u128);
        let q: u128 = num / (len_max as u128);
        proof {
            lemma_edit_similarity_in_range(edits as nat, len_max as nat);
        }
        q as u32
    }
}

/// The similarity in ten-thousandths between two texts under an algorithm:
/// derived from the edit count for edit-based algorithms over the character
/// count of the longer text, the raw metric itself otherwise.
pub open spec fn similarity_tenk(alg: Algorithm, a: Seq<char>, b: Seq<char>) -> nat {
    if alg.edit_based() {
        edit_similarity_tenk(
            raw_metric(alg, a, b),
            if a.len() >= b.len() {
                a.len()
            } else {
                b.len()
            },
        )
    } else {
        raw_metric(alg, a, b)
    }
}

/// One scored comparison of two texts.
#[derive(Debug, Clone, PartialEq)]
pub struct Comparison {
    /// The edit count; present exactly for edit-based algorithms.
    pub edits: Option<u64>,
    /// The similarity in ten-thousandths of a point.
    pub similarity: u32,
}

/// Scores two texts under the algorithm: the raw metric, read as an edit
/// count with its derived similarity, or as the similarity itself.
pub fn compare(alg: Algorithm, a: &str, b: &str) -> (r: Comparison)
    ensures
        alg.edit_based() ==> (r.edits matches Some(e) && e == raw_metric(alg, a@, b@)),
        !alg.edit_based() ==> r.edits is None,
        r.similarity == similarity_tenk(alg, a@, b@),
{
    let raw = compute_raw_metric(alg, a, b);
    let edit_based = alg.is_edits();
    if edit_based {
        let alen = a.unicode_len();
        let blen = b.unicode_len();
        let len_max = if alen >= blen {
            alen
        } else {
            blen
        };
        Comparison { edits: Some(raw), similarity: edit_similarity(raw, len_max as u64) }
    } else {
        Comparison { edits: None, similarity: raw as u32 }
    }
}

/// Every similarity score stays within the scale.
pub proof fn lemma_similarity_in_range(alg: Algorithm, a: Seq<char>, b: Seq<char>)
    ensures
        similarity_tenk(alg, a, b) <= SIMILARITY_SCALE,
{
    if alg.edit_based() {
        let len_max: nat = if a.len() >= b.len() {
            a.len()
        } else {
            b.len()
        };
        lemma_edit_similarity_in_range(raw_metric(alg, a, b), len_max);
    }
}

/// Equal texts are a perfect match under every algorithm: the edit-based
/// algorithms report zero edits, and the similarity is the full scale.
pub proof fn lemma_identical_text_is_perfect_match(alg: Algorithm, a: Seq<char>)
    ensures
        alg.edit_based() ==> raw_metric(alg, a, a) == 0,
        similarity_tenk(alg, a, a) == SIMILARITY_SCALE,
{
    if alg.edit_based() {
        assert(raw_metric(alg, a, a) == 0);
        if a.len() > 0 {
            lemma_div_multiples_vanish(SIMILARITY_SCALE as int, a.len() as int);
        }
    }
}

/// An edit-based algorithm reports zero edits exactly between equal texts.
pub proof fn lemma_zero_edits_iff_equal(alg: Algorithm, a: Seq<char>, b: Seq<char>)
    ensures
        alg.edit_based() ==> (raw_metric(alg, a, b) == 0 <==> a == b),
{
}

/// Jaro-Winkler similarity is symmetric in its two arguments.
pub proof fn lemma_jaro_winkler_symmetric(a: Seq<char>, b: Seq<char>)
    ensures
        jaro_winkler_tenk(a, b) == jaro_winkler_tenk(b, a),
{
    lemma_lex_le_total(a, b);
    if lex_le(a, b) && lex_le(b, a) {
        lemma_lex_le_antisym(a, b);
    }
}

/// Sorensen-Dice similarity is symmetric in its two arguments.
pub proof fn lemma_sorensen_dice_symmetric(a: Seq<char>, b: Seq<char>)
    ensures
        sorensen_dice_tenk(a, b) == sorensen_dice_tenk(b, a),
{
    lemma_lex_le_total(a, b);
    if lex_le(a, b) && lex_le(b, a) {
        lemma_lex_le_antisym(a, b);
    }
}

} // verus!
