use drug_extraction::algorithm::Algorithm;
use drug_extraction::cache::ComparisonCache;
use drug_extraction::metrics::{compare, SIMILARITY_SCALE};

#[test]
fn test_levenshtein() {
    let s1 = "alcohol";
    let s2 = "acloholism";
    let d = compare(Algorithm::LEVENSHTEIN, s1, s2).edits;
    assert_eq!(d, Some(5));
}

#[test]
fn test_jaro_winkler() {
    let s1 = "alcohol";
    let s2 = "acloholism";
    let d = compare(Algorithm::JAROWINKLER, s1, s2).similarity;
    // ten-thousandths for four decimals
    assert_eq!(d, 8671);
    let val = (d as f64) / 10000.0;
    assert_eq!(val, 0.8671);
}

#[test]
fn test_sorensen_dice() {
    let s1 = "alcohol";
    let s2 = "acloholism";
    let d = compare(Algorithm::SORENSENDICE, s1, s2).similarity;
    assert_eq!(d, 4000);
}

#[test]
fn test_damerau() {
    let s1 = "alcohol";
    let s2 = "acloholism";
    let d = compare(Algorithm::DAMERAU, s1, s2).edits;
    assert_eq!(d, Some(4));
}

#[test]
fn test_osa() {
    let s1 = "alcohol";
    let s2 = "acloholism";
    let d = compare(Algorithm::OSA, s1, s2).edits;
    assert_eq!(d, Some(4));
}

#[test]
fn test_jaro() {
    // missing the first letter still scores high but below an exact match
    let j = compare(Algorithm::JAROWINKLER, "ALCOHOL", "IALCOHOL").similarity;
    println!("{}", j);
    assert!(j > 9000 && j < 10000);
}

#[test]
fn test_equal_strings_perfect_match() {
    for alg in [
        Algorithm::LEVENSHTEIN,
        Algorithm::DAMERAU,
        Algorithm::OSA,
        Algorithm::JAROWINKLER,
        Algorithm::SORENSENDICE,
    ] {
        let r = compare(alg, "COCAINE", "COCAINE");
        assert_eq!(r.similarity, SIMILARITY_SCALE);
        if alg.is_edits() {
            assert_eq!(r.edits, Some(0));
        } else {
            assert_eq!(r.edits, None);
        }
    }
}

#[test]
fn test_jaro_winkler_symmetric() {
    for (a, b) in [
        ("ALCOHOL", "ACLOHOLISM"),
        ("", "X"),
        ("HEROIN", "HEROINE"),
        ("AB", "BA"),
    ] {
        let lr = compare(Algorithm::JAROWINKLER, a, b).similarity;
        let rl = compare(Algorithm::JAROWINKLER, b, a).similarity;
        assert_eq!(lr, rl);
    }
}

#[test]
fn test_edit_similarity_derivation() {
    // 5 edits over the longer length 10: similarity 1 - 5/10 = 0.5
    let r = compare(Algorithm::LEVENSHTEIN, "alcohol", "acloholism");
    assert_eq!(r.edits, Some(5));
    assert_eq!(r.similarity, 5000);
}

#[test]
fn test_similarity_within_scale() {
    for alg in [
        Algorithm::LEVENSHTEIN,
        Algorithm::DAMERAU,
        Algorithm::OSA,
        Algorithm::JAROWINKLER,
        Algorithm::SORENSENDICE,
    ] {
        for (a, b) in [("", ""), ("", "ABC"), ("ABC", ""), ("AB", "ZZZZZZ")] {
            let r = compare(alg, a, b);
            assert!(r.similarity <= SIMILARITY_SCALE);
        }
    }
}

#[test]
fn test_cache_consistency() {
    let mut cache = ComparisonCache::new(Algorithm::JAROWINKLER, 10);
    let first = cache.lookup_or_compute("ALCOHOL", "ACLOHOLISM");
    let second = cache.lookup_or_compute("ALCOHOL", "ACLOHOLISM");
    let fresh = compare(Algorithm::JAROWINKLER, "ALCOHOL", "ACLOHOLISM").similarity;
    assert_eq!(first, second);
    assert_eq!(first, fresh as u64);
}

#[test]
fn test_cache_eviction_keeps_consistency() {
    let mut cache = ComparisonCache::new(Algorithm::LEVENSHTEIN, 2);
    let pairs = [("A", "B"), ("C", "D"), ("E", "F"), ("A", "B")];
    for (a, b) in pairs {
        let v = cache.lookup_or_compute(a, b);
        assert_eq!(Some(v), compare(Algorithm::LEVENSHTEIN, a, b).edits);
    }
}
