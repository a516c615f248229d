use drug_extraction::algorithm::Algorithm;
use drug_extraction::cache::ComparisonCache;
use drug_extraction::columns::{collect_column_info, get_column_info, ColumnInfo};
use drug_extraction::config::{validate_config, ConfigError};
use drug_extraction::matcher::{scan_column, scan_record, scan_rows};
use drug_extraction::terms::SearchTerm;

fn term(t: &str) -> SearchTerm {
    SearchTerm {
        term: t.to_string(),
        metadata: None,
    }
}

fn strings(v: &[&str]) -> Vec<String> {
    v.iter().map(|s| s.to_string()).collect()
}

#[test]
fn test_golden_exact_match() {
    let cfg = validate_config(Algorithm::LEVENSHTEIN, Some(0), None).unwrap();
    let mut cache = ComparisonCache::new(Algorithm::LEVENSHTEIN, 100);
    let terms = vec![term("COCAINE")];
    let results = scan_column(&cfg, &mut cache, &terms, "r1", "cause", "COCAINE");
    assert_eq!(results.len(), 1);
    assert_eq!(results[0].edits, Some(0));
    assert_eq!(results[0].similarity, 10000);
    assert_eq!(results[0].matched_term, "COCAINE");
    assert_eq!(results[0].record_id, "r1");
    assert_eq!(results[0].column, "cause");

    // included for any edits cutoff and for the tightest similarity threshold
    let loose = validate_config(Algorithm::LEVENSHTEIN, Some(5), None).unwrap();
    let mut cache2 = ComparisonCache::new(Algorithm::LEVENSHTEIN, 100);
    assert_eq!(
        scan_column(&loose, &mut cache2, &terms, "r1", "cause", "COCAINE").len(),
        1
    );
    let strict = validate_config(Algorithm::JAROWINKLER, None, Some(10000)).unwrap();
    let mut cache3 = ComparisonCache::new(Algorithm::JAROWINKLER, 100);
    let jw_results = scan_column(&strict, &mut cache3, &terms, "r1", "cause", "COCAINE");
    assert_eq!(jw_results.len(), 1);
    assert_eq!(jw_results[0].edits, None);
    assert_eq!(jw_results[0].similarity, 10000);
}

#[test]
fn test_max_edits_cutoff() {
    let cfg = validate_config(Algorithm::LEVENSHTEIN, Some(1), None).unwrap();
    let mut cache = ComparisonCache::new(Algorithm::LEVENSHTEIN, 100);
    let terms = vec![term("HEROIN")];
    let text = "heroin heroine herpes nothing";
    let results = scan_column(&cfg, &mut cache, &terms, "0", "text", text);
    assert!(!results.is_empty());
    for r in &results {
        assert!(r.edits.unwrap() <= 1);
    }
    // HEROIN (0 edits) and HEROINE (1 edit) pass; HERPES and NOTHING do not
    assert_eq!(results.len(), 2);
}

#[test]
fn test_similarity_threshold() {
    let cfg = validate_config(Algorithm::JAROWINKLER, None, Some(9500)).unwrap();
    let mut cache = ComparisonCache::new(Algorithm::JAROWINKLER, 100);
    let terms = vec![term("FENTANYL")];
    let results = scan_column(&cfg, &mut cache, &terms, "0", "text", "fentanyl fentanil tea");
    for r in &results {
        assert!(r.similarity >= 9500);
        assert_eq!(r.edits, None);
    }
    assert_eq!(results.len(), 2);
}

#[test]
fn test_no_filter_keeps_everything() {
    let cfg = validate_config(Algorithm::OSA, None, None).unwrap();
    let mut cache = ComparisonCache::new(Algorithm::OSA, 100);
    let terms = vec![term("AB")];
    let results = scan_column(&cfg, &mut cache, &terms, "0", "c", "xx yy zz");
    assert_eq!(results.len(), 3);
}

#[test]
fn test_determinism() {
    let cfg = validate_config(Algorithm::JAROWINKLER, None, Some(5000)).unwrap();
    let terms = vec![term("COCAINE"), term("DRUG ABUSE")];
    let text = "history of drug abuse and cocaine use";
    let mut cache_a = ComparisonCache::new(Algorithm::JAROWINKLER, 50);
    let mut cache_b = ComparisonCache::new(Algorithm::JAROWINKLER, 50);
    let first = scan_column(&cfg, &mut cache_a, &terms, "7", "note", text);
    let second = scan_column(&cfg, &mut cache_b, &terms, "7", "note", text);
    assert_eq!(first, second);
}

#[test]
fn test_multi_word_terms_use_windows() {
    let cfg = validate_config(Algorithm::LEVENSHTEIN, Some(0), None).unwrap();
    let mut cache = ComparisonCache::new(Algorithm::LEVENSHTEIN, 100);
    let terms = vec![term("DRUG ABUSE")];
    let results = scan_column(&cfg, &mut cache, &terms, "0", "c", "chronic drug abuse noted");
    assert_eq!(results.len(), 1);
    assert_eq!(results[0].matched_term, "DRUG ABUSE");
}

#[test]
fn test_empty_cell_yields_nothing() {
    let cfg = validate_config(Algorithm::LEVENSHTEIN, Some(2), None).unwrap();
    let mut cache = ComparisonCache::new(Algorithm::LEVENSHTEIN, 100);
    let terms = vec![term("COCAINE")];
    assert!(scan_column(&cfg, &mut cache, &terms, "0", "c", "").is_empty());
    assert!(scan_column(&cfg, &mut cache, &terms, "0", "c", "..!!..").is_empty());
}

#[test]
fn test_short_text_has_no_window() {
    let cfg = validate_config(Algorithm::LEVENSHTEIN, Some(5), None).unwrap();
    let mut cache = ComparisonCache::new(Algorithm::LEVENSHTEIN, 100);
    let terms = vec![term("ONE TWO THREE")];
    assert!(scan_column(&cfg, &mut cache, &terms, "0", "c", "one two").is_empty());
}

#[test]
fn test_scan_record_covers_all_columns() {
    let cfg = validate_config(Algorithm::LEVENSHTEIN, Some(0), None).unwrap();
    let mut cache = ComparisonCache::new(Algorithm::LEVENSHTEIN, 100);
    let terms = vec![term("COCAINE")];
    let columns = vec![
        ("primary".to_string(), "cocaine toxicity".to_string()),
        ("secondary".to_string(), "none".to_string()),
        ("tertiary".to_string(), "cocaine".to_string()),
    ];
    let results = scan_record(&cfg, &mut cache, &terms, "42", &columns);
    assert_eq!(results.len(), 2);
    assert_eq!(results[0].column, "primary");
    assert_eq!(results[1].column, "tertiary");
}

#[test]
fn test_scan_rows_shares_cache() {
    let cfg = validate_config(Algorithm::JAROWINKLER, None, Some(9000)).unwrap();
    let mut cache = ComparisonCache::new(Algorithm::JAROWINKLER, 10);
    let terms = vec![term("COCAINE")];
    let rows = vec![
        (
            "a".to_string(),
            vec![("c".to_string(), "cocaine found".to_string())],
        ),
        (
            "b".to_string(),
            vec![("c".to_string(), "cocaine found".to_string())],
        ),
    ];
    let results = scan_rows(&cfg, &mut cache, &terms, &rows);
    assert_eq!(results.len(), 2);
    assert_eq!(results[0].record_id, "a");
    assert_eq!(results[1].record_id, "b");
    assert_eq!(results[0].similarity, results[1].similarity);
}

#[test]
fn test_dashed_term_matches_dashed_text() {
    // terms and column text go through the same dash-keeping normalizer
    let cfg = validate_config(Algorithm::LEVENSHTEIN, Some(0), None).unwrap();
    let mut cache = ComparisonCache::new(Algorithm::LEVENSHTEIN, 100);
    let terms = vec![term("SELF-HARM"), term("U-47700")];
    let results = scan_column(
        &cfg,
        &mut cache,
        &terms,
        "9",
        "note",
        "self-harm and u-47700 involved",
    );
    assert_eq!(results.len(), 2);
    assert_eq!(results[0].matched_term, "SELF-HARM");
    assert_eq!(results[1].matched_term, "U-47700");
}

#[test]
fn test_validate_config_errors() {
    assert_eq!(
        validate_config(Algorithm::LEVENSHTEIN, Some(-1), None),
        Err(ConfigError::NegativeMaxEdits)
    );
    assert_eq!(
        validate_config(Algorithm::JAROWINKLER, None, Some(10001)),
        Err(ConfigError::ThresholdOutOfRange)
    );
    assert_eq!(
        validate_config(Algorithm::JAROWINKLER, None, Some(-2)),
        Err(ConfigError::ThresholdOutOfRange)
    );
    assert_eq!(
        validate_config(Algorithm::SORENSENDICE, Some(1), None),
        Err(ConfigError::EditsCutoffForSimilarityAlgorithm)
    );
    assert!(validate_config(Algorithm::OSA, Some(3), Some(9000)).is_ok());
}

#[test]
fn test_get_column_info() {
    let header = strings(&["a", "b", "c"]);
    let col = "a".to_string();
    assert_eq!(get_column_info(&header, &col).unwrap().index, 0);
}

#[test]
fn test_get_column_info_errors() {
    let header = strings(&["a", "b", "c"]);
    let col = "d".to_string();
    assert!(get_column_info(&header, &col).is_err());
}

#[test]
fn test_collect_column_info() {
    let header = strings(&["a", "b", "c"]);
    let cols = strings(&["a", "b"]);
    let info = collect_column_info(&header, &cols);
    assert!(info.is_ok());
    let info = info.unwrap();
    assert_eq!(info.len(), 2);
    assert_eq!(
        info,
        vec![
            ColumnInfo {
                name: "a".to_string(),
                index: 0
            },
            ColumnInfo {
                name: "b".to_string(),
                index: 1
            }
        ]
    );
}

#[test]
fn test_missing_column_named_in_error() {
    let header = strings(&["id", "note"]);
    let cols = strings(&["note", "cause"]);
    match collect_column_info(&header, &cols) {
        Err(ConfigError::ColumnNotFound(name)) => assert_eq!(name, "cause"),
        other => panic!("expected a missing-column error, got {:?}", other),
    }
}
