use drug_extraction::algorithm::Algorithm;
use drug_extraction::analyze::{analyze, percent_hundredths};
use drug_extraction::cache::ComparisonCache;
use drug_extraction::config::validate_config;
use drug_extraction::matcher::scan_rows;
use drug_extraction::terms::SearchTerm;

fn term(t: &str) -> SearchTerm {
    SearchTerm {
        term: t.to_string(),
        metadata: None,
    }
}

fn row(id: &str, text: &str) -> (String, Vec<(String, String)>) {
    (id.to_string(), vec![("note".to_string(), text.to_string())])
}

#[test]
fn test_three_records() {
    let cfg = validate_config(Algorithm::LEVENSHTEIN, Some(0), None).unwrap();
    let mut cache = ComparisonCache::new(Algorithm::LEVENSHTEIN, 100);
    let terms = vec![term("COCAINE"), term("HEROIN"), term("FENTANYL")];
    let rows = vec![
        row("r1", "cocaine and heroin involved"),
        row("r2", "nothing of note"),
        row("r3", "cocaine cocaine cocaine"),
    ];
    let results = scan_rows(&cfg, &mut cache, &terms, &rows);
    // r1 matches cocaine and heroin; r3 matches cocaine once (windows dedup)
    assert_eq!(results.len(), 3);
    let analysis = analyze(&results, rows.len() as u64, terms.len() as u64);
    assert_eq!(analysis.total_records, 3);
    assert_eq!(analysis.records_with_match, 2);
    assert_eq!(analysis.total_terms, 3);
    assert_eq!(analysis.terms_with_match, 2);
    let (top_id, top_count) = analysis.top_record.unwrap();
    assert_eq!(top_id, "r1");
    assert_eq!(top_count, 2);
    let (top_term, term_count) = analysis.top_term.unwrap();
    assert_eq!(top_term, "COCAINE");
    assert_eq!(term_count, 2);
}

#[test]
fn test_no_matches_analysis() {
    let results = Vec::new();
    let analysis = analyze(&results, 5, 4);
    assert_eq!(analysis.records_with_match, 0);
    assert_eq!(analysis.terms_with_match, 0);
    assert!(analysis.top_record.is_none());
    assert!(analysis.top_term.is_none());
}

#[test]
fn test_percentage_is_ratio_of_counts() {
    // two of four records matched: 50.00 percent
    assert_eq!(percent_hundredths(2, 4), 5000);
    // one of three: 33.33 percent, rounded down
    assert_eq!(percent_hundredths(1, 3), 3333);
    assert_eq!(percent_hundredths(0, 7), 0);
    assert_eq!(percent_hundredths(7, 7), 10000);
}
