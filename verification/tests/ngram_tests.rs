use drug_extraction::ngram::{ngrams, words};
use drug_extraction::terms::{max_ngram_size, SearchTerm};

fn owned(words: &[&str]) -> Vec<String> {
    words.iter().map(|w| w.to_string()).collect()
}

#[test]
fn test_words() {
    let targets = vec!["he ho", "hell"];
    let words_list = words("hi hello hey howdy hola he hell hi hello hi hello hey aloha");
    let grams = ngrams(&words_list, 2);
    println!("targets: {:?}", targets);
    println!("ngrams: {:?}", grams);
    assert_eq!(grams.len(), 9);
    assert_eq!(grams[0], "hi hello");
}

#[test]
fn test_single_window() {
    let data = owned(&["1", "2"]);
    let windows = ngrams(&data, 3);
    println!("windows: {:?}", windows);
    assert!(windows.is_empty());
}

#[test]
fn test_map_order() {
    let x = vec![1, 2, 3];
    let y: Vec<i32> = x.iter().map(|a| a * 2).collect();
    println!("{:?}", y);
    assert_eq!(y, vec![2, 4, 6]);
}

#[test]
fn test_unigrams_dedup() {
    let ws = owned(&["A", "B", "A"]);
    let grams = ngrams(&ws, 1);
    assert_eq!(grams.len(), 2);
    assert!(grams.contains(&"A".to_string()));
    assert!(grams.contains(&"B".to_string()));
}

#[test]
fn test_bigrams_in_order() {
    let ws = owned(&["A", "B", "C"]);
    let grams = ngrams(&ws, 2);
    assert_eq!(grams, vec!["A B", "B C"]);
}

#[test]
fn test_words_collapse_spaces() {
    assert_eq!(words("  a   bc  d "), vec!["a", "bc", "d"]);
    assert!(words("").is_empty());
    assert!(words("   ").is_empty());
}

#[test]
fn test_term_ngram_width() {
    let one = SearchTerm {
        term: "COCAINE".to_string(),
        metadata: None,
    };
    let two = SearchTerm {
        term: "DRUG ABUSE".to_string(),
        metadata: None,
    };
    assert_eq!(one.ngrams(), 1);
    assert_eq!(two.ngrams(), 2);
}

#[test]
fn test_max_ngram_size() {
    let terms = vec![
        SearchTerm {
            term: "A".to_string(),
            metadata: None,
        },
        SearchTerm {
            term: "A B C".to_string(),
            metadata: None,
        },
        SearchTerm {
            term: "A B".to_string(),
            metadata: None,
        },
    ];
    assert_eq!(max_ngram_size(&terms), 3);
}
