use drug_extraction::algorithm::{Algorithm, OutputFormat, ProgressKind, ValueError};

#[test]
fn test() {
    assert_eq!(1, 1);
}

#[test]
fn test2() {
    let x = "jsonl";
    assert_eq!(OutputFormat::from_str(x).unwrap(), OutputFormat::JSONL);
}

#[test]
fn test_algorithm_from_str() {
    assert_eq!(Algorithm::from_str("Levenshtein"), Ok(Algorithm::LEVENSHTEIN));
    assert_eq!(Algorithm::from_str("damerau"), Ok(Algorithm::DAMERAU));
    assert_eq!(Algorithm::from_str("OSA"), Ok(Algorithm::OSA));
    assert_eq!(Algorithm::from_str("jw"), Ok(Algorithm::JAROWINKLER));
    assert_eq!(Algorithm::from_str("SorensenDice"), Ok(Algorithm::SORENSENDICE));
    assert_eq!(Algorithm::from_str(""), Ok(Algorithm::LEVENSHTEIN));
    assert_eq!(Algorithm::from_str("x"), Err(ValueError));
}

#[test]
fn test_algorithm_names() {
    assert_eq!(Algorithm::LEVENSHTEIN.to_string(), "Levenshtein");
    assert_eq!(Algorithm::DAMERAU.to_string(), "Damerau");
    assert_eq!(Algorithm::OSA.to_string(), "OSA");
    assert_eq!(Algorithm::JAROWINKLER.to_string(), "JaroWinkler");
    assert_eq!(Algorithm::SORENSENDICE.to_string(), "SorensenDice");
}

#[test]
fn test_algorithm_options() {
    let options = Algorithm::options();
    assert_eq!(
        options,
        vec!["Levenshtein", "Damerau", "OSA", "JaroWinkler", "SorensenDice"]
    );
    for name in &options {
        assert!(Algorithm::from_str(name).is_ok());
    }
}

#[test]
fn test_is_edits() {
    assert!(Algorithm::LEVENSHTEIN.is_edits());
    assert!(Algorithm::DAMERAU.is_edits());
    assert!(Algorithm::OSA.is_edits());
    assert!(!Algorithm::JAROWINKLER.is_edits());
    assert!(!Algorithm::SORENSENDICE.is_edits());
}

#[test]
fn test_output_format_from_str() {
    assert_eq!(OutputFormat::from_str("CSV"), Ok(OutputFormat::CSV));
    assert_eq!(OutputFormat::from_str("csv"), Ok(OutputFormat::CSV));
    assert_eq!(OutputFormat::from_str("JSONL"), Ok(OutputFormat::JSONL));
    assert_eq!(OutputFormat::from_str("parquet"), Err(ValueError));
}

#[test]
fn test_progress_kind_from_str() {
    assert!(matches!(ProgressKind::from_str("spinner"), Ok(ProgressKind::Spinner)));
    assert!(matches!(ProgressKind::from_str("bar"), Ok(ProgressKind::Bar)));
    assert!(ProgressKind::from_str("wheel").is_err());
}

#[test]
fn test_value_error_message() {
    assert_eq!(ValueError.message(), "Received an unexpected value");
}
