use drug_extraction::drug::{drug_search_terms, Drug};
use drug_extraction::terms::{clean_terms, SearchTerm};

fn drug(name: &str, rx_id: &str) -> Drug {
    Drug {
        name: name.to_string(),
        rx_id: rx_id.to_string(),
        class_id: "D000701".to_string(),
    }
}

#[test]
fn test_aliases_split_on_slash() {
    let d = drug("Acetaminophen/Oxycodone", "1049221");
    assert_eq!(d.aliases(), vec!["Acetaminophen", "Oxycodone"]);
}

#[test]
fn test_aliases_without_slash() {
    let d = drug("Morphine", "7052");
    assert_eq!(d.aliases(), vec!["Morphine"]);
    let empty = drug("", "0");
    assert_eq!(empty.aliases(), vec![""]);
}

#[test]
fn test_drug_search_terms_normalized() {
    let drugs = vec![
        drug("Acetaminophen/Oxycodone", "1049221"),
        drug("Heroin", "3304"),
    ];
    let terms = drug_search_terms(&drugs);
    assert_eq!(terms.len(), 3);
    assert_eq!(terms[0].term, "ACETAMINOPHEN");
    assert_eq!(terms[0].metadata, Some("1049221".to_string()));
    assert_eq!(terms[1].term, "OXYCODONE");
    assert_eq!(terms[1].metadata, Some("1049221".to_string()));
    assert_eq!(terms[2].term, "HEROIN");
    assert_eq!(terms[2].metadata, Some("3304".to_string()));
}

#[test]
fn test_clean_terms() {
    let raw = vec![
        SearchTerm {
            term: "self-harm!".to_string(),
            metadata: Some("meta".to_string()),
        },
        SearchTerm {
            term: " cocaine ".to_string(),
            metadata: None,
        },
    ];
    let cleaned = clean_terms(&raw);
    assert_eq!(cleaned[0].term, "SELF-HARM");
    assert_eq!(cleaned[0].metadata, Some("meta".to_string()));
    assert_eq!(cleaned[1].term, "COCAINE");
    assert_eq!(cleaned[1].metadata, None);
}
