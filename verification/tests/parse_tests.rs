use attr_helpers::{parse_attrs_to_metas, HelperError};

#[test]
fn well_formed_annotations_all_parse() {
    let attrs = vec![
        "arel".to_string(),
        "arel = \"users\"".to_string(),
        "arel(name = \"uuid\")".to_string(),
        "arel(column(name = \"uuid\"))".to_string(),
    ];
    let metas = parse_attrs_to_metas(&attrs).unwrap();
    assert_eq!(metas.len(), 4);
}

#[test]
fn malformed_annotation_is_a_syntax_error() {
    let attrs = vec!["arel(".to_string()];
    match parse_attrs_to_metas(&attrs) {
        Err(HelperError::Syntax(_)) => {},
        _ => panic!("expected a syntax error, not a silent empty result"),
    }
}

#[test]
fn first_malformed_annotation_fails_the_batch() {
    let attrs = vec![
        "arel(name = \"uuid\")".to_string(),
        "arel(name = ".to_string(),
        "arel = \"users\"".to_string(),
    ];
    assert!(parse_attrs_to_metas(&attrs).is_err());
}

#[test]
fn empty_batch_parses_to_nothing() {
    let attrs: Vec<String> = Vec::new();
    let metas = parse_attrs_to_metas(&attrs).unwrap();
    assert_eq!(metas.len(), 0);
}
