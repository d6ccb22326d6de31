use discordbot::{
    capitalize_first, format_codename_response, format_register_response, generate_codename,
    CodenameData, CodenameStore,
};

#[test]
fn test_capitalize_first() {
    // normal lowercase
    assert_eq!(capitalize_first("hello"), "Hello");

    // already capitalized
    assert_eq!(capitalize_first("World"), "World");

    // empty string
    assert_eq!(capitalize_first(""), "");

    // single character
    assert_eq!(capitalize_first("a"), "A");

    // multiple words (only first letter capitalized)
    assert_eq!(capitalize_first("rust language"), "Rust language");

    // unicode character
    assert_eq!(capitalize_first("äbc"), "Äbc");
}

#[test]
fn register_response_format() {
    assert_eq!(
        format_register_response(),
        "Registered application commands"
    );
}

#[test]
fn codename_response_format() {
    let s = format_codename_response("quick fox");
    assert!(s.contains("quick fox"));
}

#[test]
fn codename_response_exact() {
    assert_eq!(
        format_codename_response("Quick Fox"),
        "Your generated codename is:\n **Quick Fox!**"
    );
}

#[test]
fn codename_data_oncecell_is_empty_by_default() {
    let store = CodenameStore::new();
    assert!(store.get().is_none());
}

#[test]
fn codename_store_set_succeeds_once_then_fails() {
    let mut store = CodenameStore::new();
    let first = CodenameData {
        animals: vec!["fox".to_string()],
        adjectives: vec!["quick".to_string()],
    };
    assert!(store.set(first).is_ok());
    let data = store.get().expect("store should be filled");
    assert_eq!(data.animals, vec!["fox".to_string()]);
    assert_eq!(data.adjectives, vec!["quick".to_string()]);

    let second = CodenameData {
        animals: vec!["thing".to_string()],
        adjectives: vec!["other".to_string()],
    };
    let refused = store.set(second);
    assert!(refused.is_err(), "a second fill must fail");
    // the refused data comes back, the first fill stays
    assert_eq!(refused.unwrap_err().animals, vec!["thing".to_string()]);
    assert_eq!(
        store.get().expect("still filled").animals,
        vec!["fox".to_string()]
    );
}

#[test]
fn generate_codename_errors_on_empty_parts() {
    let empty = CodenameData {
        animals: vec![],
        adjectives: vec![],
    };
    assert!(generate_codename(&empty).is_err());

    let only_animals = CodenameData {
        animals: vec!["fox".to_string()],
        adjectives: vec![],
    };
    assert!(generate_codename(&only_animals).is_err());

    let only_adjectives = CodenameData {
        animals: vec![],
        adjectives: vec!["quick".to_string()],
    };
    assert!(generate_codename(&only_adjectives).is_err());
}

// Simple property-style test: generate multiple codenames and ensure they are non-empty
#[test]
fn generate_codename_multiple_runs() {
    let data = CodenameData {
        animals: vec!["fox".to_string(), "dog".to_string()],
        adjectives: vec!["quick".to_string(), "brown".to_string()],
    };

    for _ in 0..10 {
        let res = generate_codename(&data).expect("should generate");
        assert!(!res.is_empty());
    }
}

#[test]
fn generate_codename_single_choice_is_exact() {
    let data = CodenameData {
        animals: vec!["fox".to_string()],
        adjectives: vec!["quick".to_string()],
    };
    let res = generate_codename(&data).expect("should generate");
    assert_eq!(res, "Quick Fox");
}

#[test]
fn generate_codename_error_text() {
    let empty = CodenameData {
        animals: vec![],
        adjectives: vec![],
    };
    assert_eq!(
        generate_codename(&empty).unwrap_err(),
        "Codename generation failed"
    );
}

#[test]
fn capitalize_first_expands_multi_char_uppercase() {
    // the uppercase mapping of a character may be more than one character
    assert_eq!(capitalize_first("\u{df}eta"), "SSeta");
}
