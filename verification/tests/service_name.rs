use recurio::domain::service::ServiceName;

#[test]
fn a_64_grapheme_long_name_is_valid() {
    let name = "ё".repeat(64);
    assert!(ServiceName::parse(name).is_ok());
}

#[test]
fn name_longer_than_64_graphemes_is_invalid() {
    let name = "ё".repeat(128);
    assert!(ServiceName::parse(name).is_err());
}

#[test]
fn whitespaces_only_are_rejected() {
    let name = " ".to_string();
    assert!(ServiceName::parse(name).is_err());
}

#[test]
fn empty_string_is_rejected() {
    let name = "".to_string();
    assert!(ServiceName::parse(name).is_err());
}

#[test]
fn names_containing_an_invalid_character_are_rejected() {
    for name in &['/', '(', ')', '"', '<', '>', '\\', '{', '}'] {
        let name = name.to_string();
        assert!(ServiceName::parse(name).is_err());
    }
}

#[test]
fn a_valid_name_is_parsed_successfully() {
    let name = "Disney+".to_string();
    assert!(ServiceName::parse(name).is_ok());
}

#[test]
fn additional_whitespace_gets_trimmed() {
    let name = " Netflix ".to_string();
    let service_name = ServiceName::parse(name).unwrap();
    assert_eq!(service_name.as_ref(), "Netflix");
}

#[test]
fn grapheme_clusters_are_counted_not_characters() {
    // 64 clusters of two characters each: valid even though the string
    // holds 128 characters.
    let name = "e\u{301}".repeat(64);
    assert!(ServiceName::parse(name).is_ok());
    let name = "e\u{301}".repeat(65);
    assert!(ServiceName::parse(name).is_err());
}

#[test]
fn rejection_message_names_the_input() {
    let err = ServiceName::parse("{}".to_string()).unwrap_err();
    assert_eq!(err, "{} is not a valid service name.");
}
