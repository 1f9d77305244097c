use recurio::record_text::{decode_record, encode_record};
use recurio::session::SessionRecord;
use recurio::StoreError;

#[test]
fn record_text_round_trips() {
    let mut session = SessionRecord::new();
    session.insert("key".to_string(), "value".to_string());
    session.insert("unicode ключ".to_string(), "значение ё".to_string());
    session.set_expiry(Some(1_700_000_000));

    let text = encode_record(&session);
    let decoded = decode_record(&text).unwrap();

    assert_eq!(decoded.id(), session.id());
    assert_eq!(decoded.expiry(), Some(1_700_000_000));
    assert_eq!(decoded.get("key").unwrap(), "value");
    assert_eq!(decoded.get("unicode ключ").unwrap(), "значение ё");
    assert!(!decoded.data_changed());
}

#[test]
fn record_text_round_trips_without_expiry() {
    let mut session = SessionRecord::new();
    session.insert("".to_string(), "empty key is a key too".to_string());

    let text = encode_record(&session);
    let decoded = decode_record(&text).unwrap();

    assert_eq!(decoded.id(), session.id());
    assert!(decoded.expiry().is_none());
    assert_eq!(decoded.get("").unwrap(), "empty key is a key too");
}

#[test]
fn negative_expiry_survives_the_round_trip() {
    let mut session = SessionRecord::new();
    session.set_expiry(Some(-1));
    let decoded = decode_record(&encode_record(&session)).unwrap();
    assert_eq!(decoded.expiry(), Some(-1));
}

#[test]
fn corrupt_record_text_fails_closed() {
    assert_eq!(decode_record("").unwrap_err(), StoreError::CorruptSessionPayload);
    assert_eq!(decode_record("short").unwrap_err(), StoreError::CorruptSessionPayload);

    let session = SessionRecord::new();
    let text = encode_record(&session);

    // Truncated text.
    let truncated: String = text.chars().take(text.chars().count() - 1).collect();
    assert_eq!(decode_record(&truncated).unwrap_err(), StoreError::CorruptSessionPayload);

    // Trailing garbage.
    let mut extended = text.clone();
    extended.push('x');
    assert_eq!(decode_record(&extended).unwrap_err(), StoreError::CorruptSessionPayload);

    // An unknown expiry tag.
    let bad_tag: String =
        text.chars().enumerate().map(|(i, c)| if i == 32 { 'z' } else { c }).collect();
    assert_eq!(decode_record(&bad_tag).unwrap_err(), StoreError::CorruptSessionPayload);
}

#[test]
fn duplicate_keys_in_the_text_resolve_to_the_later_value() {
    // Build a text whose entry list repeats a key; the decoder replays
    // inserts, so the later value wins.
    let mut session = SessionRecord::new();
    session.insert("k".to_string(), "first".to_string());
    let text = encode_record(&session);

    // Splice the single entry in twice with an updated count and value.
    let head: String = text.chars().take(33).collect();
    let entry_first: String = text.chars().skip(49).collect();
    let mut session2 = SessionRecord::new();
    session2.insert("k".to_string(), "later".to_string());
    let text2 = encode_record(&session2);
    let entry_second: String = text2.chars().skip(49).collect();

    let doubled = format!("{head}0000000000000002{entry_first}{entry_second}");
    let decoded = decode_record(&doubled).unwrap();
    assert_eq!(decoded.get("k").unwrap(), "later");
}
