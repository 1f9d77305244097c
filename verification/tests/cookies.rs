use recurio::cookie::{decode_cookie, encode_cookie, generate_session_id};
use recurio::StoreError;

#[test]
fn cookie_round_trips_to_the_same_id() {
    let id = generate_session_id();
    let cookie = encode_cookie(&id);
    assert_eq!(decode_cookie(&cookie).unwrap(), id);
}

#[test]
fn empty_and_short_values_fail_closed() {
    assert_eq!(decode_cookie("").unwrap_err(), StoreError::MalformedCookie);
    assert_eq!(decode_cookie("abc").unwrap_err(), StoreError::MalformedCookie);
}

#[test]
fn truncated_cookie_fails_closed() {
    let id = generate_session_id();
    let cookie = encode_cookie(&id);
    let truncated: String = cookie.chars().take(40).collect();
    assert_eq!(decode_cookie(&truncated).unwrap_err(), StoreError::MalformedCookie);
}

#[test]
fn tampered_cookie_fails_closed() {
    let id = generate_session_id();
    let cookie = encode_cookie(&id);
    let first = cookie.chars().next().unwrap();
    let flipped = if first == '0' { '1' } else { '0' };
    let mut tampered = String::new();
    tampered.push(flipped);
    tampered.push_str(&cookie[first.len_utf8()..]);
    assert_eq!(decode_cookie(&tampered).unwrap_err(), StoreError::MalformedCookie);
}

#[test]
fn non_hex_cookie_fails_closed() {
    let bad = "g".repeat(48);
    assert_eq!(decode_cookie(&bad).unwrap_err(), StoreError::MalformedCookie);
}

#[test]
fn generated_ids_are_32_hex_digits() {
    let id = generate_session_id();
    assert_eq!(id.len(), 32);
    assert!(id.chars().all(|c| c.is_ascii_hexdigit() && !c.is_ascii_uppercase()));
}

#[test]
fn hex_rendering_has_exact_value() {
    let digits = recurio::hexnum::u128_to_hex(0xdeadbeef, 8);
    let text: String = digits.iter().collect();
    assert_eq!(text, "deadbeef");

    let zero = recurio::hexnum::u128_to_hex(0, 4);
    let text: String = zero.iter().collect();
    assert_eq!(text, "0000");
}

#[test]
fn hex_parsing_has_exact_value_and_rejects_others() {
    let digits: Vec<char> = "00ff".chars().collect();
    assert_eq!(recurio::hexnum::u128_from_hex(&digits), Some(255));
    let bad: Vec<char> = "00fg".chars().collect();
    assert_eq!(recurio::hexnum::u128_from_hex(&bad), None);
}

#[test]
fn error_kinds_describe_themselves() {
    assert_eq!(StoreError::MalformedCookie.describe(), "malformed session cookie");
    assert_eq!(StoreError::BackendUnavailable.describe(), "session backend unavailable");
    assert_eq!(StoreError::CorruptSessionPayload.describe(), "corrupt session payload");
}
