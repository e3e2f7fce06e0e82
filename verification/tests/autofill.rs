use appdb::autofill::{normalized_now_token, AutoFill};

#[test]
fn normalized_now_token_uses_fixed_nine_digit_fraction() {
    assert_eq!(
        normalized_now_token("2026-04-23T08:00:00Z".to_owned()),
        "2026-04-23T08:00:00.000000000Z"
    );
    assert_eq!(
        normalized_now_token("2026-04-23T08:00:00.123Z".to_owned()),
        "2026-04-23T08:00:00.123000000Z"
    );
    assert_eq!(
        normalized_now_token("2026-04-23T08:00:00.123456789Z".to_owned()),
        "2026-04-23T08:00:00.123456789Z"
    );
}

#[test]
fn fill_now_resolves_pending_values_only_once() {
    let mut value = AutoFill::pending();
    value.fill_now_if_pending();
    let first = value.clone();
    value.fill_now_if_pending();
    assert_eq!(value, first);
    assert!(!value.is_pending());
}

#[test]
fn fill_now_token_has_nine_digit_fraction() {
    let mut value = AutoFill::pending();
    value.fill_now_if_pending();
    let token = value.as_str().expect("filled").to_owned();
    let dot = token.find('.').expect("fraction present");
    assert!(token.ends_with('Z'));
    assert_eq!(token.len() - dot - 2, 9);
    assert!(token[dot + 1..token.len() - 1].chars().all(|c| c.is_ascii_digit()));
    let head = &token[..dot];
    let n = head.len();
    assert!(n >= 19);
    assert_eq!(&head[n - 15..n - 14], "-");
    assert_eq!(&head[n - 12..n - 11], "-");
    assert_eq!(&head[n - 9..n - 8], "T");
    assert_eq!(&head[n - 6..n - 5], ":");
    assert_eq!(&head[n - 3..n - 2], ":");
}

#[test]
fn normalized_now_token_truncates_long_fractions() {
    assert_eq!(
        normalized_now_token("2026-04-23T08:00:00.1234567891Z".to_owned()),
        "2026-04-23T08:00:00.123456789Z"
    );
}

#[test]
fn resolved_values_are_never_refilled() {
    let mut value = AutoFill::resolved("fixed");
    value.fill_now_if_pending();
    assert_eq!(value.as_str(), Some("fixed"));
    let mut calls = 0;
    value.fill_with_if_pending(|| {
        calls += 1;
        "other".to_owned()
    });
    assert_eq!(calls, 0);
    assert_eq!(value.into_inner(), Some("fixed".to_owned()));
}

#[test]
fn fill_with_resolves_pending_value() {
    let mut value = AutoFill::default();
    assert!(value.is_pending());
    value.fill_with_if_pending(|| "token".to_owned());
    assert_eq!(value.as_str(), Some("token"));
}
