use zero2prod::form::parse_form;
use zero2prod::form::FormError;
use zero2prod::routes::apply_subscription;
use zero2prod::routes::completion_response;
use zero2prod::routes::handle_subscription;
use zero2prod::subscription::SubscriptionStore;

#[test]
fn percent_and_plus_decode_in_both_fields() {
    let form = parse_form(b"name=a%2Bb+c&email=x%40y").unwrap();
    assert_eq!(form.name, "a+b c");
    assert_eq!(form.email, "x@y");
}

#[test]
fn malformed_percent_escapes_pass_through() {
    let form = parse_form(b"name=%zz%4&email=ok").unwrap();
    assert_eq!(form.name, "%zz%4");
    assert_eq!(form.email, "ok");
}

#[test]
fn hex_escapes_accept_both_cases() {
    let form = parse_form(b"name=%4A%4a&email=e").unwrap();
    assert_eq!(form.name, "JJ");
}

#[test]
fn missing_fields_are_told_apart() {
    assert_eq!(parse_form(b"email=a").unwrap_err(), FormError::MissingName);
    assert_eq!(parse_form(b"name=a").unwrap_err(), FormError::MissingEmail);
    assert_eq!(parse_form(b"").unwrap_err(), FormError::MissingName);
}

#[test]
fn duplicate_fields_are_refused() {
    assert_eq!(
        parse_form(b"name=a&name=b&email=c").unwrap_err(),
        FormError::DuplicateName
    );
    assert_eq!(
        parse_form(b"name=a&email=b&email=c").unwrap_err(),
        FormError::DuplicateEmail
    );
}

#[test]
fn empty_segments_are_skipped() {
    let form = parse_form(b"&&name=a&&email=b&").unwrap();
    assert_eq!(form.name, "a");
    assert_eq!(form.email, "b");
}

#[test]
fn key_without_equals_has_empty_value() {
    let form = parse_form(b"name&email=x").unwrap();
    assert_eq!(form.name, "");
    assert_eq!(form.email, "x");
}

#[test]
fn value_may_contain_equals() {
    let form = parse_form(b"name=a=b&email=c").unwrap();
    assert_eq!(form.name, "a=b");
}

#[test]
fn unknown_keys_are_ignored() {
    let form = parse_form(b"x=1&name=a&email=b&y=2").unwrap();
    assert_eq!(form.name, "a");
    assert_eq!(form.email, "b");
}

#[test]
fn utf8_values_decode_to_their_characters() {
    let form = parse_form(b"name=%C3%A9&email=e").unwrap();
    assert_eq!(form.name, "\u{e9}");
}

#[test]
fn invalid_utf8_is_replaced() {
    let form = parse_form(b"name=%FF&email=e").unwrap();
    assert_eq!(form.name, "\u{fffd}");
}

#[test]
fn taken_identifier_fails_with_500() {
    let mut store = SubscriptionStore::new();
    let first = apply_subscription(&mut store, b"name=a&email=b", 7, 1);
    let second = apply_subscription(&mut store, b"name=a&email=b", 7, 2);
    assert_eq!(first.status, 201);
    assert_eq!(second.status, 500);
    assert_eq!(store.len(), 1);
}

#[test]
fn apply_subscription_keeps_the_given_row() {
    let mut store = SubscriptionStore::new();
    let response = apply_subscription(&mut store, b"name=le%20guin&email=u%40g", 42, 99);
    assert_eq!(response.status, 201);
    let row = store.row(0);
    assert_eq!(row.id, 42);
    assert_eq!(row.name, "le guin");
    assert_eq!(row.email, "u@g");
    assert_eq!(row.subscribed_at_micros, 99);
}

#[test]
fn resubmission_creates_two_distinct_rows() {
    let mut store = SubscriptionStore::new();
    let body = b"name=le%20guin&email=ursula_le_guin%40gmail.com";
    let first = handle_subscription(&mut store, body);
    let second = handle_subscription(&mut store, body);
    assert_eq!(first.status, 201);
    assert_eq!(second.status, 201);
    assert_eq!(store.len(), 2);
    assert_eq!(store.row(0).name, store.row(1).name);
    assert_eq!(store.row(0).email, store.row(1).email);
    assert_ne!(store.row(0).id, store.row(1).id);
}

#[test]
fn generated_identifiers_are_version_4() {
    let mut store = SubscriptionStore::new();
    let response = handle_subscription(&mut store, b"name=a&email=b");
    assert_eq!(response.status, 201);
    let id = store.row(0).id;
    assert_eq!((id >> 76) & 0xf, 4);
    assert_eq!((id >> 62) & 0x3, 2);
}

#[test]
fn insert_outcome_maps_to_status() {
    let created = completion_response(true);
    assert_eq!(created.status, 201);
    assert_eq!(created.body.len(), 0);
    let failed = completion_response(false);
    assert_eq!(failed.status, 500);
    assert_eq!(failed.body.len(), 0);
}
