use zero2prod::routes::handle_subscription;
use zero2prod::routes::health_response;
use zero2prod::subscription::SubscriptionStore;

#[test]
fn health_check_works() {
    let response = health_response();

    assert_eq!(200, response.status);
    assert_eq!(0, response.body.len());
}

#[test]
fn subscribe_returns_201_for_valid_body() {
    let mut store = SubscriptionStore::new();

    let body = "name=le%20guin&email=ursula_le_guin%40gmail.com";

    let response = handle_subscription(&mut store, body.as_bytes());

    assert_eq!(response.status, 201);
    assert_eq!(store.len(), 1);
    let saved = store.row(0);
    assert_eq!(saved.name, "le guin");
    assert_eq!(saved.email, "ursula_le_guin@gmail.com");
}

#[test]
fn subscribe_returns_400_for_invalid_body() {
    let test_cases = vec![
        ("name=le%20guin", "missing the email"),
        ("email=ursula_le_guin%40gmail.com", "missing the name"),
        ("", "missing both name and email"),
    ];

    for (invalid_body, error_message) in test_cases {
        let mut store = SubscriptionStore::new();

        let response = handle_subscription(&mut store, invalid_body.as_bytes());

        assert_eq!(
            400, response.status,
            "The API did not fail with 400 when the payload was {}.",
            error_message
        );
        assert_eq!(0, store.len());
    }
}
