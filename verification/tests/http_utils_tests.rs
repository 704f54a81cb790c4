use pact_mock_server::http_utils::{mask, process_fetch_response, FetchError, HttpAuth};

#[test]
fn masking_keeps_four_characters_at_most() {
    assert_eq!(mask(&String::from("some-token")), "some******");
    assert_eq!(mask(&String::from("abcd")), "abcd");
    assert_eq!(mask(&String::from("abc")), "***");
    assert_eq!(mask(&String::from("")), "");
}

#[test]
fn masked_display_hides_credentials() {
    let token = HttpAuth::Token(String::from("some-token"));
    assert_eq!(token.masked_display(), "Token(some******)");

    let user = HttpAuth::User(String::from("alice"), Some(String::from("wonderland")));
    assert_eq!(user.masked_display(), "User(alice, wond******)");

    let bare = HttpAuth::User(String::from("alice"), None);
    assert_eq!(bare.masked_display(), "User(alice, [no password])");
}

#[test]
fn fetch_response_with_success_status_and_json_body_is_accepted() {
    let url = String::from("http://localhost/pact.json");
    let body = String::from("{\"consumer\":{\"name\":\"Consumer\"}}");
    let (source, document) = process_fetch_response(&url, 200, &body).unwrap();
    assert_eq!(source, url);
    let expected: serde_json::Value = serde_json::from_str(&body).unwrap();
    assert_eq!(document, expected);
    assert_ne!(document, serde_json::Value::Null);
}

#[test]
fn fetch_response_with_failing_status_is_rejected() {
    let url = String::from("http://localhost/pact.json");
    let body = String::from("{}");
    let r = process_fetch_response(&url, 404, &body);
    assert!(matches!(r, Err(FetchError::StatusError(404))));
    let r = process_fetch_response(&url, 301, &body);
    assert!(matches!(r, Err(FetchError::StatusError(301))));
}

#[test]
fn fetch_response_with_unparsable_body_is_rejected() {
    let url = String::from("http://localhost/pact.json");
    let body = String::from("could not fetch URL");
    let r = process_fetch_response(&url, 200, &body);
    assert!(matches!(r, Err(FetchError::JsonError(_))));
}
