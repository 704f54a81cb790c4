use pact_mock_server::contract::{HttpResponse, OptionalBody};
use pact_mock_server::wire::{parse_request_line, render_response};

#[test]
fn request_line_yields_method_and_path() {
    let parsed = parse_request_line(&String::from("GET /mallory HTTP/1.1")).unwrap();
    assert_eq!(parsed.0, "GET");
    assert_eq!(parsed.1, "/mallory");

    let parsed = parse_request_line(&String::from("POST / HTTP/1.0")).unwrap();
    assert_eq!(parsed.0, "POST");
    assert_eq!(parsed.1, "/");
}

#[test]
fn request_line_without_two_spaces_is_refused() {
    assert!(parse_request_line(&String::from("GET")).is_none());
    assert!(parse_request_line(&String::from("GET /hello")).is_none());
    assert!(parse_request_line(&String::from("")).is_none());
}

#[test]
fn response_wire_text_is_exact() {
    let response = HttpResponse {
        status: 200,
        headers: vec![(String::from("Content-Type"), String::from("text/plain"))],
        body: OptionalBody::Present(String::from("That is some good Mallory."), None),
    };
    assert_eq!(
        render_response(&response),
        "HTTP/1.1 200 \r\nContent-Type: text/plain\r\n\r\nThat is some good Mallory."
    );

    let empty = HttpResponse { status: 500, headers: vec![], body: OptionalBody::Missing };
    assert_eq!(render_response(&empty), "HTTP/1.1 500 \r\n\r\n");
}
