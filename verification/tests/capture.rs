use specra::auth::http_response;
use specra::auth::process_request_line;
use specra::auth::CaptureFailure;

#[test]
fn matching_state_is_captured() {
    let r = process_request_line("GET /?token=tok_9f8&state=abc123 HTTP/1.1", "abc123");
    let a = r.unwrap();
    assert_eq!(a.token, "tok_9f8");
    assert_eq!(a.state, "abc123");
}

#[test]
fn success_serves_http_200() {
    let r = process_request_line("GET /?token=tok_9f8&state=abc123 HTTP/1.1", "abc123");
    assert!(r.is_ok());
    let page = http_response(&r).unwrap();
    assert!(page.starts_with("HTTP/1.1 200 OK\r\n"));
    assert!(page.contains("Content-Type: text/html"));
    assert!(page.contains("Authentication successful!"));
}

#[test]
fn mismatched_state_is_rejected() {
    let r = process_request_line("GET /?token=tok_9f8&state=WRONG HTTP/1.1", "abc123");
    match r {
        Err(CaptureFailure::StateMismatch { ref expected, ref received }) => {
            assert_eq!(expected.as_str(), "abc123");
            assert_eq!(received.as_str(), "WRONG");
        }
        _ => panic!("expected a state mismatch"),
    }
    let page = http_response(&r).unwrap();
    assert!(page.starts_with("HTTP/1.1 400 Bad Request\r\n"));
    assert!(page.contains("State mismatch."));
}

#[test]
fn no_query_is_missing_query() {
    let r = process_request_line("GET / HTTP/1.1", "abc123");
    assert!(matches!(r, Err(CaptureFailure::MissingQuery)));
    assert!(http_response(&r).is_none());
}

#[test]
fn absent_token_is_missing_token() {
    let r = process_request_line("GET /?state=abc123&other=1 HTTP/1.1", "abc123");
    assert!(matches!(r, Err(CaptureFailure::MissingToken)));
    assert!(http_response(&r).is_none());
}

#[test]
fn absent_state_is_missing_state() {
    let r = process_request_line("GET /?token=tok_9f8 HTTP/1.1", "abc123");
    assert!(matches!(r, Err(CaptureFailure::MissingState)));
    assert!(http_response(&r).is_none());
}

#[test]
fn one_field_line_is_malformed() {
    let r = process_request_line("GET", "abc123");
    assert!(matches!(r, Err(CaptureFailure::MalformedRequest)));
}

#[test]
fn empty_line_is_malformed() {
    let r = process_request_line("", "abc123");
    assert!(matches!(r, Err(CaptureFailure::MalformedRequest)));
}

#[test]
fn parameter_without_equals_has_empty_value() {
    let r = process_request_line("GET /?token&state=abc123 HTTP/1.1", "abc123");
    let a = r.unwrap();
    assert_eq!(a.token, "");
    assert_eq!(a.state, "abc123");
}

#[test]
fn unrecognized_parameters_are_ignored() {
    let r = process_request_line("GET /?foo=1&token=a&state=s&bar=2 HTTP/1.1", "s");
    let a = r.unwrap();
    assert_eq!(a.token, "a");
    assert_eq!(a.state, "s");
}

#[test]
fn first_occurrence_of_a_key_wins() {
    let r = process_request_line("GET /?token=a&token=b&state=s HTTP/1.1", "s");
    let a = r.unwrap();
    assert_eq!(a.token, "a");
}

#[test]
fn repeated_separators_are_tolerated() {
    let r = process_request_line("GET  /?token=a&state=s  HTTP/1.1", "s");
    let a = r.unwrap();
    assert_eq!(a.token, "a");
}

#[test]
fn unicode_separators_are_whitespace() {
    let r = process_request_line("GET\u{A0}/?token=a&state=s\u{2003}HTTP/1.1", "s");
    let a = r.unwrap();
    assert_eq!(a.token, "a");
    assert_eq!(a.state, "s");
}

#[test]
fn empty_query_has_no_token() {
    let r = process_request_line("GET /? HTTP/1.1", "s");
    assert!(matches!(r, Err(CaptureFailure::MissingToken)));
}
