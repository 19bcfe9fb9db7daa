use actix_web::http::header::{HeaderMap, HeaderName, HeaderValue};
use observability_core::header::INVALID_HEADER_VALUE_TEXT;
use observability_core::requestid::{
    attach_request_id, finish, RequestIdHeader, RequestIdHeaderMiddleware, Response, Warning,
    INVALID_REQUEST_ID_MESSAGE, MISSING_REQUEST_ID_MESSAGE, REQUEST_ID_HEADER_NAME,
};

fn response(status: u16, body: &'static str) -> Response<&'static str> {
    Response { status, headers: HeaderMap::new(), body }
}

fn invalid() -> Option<Warning> {
    Some(Warning::InvalidRequestId { reason: "failed to parse header value".to_string() })
}

fn values(headers: &HeaderMap, name: &str) -> Vec<Vec<u8>> {
    headers.get_all(name).map(|value| value.as_bytes().to_vec()).collect()
}

#[test]
fn header_name_is_the_lower_case_token() {
    assert_eq!(REQUEST_ID_HEADER_NAME, "x-request-id");
    assert_eq!(REQUEST_ID_HEADER_NAME, REQUEST_ID_HEADER_NAME.to_lowercase());
}

#[test]
fn new_transform_wraps_the_service() {
    let wrapped: RequestIdHeaderMiddleware<u32> = RequestIdHeader.new_transform(41u32);
    assert_eq!(wrapped.service, 41u32);
    let named = RequestIdHeader.new_transform("inner");
    assert_eq!(named.service, "inner");
}

#[test]
fn valid_request_id_is_attached() {
    let mut headers = HeaderMap::new();
    let warning = attach_request_id(&mut headers, Some("abc-123".to_string()));
    assert_eq!(warning, None);
    assert_eq!(values(&headers, "x-request-id"), vec![b"abc-123".to_vec()]);
    assert_eq!(headers.len(), 1);
}

#[test]
fn uuid_shaped_request_id_is_attached() {
    let id = "0190f3c4-7a5e-7b3a-9d2e-5f6a7b8c9d0e";
    let mut headers = HeaderMap::new();
    let warning = attach_request_id(&mut headers, Some(id.to_string()));
    assert_eq!(warning, None);
    assert_eq!(headers.get("x-request-id").unwrap().to_str().unwrap(), id);
}

#[test]
fn end_to_end_response_carries_the_request_id() {
    let outcome: Result<Response<&'static str>, String> = Ok(response(200, "ok"));
    let (sent, warning) = finish(Some("abc-123".to_string()), outcome);
    let sent = sent.unwrap();
    assert_eq!(sent.status, 200);
    assert_eq!(sent.body, "ok");
    assert_eq!(values(&sent.headers, "x-request-id"), vec![b"abc-123".to_vec()]);
    assert_eq!(warning, None);
}

#[test]
fn end_to_end_missing_request_id_is_reported_once() {
    let outcome: Result<Response<&'static str>, String> = Ok(response(404, ""));
    let (sent, warning) = finish(None, outcome);
    let sent = sent.unwrap();
    assert_eq!(sent.status, 404);
    assert_eq!(sent.body, "");
    assert!(sent.headers.get("x-request-id").is_none());
    assert!(sent.headers.is_empty());
    assert_eq!(warning, Some(Warning::MissingRequestId));
}

#[test]
fn missing_request_id_leaves_the_headers_alone() {
    let mut headers = HeaderMap::new();
    headers.insert(HeaderName::from_static("content-type"), HeaderValue::from_static("text/plain"));
    headers.append(HeaderName::from_static("set-cookie"), HeaderValue::from_static("a=1"));
    headers.append(HeaderName::from_static("set-cookie"), HeaderValue::from_static("b=2"));
    let warning = attach_request_id(&mut headers, None);
    assert_eq!(warning, Some(Warning::MissingRequestId));
    assert_eq!(headers.len(), 3);
    assert_eq!(values(&headers, "content-type"), vec![b"text/plain".to_vec()]);
    assert_eq!(values(&headers, "set-cookie"), vec![b"a=1".to_vec(), b"b=2".to_vec()]);
    assert!(headers.get("x-request-id").is_none());
}

#[test]
fn invalid_request_id_leaves_the_response_alone() {
    let mut given = response(201, "made");
    given.headers.insert(HeaderName::from_static("etag"), HeaderValue::from_static("\"v1\""));
    let outcome: Result<Response<&'static str>, String> = Ok(given);
    let (sent, warning) = finish(Some("abc\n123".to_string()), outcome);
    let sent = sent.unwrap();
    assert_eq!(warning, invalid());
    assert_eq!(sent.status, 201);
    assert_eq!(sent.body, "made");
    assert_eq!(sent.headers.len(), 1);
    assert_eq!(values(&sent.headers, "etag"), vec![b"\"v1\"".to_vec()]);
    assert!(sent.headers.get("x-request-id").is_none());
}

#[test]
fn control_characters_make_a_request_id_invalid() {
    for id in ["\u{0}", "a\rb", "\u{7f}", "tail\u{1f}", "\u{1b}[0m"] {
        let mut headers = HeaderMap::new();
        let warning = attach_request_id(&mut headers, Some(id.to_string()));
        assert_eq!(warning, invalid(), "{:?}", id);
        assert!(headers.is_empty(), "{:?}", id);
    }
}

#[test]
fn tab_space_and_text_beyond_ascii_are_attached_as_utf8() {
    for id in ["a\tb", " ", "~", "caf\u{e9}", "\u{80}", "\u{65e5}\u{672c}", "\u{1f600}"] {
        let mut headers = HeaderMap::new();
        let warning = attach_request_id(&mut headers, Some(id.to_string()));
        assert_eq!(warning, None, "{:?}", id);
        assert_eq!(values(&headers, "x-request-id"), vec![id.as_bytes().to_vec()], "{:?}", id);
    }
}

#[test]
fn empty_request_id_is_attached_as_an_empty_value() {
    let mut headers = HeaderMap::new();
    let warning = attach_request_id(&mut headers, Some(String::new()));
    assert_eq!(warning, None);
    assert_eq!(values(&headers, "x-request-id"), vec![Vec::<u8>::new()]);
}

#[test]
fn earlier_request_id_values_are_replaced() {
    let mut headers = HeaderMap::new();
    headers.append(HeaderName::from_static("x-request-id"), HeaderValue::from_static("old-1"));
    headers.append(HeaderName::from_static("x-request-id"), HeaderValue::from_static("old-2"));
    headers.insert(HeaderName::from_static("server"), HeaderValue::from_static("demo"));
    let warning = attach_request_id(&mut headers, Some("new".to_string()));
    assert_eq!(warning, None);
    assert_eq!(values(&headers, "x-request-id"), vec![b"new".to_vec()]);
    assert_eq!(values(&headers, "server"), vec![b"demo".to_vec()]);
    assert_eq!(headers.len(), 2);
}

#[test]
fn attaching_twice_is_attaching_once() {
    let mut headers = HeaderMap::new();
    assert_eq!(attach_request_id(&mut headers, Some("abc-123".to_string())), None);
    assert_eq!(attach_request_id(&mut headers, Some("abc-123".to_string())), None);
    assert_eq!(values(&headers, "x-request-id"), vec![b"abc-123".to_vec()]);
    assert_eq!(headers.len(), 1);
}

#[test]
fn handler_error_is_passed_on_unchanged() {
    let outcome: Result<Response<&'static str>, String> = Err("handler failed".to_string());
    let (sent, warning) = finish(Some("abc-123".to_string()), outcome);
    assert_eq!(sent.unwrap_err(), "handler failed");
    assert_eq!(warning, None);
}

#[test]
fn handler_error_without_request_id_reports_nothing() {
    let outcome: Result<Response<&'static str>, u32> = Err(500);
    let (sent, warning) = finish(None, outcome);
    assert_eq!(sent.unwrap_err(), 500);
    assert_eq!(warning, None);
}

#[test]
fn warnings_have_their_log_lines() {
    assert_eq!(Warning::MissingRequestId.message(), "Cannot find request_id in extensions");
    let warning = Warning::InvalidRequestId { reason: "no good".to_string() };
    assert_eq!(warning.message(), "Failed to create header value for request ID: no good");
}

#[test]
fn unusable_request_id_is_logged_with_the_header_type_s_reason() {
    let mut headers = HeaderMap::new();
    let warning = attach_request_id(&mut headers, Some("abc\n123".to_string())).unwrap();
    assert_eq!(
        warning,
        Warning::InvalidRequestId { reason: "failed to parse header value".to_string() }
    );
    assert_eq!(
        warning.message(),
        "Failed to create header value for request ID: failed to parse header value"
    );
    assert_eq!(INVALID_HEADER_VALUE_TEXT, "failed to parse header value");
    assert_eq!(MISSING_REQUEST_ID_MESSAGE, "Cannot find request_id in extensions");
    assert_eq!(INVALID_REQUEST_ID_MESSAGE, "Failed to create header value for request ID: ");
}
