use vmm::dumbo::tcp::{seq_after, seq_at_or_after, RstConfig, TcpSegment, ACK, RST};
use vmm::dumbo::ByteBuffer;
use vmm::http::{Method, StatusCode};
use vmm::mmds::json::{json_patch, JsonValue};
use vmm::mmds::requests::{
    convert_to_response, get_header_value_pair, parse_u32, respond_to_get_request, sanitize_uri,
    token_checked, token_generated, MediaType, MmdsBody, MmdsDatastoreError, MmdsRequest,
    MmdsStep, MmdsVersion, OutputFormat, VmmMmdsError,
};

fn text(s: &str) -> String {
    String::from(s)
}

fn request(method: Method, uri: &str, headers: &[(&str, &str)]) -> MmdsRequest {
    MmdsRequest {
        method,
        uri: text(uri),
        accept: MediaType::ApplicationJson,
        headers: headers.iter().map(|h| (text(h.0), text(h.1))).collect(),
    }
}

fn status(s: MmdsStep) -> StatusCode {
    match s {
        MmdsStep::Respond(r) => r.status,
        _ => panic!("a response is expected"),
    }
}

#[test]
fn double_slashes_are_taken_out() {
    assert_eq!(sanitize_uri("//a///b/"), "/a/b/");
    assert_eq!(sanitize_uri("/a"), "/a");
    assert_eq!(sanitize_uri(""), "");
}

#[test]
fn numbers_are_read_as_decimal() {
    assert_eq!(parse_u32("4294967295"), Some(u32::MAX));
    assert_eq!(parse_u32("4294967296"), None);
    assert_eq!(parse_u32("+7"), Some(7));
    assert_eq!(parse_u32(""), None);
    assert_eq!(parse_u32("-1"), None);
    assert_eq!(parse_u32("1a"), None);
}

#[test]
fn header_names_are_told_apart_without_regard_to_case() {
    let h = vec![(text("A"), text("1")), (text("x-Y"), text("2"))];
    assert_eq!(get_header_value_pair(&h, "X-y", "z"), Some(1));
    assert_eq!(get_header_value_pair(&h, "q", "a"), Some(0));
    assert_eq!(get_header_value_pair(&h, "q", "r"), None);
}

#[test]
fn the_first_version_needs_no_token() {
    match convert_to_response(MmdsVersion::V1, &request(Method::Get, "/a//b", &[])) {
        MmdsStep::GetValue { path, format } => {
            assert_eq!(path, "/a/b");
            assert_eq!(format, OutputFormat::Json);
        }
        _ => panic!("a value is read"),
    }
}

#[test]
fn the_second_version_needs_a_token() {
    assert_eq!(
        status(convert_to_response(MmdsVersion::V2, &request(Method::Get, "/a", &[]))),
        StatusCode::Unauthorized
    );
    let r = request(Method::Get, "/a", &[("X-metadata-token", "t")]);
    assert!(matches!(
        convert_to_response(MmdsVersion::V2, &r),
        MmdsStep::CheckToken { token } if token == "t"
    ));
    assert!(matches!(token_checked(&r, true), MmdsStep::GetValue { .. }));
    assert_eq!(status(token_checked(&r, false)), StatusCode::Unauthorized);
}

#[test]
fn tokens_are_handed_out() {
    let r = request(Method::Put, "/latest/api/token", &[("X-metadata-token-ttl-seconds", "60")]);
    assert!(matches!(
        convert_to_response(MmdsVersion::V2, &r),
        MmdsStep::GenerateToken { ttl_seconds: 60, .. }
    ));
    let done = token_generated(text("X-metadata-token-ttl-seconds"), 60, Ok(text("tok")));
    assert_eq!(done.status, StatusCode::OK);
    assert!(matches!(done.body, MmdsBody::Text(t) if t == "tok"));
    assert_eq!(done.ttl_header, Some((text("X-metadata-token-ttl-seconds"), 60)));
    let failed = token_generated(text("h"), 0, Err(text("bad")));
    assert_eq!(failed.status, StatusCode::BadRequest);
    let none = request(Method::Put, "/latest/api/token", &[]);
    assert_eq!(status(convert_to_response(MmdsVersion::V2, &none)), StatusCode::BadRequest);
    let other = request(Method::Put, "/other", &[("X-metadata-token-ttl-seconds", "60")]);
    assert_eq!(status(convert_to_response(MmdsVersion::V2, &other)), StatusCode::NotFound);
    let forwarded = request(
        Method::Put,
        "/latest/api/token",
        &[("X-Forwarded-For", "1.2.3.4"), ("X-metadata-token-ttl-seconds", "60")],
    );
    assert_eq!(status(convert_to_response(MmdsVersion::V2, &forwarded)), StatusCode::BadRequest);
    let bad = request(
        Method::Put,
        "/latest/api/token",
        &[("X-metadata-token-ttl-seconds", "soon")],
    );
    assert_eq!(status(convert_to_response(MmdsVersion::V2, &bad)), StatusCode::BadRequest);
}

#[test]
fn other_methods_are_not_allowed() {
    match convert_to_response(MmdsVersion::V1, &request(Method::Patch, "/a", &[])) {
        MmdsStep::Respond(r) => {
            assert_eq!(r.status, StatusCode::MethodNotAllowed);
            assert!(r.allow_methods);
        }
        _ => panic!("a response is expected"),
    }
    assert_eq!(
        status(convert_to_response(MmdsVersion::V1, &request(Method::Get, "", &[]))),
        StatusCode::BadRequest
    );
}

#[test]
fn values_and_errors_are_answered() {
    let r = request(Method::Get, "/a", &[]);
    let ok = respond_to_get_request(&r, Ok(text("\"v\"")));
    assert_eq!(ok.status, StatusCode::OK);
    assert!(matches!(ok.body, MmdsBody::Text(t) if t == "\"v\""));
    assert_eq!(
        respond_to_get_request(&r, Err((MmdsDatastoreError::NotFound, text("e")))).status,
        StatusCode::NotFound
    );
    assert_eq!(
        respond_to_get_request(&r, Err((MmdsDatastoreError::UnsupportedValueType, text("e"))))
            .status,
        StatusCode::NotImplemented
    );
    assert_eq!(
        VmmMmdsError::ResourceNotFound(text("/a")).text(),
        "Resource not found: /a."
    );
    assert_eq!(VmmMmdsError::InvalidURI.text(), "Invalid URI.");
}

fn object(entries: Vec<(&str, JsonValue)>) -> JsonValue {
    JsonValue::Object(entries.into_iter().map(|e| (text(e.0), e.1)).collect())
}

fn member<'a>(v: &'a JsonValue, key: &str) -> Option<&'a JsonValue> {
    match v {
        JsonValue::Object(entries) => entries.iter().find(|e| e.0 == key).map(|e| &e.1),
        _ => None,
    }
}

#[test]
fn a_patch_merges_objects() {
    let mut target = object(vec![
        ("a", JsonValue::Number(text("1"))),
        ("b", object(vec![("c", JsonValue::Bool(true)), ("d", JsonValue::Null)])),
    ]);
    let patch = object(vec![
        ("a", JsonValue::Null),
        ("b", object(vec![("c", JsonValue::Null), ("e", JsonValue::Text(text("x")))])),
        ("f", JsonValue::Array(vec![JsonValue::Null])),
    ]);
    json_patch(&mut target, &patch);
    assert!(member(&target, "a").is_none());
    let b = member(&target, "b").unwrap();
    assert!(member(b, "c").is_none());
    assert!(matches!(member(b, "d"), Some(JsonValue::Null)));
    assert!(matches!(member(b, "e"), Some(JsonValue::Text(t)) if t == "x"));
    assert!(matches!(member(&target, "f"), Some(JsonValue::Array(v)) if v.len() == 1));
}

#[test]
fn a_patch_replaces_everything_else() {
    let mut target = JsonValue::Number(text("1"));
    json_patch(&mut target, &JsonValue::Bool(false));
    assert!(matches!(target, JsonValue::Bool(false)));
    json_patch(&mut target, &object(vec![("a", object(vec![("n", JsonValue::Null)]))]));
    let a = member(&target, "a").unwrap();
    assert!(member(a, "n").is_none());
}

#[test]
fn sequence_numbers_wrap() {
    assert!(seq_after(1, 0));
    assert!(!seq_after(0, 0));
    assert!(seq_at_or_after(0, 0));
    assert!(seq_after(0, u32::MAX));
    assert!(!seq_after(u32::MAX, 0));
}

#[test]
fn resets_answer_segments() {
    let s = TcpSegment { sequence_number: 100, ack_number: 7, flags: ACK, payload_len: 5 };
    let r = RstConfig::new(&s);
    assert!(matches!(r, RstConfig::Sequence(7)));
    assert_eq!(r.seq_ack_tcp_flags(), (7, 0, RST));
    let s = TcpSegment { flags: 0, ..s };
    let r = RstConfig::new(&s);
    assert!(matches!(r, RstConfig::Ack(105)));
    assert_eq!(r.seq_ack_tcp_flags(), (0, 105, RST | ACK));
}

#[test]
fn byte_buffers_are_read_at_an_offset() {
    let bytes: &[u8] = &[1, 2, 3, 4];
    assert_eq!(ByteBuffer::len(bytes), 4);
}
