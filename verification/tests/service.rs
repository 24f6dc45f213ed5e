use passcrypt::{encrypt, metrics, parse_request, ReqError};

const PREFIX: &[u8] = b"{\"encrypted_password\":\"";
const SUFFIX: &[u8] = b"\"}";

fn token_of(body: &[u8]) -> Vec<u8> {
    assert!(body.starts_with(PREFIX), "body {:?}", String::from_utf8_lossy(body));
    assert!(body.ends_with(SUFFIX));
    body[PREFIX.len()..body.len() - SUFFIX.len()].to_vec()
}

#[test]
fn encrypt_hello_is_ok_with_base64_body() {
    let reply = encrypt(br#"{"password": "hello"}"#);
    assert_eq!(reply.status, 200);
    let token = token_of(&reply.body);
    assert!(!token.is_empty());
    let raw = base64::decode(&token).expect("token must be valid base64");
    assert_eq!(raw.len(), 16);
}

#[test]
fn encrypt_missing_field_is_client_error() {
    let reply = encrypt(b"{}");
    assert_eq!(reply.status, 400);
    assert_eq!(reply.body, b"{\"error\":\"missing field: password\"}".to_vec());
}

#[test]
fn encrypt_empty_password_is_one_block() {
    let reply = encrypt(br#"{"password": ""}"#);
    assert_eq!(reply.status, 200);
    let raw = base64::decode(&token_of(&reply.body)).unwrap();
    assert_eq!(raw.len(), 16);
}

#[test]
fn encrypt_is_deterministic() {
    let a = encrypt(br#"{"password": "same input"}"#);
    let b = encrypt(br#"{"password": "same input"}"#);
    assert_eq!(a.status, 200);
    assert_eq!(a.status, b.status);
    assert_eq!(a.body, b.body);
}

#[test]
fn encrypt_wrong_type_is_client_error() {
    let reply = encrypt(br#"{"password": 42}"#);
    assert_eq!(reply.status, 400);
    assert_eq!(reply.body, b"{\"error\":\"field password must be a string\"}".to_vec());
}

#[test]
fn encrypt_invalid_json_is_client_error() {
    let reply = encrypt(b"not json at all");
    assert_eq!(reply.status, 400);
    assert_eq!(reply.body, b"{\"error\":\"invalid request body\"}".to_vec());
}

#[test]
fn encrypt_unknown_single_field_lacks_password() {
    let reply = encrypt(br#"{"user": "alice"}"#);
    assert_eq!(reply.status, 400);
    assert_eq!(reply.body, b"{\"error\":\"missing field: password\"}".to_vec());
}

#[test]
fn encrypt_rejects_second_member() {
    let reply = encrypt(br#"{"password": "x", "retries": 3}"#);
    assert_eq!(reply.status, 400);
    assert_eq!(reply.body, b"{\"error\":\"invalid request body\"}".to_vec());
    let reply = encrypt(br#"{"user": "x", "password": "y"}"#);
    assert_eq!(reply.status, 400);
    assert_eq!(reply.body, b"{\"error\":\"invalid request body\"}".to_vec());
}

#[test]
fn encrypt_rejects_non_string_value_of_other_member() {
    let reply = encrypt(br#"{"retries": 3}"#);
    assert_eq!(reply.status, 400);
    assert_eq!(reply.body, b"{\"error\":\"invalid request body\"}".to_vec());
}

#[test]
fn encrypt_tolerates_json_whitespace() {
    let reply = encrypt(b"  {\t\"password\"\r\n:  \"x\" }  ");
    assert_eq!(reply.status, 200);
}

#[test]
fn encrypt_rejects_trailing_garbage() {
    let reply = encrypt(br#"{"password": "x"} extra"#);
    assert_eq!(reply.status, 400);
    assert_eq!(reply.body, b"{\"error\":\"invalid request body\"}".to_vec());
}

#[test]
fn encrypt_rejects_unterminated_string() {
    let reply = encrypt(br#"{"password": "x"#);
    assert_eq!(reply.status, 400);
    assert_eq!(reply.body, b"{\"error\":\"invalid request body\"}".to_vec());
}

#[test]
fn encrypt_rejects_raw_control_byte_in_string() {
    let reply = encrypt(b"{\"password\": \"a\nb\"}");
    assert_eq!(reply.status, 400);
}

#[test]
fn parse_request_returns_password_bytes() {
    assert_eq!(parse_request(br#"{"password": "abc"}"#), Ok(b"abc".to_vec()));
    assert_eq!(parse_request(b"{}"), Err(ReqError::MissingField));
    assert_eq!(parse_request(br#"{"user": "alice"}"#), Err(ReqError::MissingField));
    assert_eq!(parse_request(b""), Err(ReqError::InvalidJson));
    assert_eq!(parse_request(br#"{"password": null}"#), Err(ReqError::WrongType));
    assert_eq!(
        parse_request(br#"{"password": "a", "password": "b"}"#),
        Err(ReqError::InvalidJson)
    );
}

#[test]
fn parse_request_decodes_escapes() {
    assert_eq!(parse_request(br#"{"password": "a\nb"}"#), Ok(b"a\nb".to_vec()));
    assert_eq!(parse_request(br#"{"password": "q\"\\\/"}"#), Ok(b"q\"\\/".to_vec()));
    assert_eq!(parse_request(br#"{"password": "A"}"#), Ok(b"A".to_vec()));
    assert_eq!(
        parse_request(br#"{"password": "\u00e9"}"#),
        Ok("\u{e9}".as_bytes().to_vec())
    );
    assert_eq!(
        parse_request(br#"{"password": "\u20ac"}"#),
        Ok("\u{20ac}".as_bytes().to_vec())
    );
    assert_eq!(
        parse_request(br#"{"password": "\ud83d\ude00"}"#),
        Ok("\u{1f600}".as_bytes().to_vec())
    );
    let raw_utf8 = format!("{{\"password\": \"{}\"}}", "\u{1f600}");
    assert_eq!(
        parse_request(raw_utf8.as_bytes()),
        Ok("\u{1f600}".as_bytes().to_vec())
    );
    assert_eq!(
        parse_request(br#"{"password": "\ud800"}"#),
        Err(ReqError::InvalidJson)
    );
    assert_eq!(
        parse_request(br#"{"password": "\ude00\ud83d"}"#),
        Err(ReqError::InvalidJson)
    );
    assert_eq!(
        parse_request(br#"{"password": "\q"}"#),
        Err(ReqError::InvalidJson)
    );
}

#[test]
fn metrics_is_ok_even_with_empty_registry() {
    let reply = metrics();
    assert_eq!(reply.status, 200);
    let text = String::from_utf8(reply.body).expect("exposition text is UTF-8");
    for line in text.lines() {
        assert!(line.is_empty() || line.starts_with('#') || line.contains(' '));
    }
}

#[test]
fn metrics_reports_registered_counters() {
    let counter = prometheus::IntCounter::new("requests_total", "requests served").unwrap();
    prometheus::default_registry()
        .register(Box::new(counter.clone()))
        .unwrap();
    counter.inc();
    let reply = metrics();
    assert_eq!(reply.status, 200);
    let text = String::from_utf8(reply.body).unwrap();
    assert!(text.contains("requests_total"));
    assert!(text.contains("requests_total 1"));
}
