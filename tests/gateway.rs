use api_gateway::auth::create_token_at;
use api_gateway::forward::{
    build_outbound, relay_response, rewrite_headers, BackendOutcome, ForwardError, HeaderField, MAX_BODY_BYTES,
};
use api_gateway::pipeline::{
    complete, extract_bearer, failure_response, prepare, Failure, GatewayRequest, ProxyRequest, TokenSource,
};
use api_gateway::registry::{is_base_url, RegistryError, ServiceRegistry};
use api_gateway::target::join_target;

const NOW: u64 = 1_700_000_000;

fn header(name: &str, value: &str) -> HeaderField {
    HeaderField { name: name.to_string(), value: value.as_bytes().to_vec() }
}

fn registry() -> ServiceRegistry {
    ServiceRegistry::new(vec![("auth-service".to_string(), "http://localhost:8080".to_string())]).unwrap()
}

fn request(service: &str, token: &str, body: Option<Vec<u8>>) -> GatewayRequest {
    GatewayRequest {
        service: service.to_string(),
        subpath: "api/v1/users".to_string(),
        method: "POST".to_string(),
        headers: vec![header("authorization", &format!("Bearer {}", token))],
        body,
        path_token: None,
        form: None,
    }
}

#[test]
fn join_ignores_slash_variation() {
    assert_eq!(join_target("http://h:8081/", "/users"), "http://h:8081/users");
    assert_eq!(join_target("http://h:8081", "users"), "http://h:8081/users");
    assert_eq!(join_target("http://h:8081///", "//users/x/"), "http://h:8081/users/x/");
    assert_eq!(join_target("http://localhost:3001", "profile"), "http://localhost:3001/profile");
}

#[test]
fn join_empty_parts() {
    assert_eq!(join_target("", ""), "/");
    assert_eq!(join_target("http://h", ""), "http://h/");
}

#[test]
fn registry_resolves_registered_names() {
    let reg = ServiceRegistry::new(vec![
        ("users".to_string(), "http://localhost:3001".to_string()),
        ("admin".to_string(), "https://localhost:3002".to_string()),
    ])
    .unwrap();
    assert_eq!(reg.resolve("users").unwrap(), "http://localhost:3001");
    assert_eq!(reg.resolve("admin").unwrap(), "https://localhost:3002");
    assert!(reg.resolve("unknown").is_none());
}

#[test]
fn registry_refuses_bad_tables() {
    let dup = ServiceRegistry::new(vec![
        ("a".to_string(), "http://x".to_string()),
        ("a".to_string(), "http://y".to_string()),
    ]);
    assert_eq!(dup.err().unwrap(), RegistryError::DuplicateName);
    let bad = ServiceRegistry::new(vec![("a".to_string(), "localhost:80".to_string())]);
    assert_eq!(bad.err().unwrap(), RegistryError::InvalidBaseUrl);
    assert!(!is_base_url("http:///path"));
    assert!(!is_base_url("http://"));
    assert!(is_base_url("https://h"));
}

#[test]
fn identity_header_overwrites_caller_value() {
    let headers = vec![header("X-User-Id", "mallory"), header("accept", "*/*"), header("x-user-id", "eve")];
    let out = rewrite_headers(headers, "123");
    assert_eq!(out.len(), 2);
    assert_eq!(out[0].name, "accept");
    assert_eq!(out[1].name, "x-user-id");
    assert_eq!(out[1].value, b"123".to_vec());
}

#[test]
fn identity_header_skipped_for_unsendable_subject() {
    let out = rewrite_headers(vec![header("x-user-id", "eve")], "a\nb");
    assert!(out.is_empty());
}

#[test]
fn bearer_token_extraction() {
    assert_eq!(extract_bearer(&vec![header("Authorization", "Bearer abc.def")]).unwrap(), "abc.def");
    assert!(extract_bearer(&vec![header("authorization", "Basic abc")]).is_none());
    assert!(extract_bearer(&vec![header("accept", "Bearer abc")]).is_none());
    assert!(extract_bearer(&vec![]).is_none());
}

#[test]
fn body_cap_is_enforced() {
    let ok = build_outbound("http://h", "x", "PUT".to_string(), vec![], Some(vec![0u8; MAX_BODY_BYTES]), "u");
    let o = ok.ok().unwrap();
    assert_eq!(o.url, "http://h/x");
    assert_eq!(o.method, "PUT");
    assert_eq!(o.body.len(), MAX_BODY_BYTES);
    let big = build_outbound("http://h", "x", "PUT".to_string(), vec![], Some(vec![0u8; MAX_BODY_BYTES + 1]), "u");
    assert_eq!(big.err().unwrap(), ForwardError::BodyTooLarge);
}

#[test]
fn relay_copies_backend_response() {
    let r = relay_response(BackendOutcome::Replied {
        status: 201,
        headers: vec![header("content-type", "text/plain")],
        body: Some(b"made".to_vec()),
    })
    .ok()
    .unwrap();
    assert_eq!(r.status, 201);
    assert_eq!(r.headers[0].name, "content-type");
    assert_eq!(r.body, b"made".to_vec());
}

#[test]
fn relay_failures() {
    let bad = relay_response(BackendOutcome::Replied { status: 42, headers: vec![], body: Some(vec![]) });
    assert_eq!(bad.err().unwrap(), ForwardError::ReconstructionFailed);
    let unread = relay_response(BackendOutcome::Replied { status: 200, headers: vec![], body: None });
    assert_eq!(unread.err().unwrap(), ForwardError::ReconstructionFailed);
    assert_eq!(relay_response(BackendOutcome::Unreachable).err().unwrap(), ForwardError::Unreachable);
    assert_eq!(complete(BackendOutcome::Replied { status: 1000, headers: vec![], body: Some(vec![]) }).status, 500);
}

#[test]
fn failure_status_codes() {
    assert_eq!(Failure::Unauthorized.status_code(), 401);
    assert_eq!(Failure::NotFound.status_code(), 404);
    assert_eq!(Failure::BadRequest.status_code(), 400);
    assert_eq!(Failure::BadGateway.status_code(), 502);
    assert_eq!(Failure::InternalError.status_code(), 500);
    let r = failure_response(Failure::NotFound);
    assert_eq!(r.status, 404);
    assert!(r.body.is_empty());
}

#[test]
fn wrong_secret_through_pipeline_is_401() {
    let token = create_token_at("123", "secret", NOW).unwrap();
    let r = prepare(&registry(), "wrong", NOW, TokenSource::BearerHeader, request("auth-service", &token, Some(vec![])));
    assert_eq!(r.err().unwrap().status_code(), 401);
}

#[test]
fn missing_token_is_401() {
    let mut req = request("auth-service", "x", Some(vec![]));
    req.headers = vec![];
    let r = prepare(&registry(), "secret", NOW, TokenSource::BearerHeader, req);
    assert_eq!(r.err().unwrap(), Failure::Unauthorized);
}

#[test]
fn unreachable_backend_is_502() {
    let token = create_token_at("123", "secret", NOW).unwrap();
    let out = prepare(&registry(), "secret", NOW, TokenSource::BearerHeader, request("auth-service", &token, Some(vec![])))
        .ok()
        .unwrap();
    assert_eq!(out.url, "http://localhost:8080/api/v1/users");
    assert_eq!(out.method, "POST");
    assert!(out.headers.iter().any(|h| h.name == "x-user-id" && h.value == b"123".to_vec()));
    assert_eq!(complete(BackendOutcome::Unreachable).status, 502);
}

#[test]
fn oversized_body_is_400() {
    let token = create_token_at("123", "secret", NOW).unwrap();
    let body = vec![7u8; 6 * 1024 * 1024];
    let r = prepare(&registry(), "secret", NOW, TokenSource::BearerHeader, request("auth-service", &token, Some(body)));
    assert_eq!(r.err().unwrap().status_code(), 400);
    let r = prepare(&registry(), "secret", NOW, TokenSource::BearerHeader, request("auth-service", &token, None));
    assert_eq!(r.err().unwrap().status_code(), 400);
}

#[test]
fn unknown_service_is_404() {
    let token = create_token_at("123", "secret", NOW).unwrap();
    let r = prepare(&registry(), "secret", NOW, TokenSource::BearerHeader, request("unknown", &token, Some(vec![])));
    assert_eq!(r.err().unwrap().status_code(), 404);
}

#[test]
fn legacy_token_sources() {
    let token = create_token_at("7", "secret", NOW).unwrap();
    let mut req = request("auth-service", "ignored", Some(vec![]));
    req.path_token = Some(token.clone());
    assert!(prepare(&registry(), "secret", NOW, TokenSource::PathSegment, req).is_ok());
    let mut req = request("auth-service", "ignored", Some(vec![]));
    req.form = Some(ProxyRequest { token });
    assert!(prepare(&registry(), "secret", NOW, TokenSource::FormField, req).is_ok());
    let req = request("auth-service", "ignored", Some(vec![]));
    assert_eq!(prepare(&registry(), "secret", NOW, TokenSource::FormField, req).err().unwrap(), Failure::Unauthorized);
}

#[test]
fn invalid_token_is_401() {
    let mut req = request("backend", "ignored", Some(vec![]));
    req.form = Some(ProxyRequest { token: "invalid-token".to_string() });
    let r = prepare(&registry(), "secret", NOW, TokenSource::FormField, req);
    assert_eq!(r.err().unwrap().status_code(), 401);
}

#[test]
fn duplicate_names_with_valid_urls() {
    let dup = ServiceRegistry::new(vec![
        ("a".to_string(), "http://x".to_string()),
        ("b".to_string(), "http://y".to_string()),
        ("a".to_string(), "https://z".to_string()),
    ]);
    assert_eq!(dup.err().unwrap(), RegistryError::DuplicateName);
}

#[test]
fn failed_relay_has_no_headers() {
    let r = complete(BackendOutcome::Replied { status: 200, headers: vec![header("a", "b")], body: None });
    assert_eq!(r.status, 500);
    assert!(r.headers.is_empty());
    assert!(complete(BackendOutcome::Unreachable).headers.is_empty());
}
