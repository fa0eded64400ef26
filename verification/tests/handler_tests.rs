use forward_auth::config::ConfigModel;
use forward_auth::config::HeaderOverrides;
use forward_auth::config::MethodRule;
use forward_auth::config::PolicyEntry;
use forward_auth::engine::AuthDecision;
use forward_auth::engine::DenyReason;
use forward_auth::handler::decide;
use forward_auth::handler::handle_request;
use forward_auth::handler::render_response;
use forward_auth::handler::HeaderPair;
use forward_auth::handler::KeysReply;
use forward_auth::keys::parse_jwks;
use forward_auth::keys::TokenClaims;

// A JOSE header {"alg":"RS256","kid":"k1"}, base64url without padding.
const HEADER_KID_K1: &str = "eyJhbGciOiJSUzI1NiIsImtpZCI6ImsxIn0";
// A JOSE header {"alg":"RS256","kid":"k2"}.
const HEADER_KID_K2: &str = "eyJhbGciOiJSUzI1NiIsImtpZCI6ImsyIn0";
// A JOSE header {"alg":"RS256"} with no kid.
const HEADER_NO_KID: &str = "eyJhbGciOiJSUzI1NiJ9";
// A payload with sub "alice", scope "read write", and a far-future expiry.
const PAYLOAD: &str = "eyJzdWIiOiJhbGljZSIsInNjb3BlIjoicmVhZCB3cml0ZSIsImlzcyI6Imh0dHBzOi8vaXNzdWVyLmV4YW1wbGUvIiwiYXVkIjoiYXVkMSIsImV4cCI6OTk5OTk5OTk5OTl9";

fn s(x: &str) -> String {
    String::from(x)
}

fn config() -> ConfigModel {
    let policy = vec![PolicyEntry {
        path: s("/api"),
        rules: vec![MethodRule { method: s("GET"), scopes: vec![s("read")] }],
    }];
    let names = HeaderOverrides { method: None, uri: None, id: None, groups: None };
    ConfigModel::new(s("aud1"), s("https://issuer.example/"), names, policy)
        .ok()
        .expect("valid config")
}

fn keys_with_k1() -> KeysReply {
    let jwks = parse_jwks(
        "{\"keys\":[{\"kty\":\"RSA\",\"alg\":\"RS256\",\"kid\":\"k1\",\"n\":\"u1SU1LfVLPHCozMxH2Mo4lgOEePzNm0tRgeLezV6ffAt0gunVTLw7onLRnrq0zwz\",\"e\":\"AQAB\"}]}",
    )
    .expect("a key set with one RSA key parses");
    KeysReply::Keys(jwks)
}

fn header(name: &str, value: &str) -> HeaderPair {
    HeaderPair { name: s(name), value: s(value) }
}

fn full_headers(auth: &str) -> Vec<HeaderPair> {
    vec![
        header("authorization", auth),
        header("x-original-method", "GET"),
        header("x-original-uri", "/api/x"),
    ]
}

fn deny_reason(d: &AuthDecision) -> DenyReason {
    match d {
        AuthDecision::Deny { reason } => *reason,
        AuthDecision::Allow { .. } => panic!("expected deny"),
    }
}

#[test]
fn missing_authorization_header_denies() {
    let c = config();
    let headers = vec![header("x-original-method", "GET"), header("x-original-uri", "/api/x")];
    let d = handle_request(&c, &headers, &keys_with_k1());
    assert_eq!(deny_reason(&d), DenyReason::MissingAuthorization);
    let r = render_response(&c, &d);
    assert_eq!(r.status, 403);
    assert!(r.headers.is_empty());
}

#[test]
fn malformed_bearer_without_separator_denies() {
    // A header value with no space is used whole as the token; it is not a
    // decodable JWT, so the request ends in a plain 403.
    let c = config();
    let d = handle_request(&c, &full_headers("garbagewithoutseparator"), &keys_with_k1());
    assert_eq!(deny_reason(&d), DenyReason::MalformedToken);
    let r = render_response(&c, &d);
    assert_eq!(r.status, 403);
    assert!(r.headers.is_empty());
}

#[test]
fn token_without_kid_denies() {
    let c = config();
    let token = format!("{}.{}.c2ln", HEADER_NO_KID, PAYLOAD);
    let auth = format!("Bearer {}", token);
    let d = handle_request(&c, &full_headers(&auth), &keys_with_k1());
    assert_eq!(deny_reason(&d), DenyReason::MalformedToken);
}

#[test]
fn unknown_kid_denies() {
    let c = config();
    let token = format!("{}.{}.c2ln", HEADER_KID_K2, PAYLOAD);
    let auth = format!("Bearer {}", token);
    let d = handle_request(&c, &full_headers(&auth), &keys_with_k1());
    assert_eq!(deny_reason(&d), DenyReason::UnknownKey);
}

#[test]
fn bad_signature_denies_despite_valid_scopes() {
    // The key is found by kid, but the signature cannot verify; the deny is
    // independent of the (sufficient) scopes in the payload.
    let c = config();
    let token = format!("{}.{}.c2ln", HEADER_KID_K1, PAYLOAD);
    let auth = format!("Bearer {}", token);
    let d = handle_request(&c, &full_headers(&auth), &keys_with_k1());
    assert_eq!(deny_reason(&d), DenyReason::ValidationFailed);
}

#[test]
fn fetch_failure_denies() {
    let c = config();
    let d = handle_request(&c, &full_headers("Bearer x.y.z"), &KeysReply::FetchFailed);
    assert_eq!(deny_reason(&d), DenyReason::KeysFetchFailed);
    let r = render_response(&c, &d);
    assert_eq!(r.status, 403);
    assert!(r.headers.is_empty());
}

#[test]
fn cache_unavailable_denies() {
    let c = config();
    let d = handle_request(&c, &full_headers("Bearer x.y.z"), &KeysReply::CacheUnavailable);
    assert_eq!(deny_reason(&d), DenyReason::CacheUnavailable);
}

fn claims(subject: Option<&str>, scope: Option<&str>) -> TokenClaims {
    TokenClaims { subject: subject.map(String::from), scope: scope.map(String::from) }
}

#[test]
fn unmatched_path_denies_fully_valid_claims() {
    let c = config();
    let d = decide(&c, &s("GET"), &s("/other"), &claims(Some("alice"), Some("read write")));
    assert_eq!(deny_reason(&d), DenyReason::NoPolicyForPath);
}

#[test]
fn matching_request_allows_and_renders_headers() {
    let c = config();
    let d = decide(&c, &s("GET"), &s("/api/x"), &claims(Some("alice"), Some("read write")));
    match &d {
        AuthDecision::Allow { subject, granted } => {
            assert_eq!(subject, &s("alice"));
            assert_eq!(granted, &vec![s("read")]);
        }
        AuthDecision::Deny { .. } => panic!("expected allow"),
    }
    let r = render_response(&c, &d);
    assert_eq!(r.status, 200);
    assert_eq!(r.headers.len(), 2);
    assert_eq!(r.headers[0].name, s("x-groups"));
    assert_eq!(r.headers[0].value, s("read"));
    assert_eq!(r.headers[1].name, s("x-id"));
    assert_eq!(r.headers[1].value, s("alice"));
}

#[test]
fn missing_subject_denies() {
    let c = config();
    let d = decide(&c, &s("GET"), &s("/api/x"), &claims(None, Some("read")));
    assert_eq!(deny_reason(&d), DenyReason::MissingSubject);
}

#[test]
fn missing_scope_claim_denies_downstream() {
    // An absent scope claim is an empty scope set: the decision is an
    // insufficient-scope deny, not an error.
    let c = config();
    let d = decide(&c, &s("GET"), &s("/api/x"), &claims(Some("alice"), None));
    assert_eq!(deny_reason(&d), DenyReason::InsufficientScope);
}

#[test]
fn granted_scopes_join_with_commas() {
    let policy = vec![PolicyEntry {
        path: s("/api"),
        rules: vec![MethodRule { method: s("GET"), scopes: vec![s("read"), s("write")] }],
    }];
    let names = HeaderOverrides { method: None, uri: None, id: None, groups: None };
    let c = ConfigModel::new(s("aud1"), s("iss"), names, policy).ok().expect("valid config");
    let d = decide(&c, &s("GET"), &s("/api/x"), &claims(Some("alice"), Some("write read")));
    let r = render_response(&c, &d);
    assert_eq!(r.status, 200);
    assert_eq!(r.headers[0].value, s("read,write"));
}
