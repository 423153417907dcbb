use authify::http::{HttpMethod, HttpResponse};
use authify::json::Json;
use authify::oidc::oidc_client::{DiscoveryError, OidcClient, WellKnowns};

const DOCUMENT: &str = r#"{
    "issuer": "https://idp",
    "authorization_endpoint": "https://idp/auth",
    "token_endpoint": "https://idp/token",
    "userinfo_endpoint": "https://idp/userinfo",
    "jwks_uri": "https://idp/jwks",
    "scopes_supported": ["openid", "profile"]
}"#;

fn answered(status: u16, body: &str) -> Result<HttpResponse, String> {
    Ok(HttpResponse { status, body: Some(body.as_bytes().to_vec()) })
}

fn without(field: &str) -> String {
    let fields = [
        ("authorization_endpoint", "https://idp/auth"),
        ("token_endpoint", "https://idp/token"),
        ("userinfo_endpoint", "https://idp/userinfo"),
        ("jwks_uri", "https://idp/jwks"),
    ];
    let kept: Vec<String> = fields
        .iter()
        .filter(|(name, _)| *name != field)
        .map(|(name, value)| format!("\"{}\": \"{}\"", name, value))
        .collect();
    format!("{{{}}}", kept.join(", "))
}

#[test]
fn resolve_request_targets_the_well_known_path() {
    let request = WellKnowns::resolve_request("https://idp");
    assert_eq!(request.method, HttpMethod::Get);
    assert_eq!(request.url, "https://idp/.well-known/openid-configuration");
    assert_eq!(request.bearer, None);
    assert!(request.form.is_empty());
}

#[test]
fn resolve_from_request_takes_the_url_as_it_is() {
    let request = WellKnowns::resolve_from_request("https://idp/custom/config?x=1");
    assert_eq!(request.method, HttpMethod::Get);
    assert_eq!(request.url, "https://idp/custom/config?x=1");
    assert_eq!(request.bearer, None);
    assert!(request.form.is_empty());
}

#[test]
fn complete_document_resolves_to_identical_values() {
    let resolved = WellKnowns::resolve(answered(200, DOCUMENT)).unwrap();
    assert_eq!(
        resolved,
        WellKnowns {
            auth_url: "https://idp/auth".to_string(),
            token_url: "https://idp/token".to_string(),
            user_info_url: "https://idp/userinfo".to_string(),
            jwks_url: "https://idp/jwks".to_string(),
        }
    );
}

#[test]
fn values_are_kept_byte_for_byte() {
    let body = r#"{"authorization_endpoint": " https://idp/a b?x=1&y=é ",
        "token_endpoint": " ", "userinfo_endpoint": "h\\t\"q\"", "jwks_uri": "😀"}"#;
    let resolved = WellKnowns::resolve(answered(204, body)).unwrap();
    assert_eq!(resolved.auth_url.as_bytes(), " https://idp/a b?x=1&y=\u{e9} ".as_bytes());
    assert_eq!(resolved.token_url, " ");
    assert_eq!(resolved.user_info_url, "h\\t\"q\"");
    assert_eq!(resolved.jwks_url, "\u{1F600}");
}

fn with_empty(field: &str) -> String {
    let names = ["authorization_endpoint", "token_endpoint", "userinfo_endpoint", "jwks_uri"];
    let members: Vec<String> = names
        .iter()
        .map(|name| format!("\"{}\": \"{}\"", name, if *name == field { "" } else { "https://idp/x" }))
        .collect();
    format!("{{{}}}", members.join(", "))
}

#[test]
fn empty_endpoint_is_refused_with_its_name() {
    for field in ["authorization_endpoint", "token_endpoint", "userinfo_endpoint", "jwks_uri"] {
        let resolved = WellKnowns::resolve(answered(200, &with_empty(field)));
        assert_eq!(resolved, Err(DiscoveryError::MissingField(field.to_string())), "{}", field);
    }
}

#[test]
fn first_of_an_empty_and_an_absent_endpoint_is_named() {
    let body = r#"{"authorization_endpoint": "a", "token_endpoint": "",
        "jwks_uri": "j"}"#;
    let resolved = WellKnowns::resolve(answered(200, body));
    assert_eq!(resolved, Err(DiscoveryError::MissingField("token_endpoint".to_string())));
    let body = r#"{"authorization_endpoint": "a", "token_endpoint": "t",
        "jwks_uri": ""}"#;
    let resolved = WellKnowns::resolve(answered(200, body));
    assert_eq!(resolved, Err(DiscoveryError::MissingField("userinfo_endpoint".to_string())));
}

#[test]
fn client_is_not_made_of_an_empty_endpoint() {
    let reply = answered(200, &with_empty("authorization_endpoint"));
    let made = OidcClient::new("i", "c", "s", "r", vec![], None, reply);
    assert_eq!(
        made.err(),
        Some(DiscoveryError::MissingField("authorization_endpoint".to_string()))
    );
}

#[test]
fn resolved_endpoints_are_never_empty() {
    let resolved = WellKnowns::resolve(answered(200, DOCUMENT)).unwrap();
    assert!(!resolved.auth_url.is_empty());
    assert!(!resolved.token_url.is_empty());
    assert!(!resolved.user_info_url.is_empty());
    assert!(!resolved.jwks_url.is_empty());
}

#[test]
fn missing_authorization_endpoint_is_named() {
    let resolved = WellKnowns::resolve(answered(200, &without("authorization_endpoint")));
    assert_eq!(resolved, Err(DiscoveryError::MissingField("authorization_endpoint".to_string())));
}

#[test]
fn missing_token_endpoint_is_named() {
    let resolved = WellKnowns::resolve(answered(200, &without("token_endpoint")));
    assert_eq!(resolved, Err(DiscoveryError::MissingField("token_endpoint".to_string())));
}

#[test]
fn missing_userinfo_endpoint_is_named() {
    let resolved = WellKnowns::resolve(answered(200, &without("userinfo_endpoint")));
    assert_eq!(resolved, Err(DiscoveryError::MissingField("userinfo_endpoint".to_string())));
}

#[test]
fn missing_jwks_uri_is_named() {
    let resolved = WellKnowns::resolve(answered(200, &without("jwks_uri")));
    assert_eq!(resolved, Err(DiscoveryError::MissingField("jwks_uri".to_string())));
}

#[test]
fn first_of_several_missing_endpoints_is_named() {
    let resolved = WellKnowns::resolve(answered(200, r#"{"authorization_endpoint": "a"}"#));
    assert_eq!(resolved, Err(DiscoveryError::MissingField("token_endpoint".to_string())));
    let resolved = WellKnowns::resolve(answered(200, "{}"));
    assert_eq!(resolved, Err(DiscoveryError::MissingField("authorization_endpoint".to_string())));
}

#[test]
fn null_or_non_string_endpoint_counts_as_missing() {
    let body = r#"{"authorization_endpoint": "a", "token_endpoint": null,
        "userinfo_endpoint": "u", "jwks_uri": "j"}"#;
    let resolved = WellKnowns::resolve(answered(200, body));
    assert_eq!(resolved, Err(DiscoveryError::MissingField("token_endpoint".to_string())));
    let body = r#"{"authorization_endpoint": "a", "token_endpoint": "t",
        "userinfo_endpoint": "u", "jwks_uri": 7}"#;
    let resolved = WellKnowns::resolve(answered(200, body));
    assert_eq!(resolved, Err(DiscoveryError::MissingField("jwks_uri".to_string())));
}

#[test]
fn document_that_is_no_object_lacks_the_first_endpoint() {
    let resolved = WellKnowns::resolve(answered(200, "[1, 2]"));
    assert_eq!(resolved, Err(DiscoveryError::MissingField("authorization_endpoint".to_string())));
}

#[test]
fn status_outside_2xx_is_reported_with_its_code() {
    assert_eq!(WellKnowns::resolve(answered(404, DOCUMENT)), Err(DiscoveryError::HttpStatus(404)));
    assert_eq!(WellKnowns::resolve(answered(199, DOCUMENT)), Err(DiscoveryError::HttpStatus(199)));
    assert_eq!(WellKnowns::resolve(answered(300, DOCUMENT)), Err(DiscoveryError::HttpStatus(300)));
    assert!(WellKnowns::resolve(answered(299, DOCUMENT)).is_ok());
    assert!(WellKnowns::resolve(answered(200, DOCUMENT)).is_ok());
}

#[test]
fn transport_failure_is_a_network_error() {
    let resolved = WellKnowns::resolve(Err("connection refused".to_string()));
    assert_eq!(resolved, Err(DiscoveryError::Network("connection refused".to_string())));
}

#[test]
fn unreadable_body_is_a_network_error() {
    let resolved = WellKnowns::resolve(Ok(HttpResponse { status: 200, body: None }));
    assert_eq!(
        resolved,
        Err(DiscoveryError::Network("response body could not be read".to_string()))
    );
}

#[test]
fn body_that_is_not_json_is_a_parse_error() {
    assert_eq!(WellKnowns::resolve(answered(200, "<html>")), Err(DiscoveryError::Parse));
    assert_eq!(WellKnowns::resolve(answered(200, "")), Err(DiscoveryError::Parse));
    assert_eq!(WellKnowns::resolve(answered(200, "{} {}")), Err(DiscoveryError::Parse));
}

#[test]
fn from_json_reads_a_document_built_by_hand() {
    let document = Json::Object(vec![
        ("jwks_uri".to_string(), Json::String("j".to_string())),
        ("userinfo_endpoint".to_string(), Json::String("u".to_string())),
        ("token_endpoint".to_string(), Json::String("t".to_string())),
        ("authorization_endpoint".to_string(), Json::String("a".to_string())),
    ]);
    let resolved = WellKnowns::from_json(&document).unwrap();
    assert_eq!(resolved.auth_url, "a");
    assert_eq!(resolved.token_url, "t");
    assert_eq!(resolved.user_info_url, "u");
    assert_eq!(resolved.jwks_url, "j");
}

#[test]
fn from_json_refuses_an_empty_endpoint() {
    let document = Json::Object(vec![
        ("authorization_endpoint".to_string(), Json::String("a".to_string())),
        ("token_endpoint".to_string(), Json::String("t".to_string())),
        ("userinfo_endpoint".to_string(), Json::String(String::new())),
        ("jwks_uri".to_string(), Json::String("j".to_string())),
    ]);
    assert_eq!(
        WellKnowns::from_json(&document),
        Err(DiscoveryError::MissingField("userinfo_endpoint".to_string()))
    );
}

#[test]
fn new_client_holds_the_discovered_endpoints() {
    let client = OidcClient::new(
        "https://idp",
        "abc",
        "secret",
        "http://127.0.0.1:3030/callback",
        vec!["openid".to_string()],
        None,
        answered(200, DOCUMENT),
    )
    .unwrap();
    assert_eq!(client.get_well_knowns().auth_url, "https://idp/auth");
    assert_eq!(client.get_well_knowns().token_url, "https://idp/token");
    assert_eq!(client.get_well_knowns().user_info_url, "https://idp/userinfo");
    assert_eq!(client.get_well_knowns().jwks_url, "https://idp/jwks");
    assert_eq!(client.build_token_url(), "https://idp/token");
    assert_eq!(client.csrf_state(), None);
}

#[test]
fn new_client_fails_as_discovery_fails() {
    let made = OidcClient::new("i", "c", "s", "r", vec![], None, answered(500, DOCUMENT));
    assert_eq!(made.err(), Some(DiscoveryError::HttpStatus(500)));
    let made = OidcClient::new("i", "c", "s", "r", vec![], None, answered(200, &without("jwks_uri")));
    assert_eq!(made.err(), Some(DiscoveryError::MissingField("jwks_uri".to_string())));
    let made = OidcClient::new("i", "c", "s", "r", vec![], None, Err("down".to_string()));
    assert_eq!(made.err(), Some(DiscoveryError::Network("down".to_string())));
}

#[test]
fn discovery_errors_in_words() {
    assert_eq!(DiscoveryError::Network("down".to_string()).message(), "Network error: down");
    assert_eq!(
        DiscoveryError::HttpStatus(404).message(),
        "Failed to fetch well-known configuration: 404"
    );
    assert_eq!(
        DiscoveryError::MissingField("jwks_uri".to_string()).message(),
        "Missing jwks_uri"
    );
    assert_eq!(
        DiscoveryError::Parse.message(),
        "The well-known configuration is not valid JSON"
    );
}
