use authify::http::{HttpMethod, HttpResponse};
use authify::json::Json;
use authify::oidc::jwt_client::JwtDecodeError;
use authify::oidc::oidc_client::{OidcClient, OidcError, TokenEndpointResponse};

const DISCOVERY: &str = r#"{
    "authorization_endpoint": "https://idp/auth",
    "token_endpoint": "https://idp/token",
    "userinfo_endpoint": "https://idp/userinfo",
    "jwks_uri": "https://idp/jwks"
}"#;

fn answered(status: u16, body: &str) -> Result<HttpResponse, String> {
    Ok(HttpResponse { status, body: Some(body.as_bytes().to_vec()) })
}

fn client() -> OidcClient {
    OidcClient::new(
        "https://idp",
        "abc",
        "s3cr3t",
        "http://127.0.0.1:3030/callback",
        vec!["openid".to_string(), "profile".to_string()],
        None,
        answered(200, DISCOVERY),
    )
    .unwrap()
}

fn pair(name: &str, value: &str) -> (String, String) {
    (name.to_string(), value.to_string())
}

#[test]
fn token_request_is_a_form_post_with_the_code() {
    let request = client().token_request("abc123");
    assert_eq!(request.method, HttpMethod::Post);
    assert_eq!(request.url, "https://idp/token");
    assert_eq!(request.bearer, None);
    assert_eq!(
        request.form,
        vec![
            pair("grant_type", "authorization_code"),
            pair("code", "abc123"),
            pair("redirect_uri", "http://127.0.0.1:3030/callback"),
            pair("client_id", "abc"),
            pair("client_secret", "s3cr3t"),
        ]
    );
}

#[test]
fn refresh_request_has_neither_code_nor_redirect_uri() {
    let request = client().refresh_request("r-1");
    assert_eq!(request.method, HttpMethod::Post);
    assert_eq!(request.url, "https://idp/token");
    assert_eq!(request.bearer, None);
    assert_eq!(
        request.form,
        vec![
            pair("grant_type", "refresh_token"),
            pair("refresh_token", "r-1"),
            pair("client_id", "abc"),
            pair("client_secret", "s3cr3t"),
        ]
    );
}

#[test]
fn user_info_request_bears_the_access_token() {
    let request = client().user_info_request("at-9");
    assert_eq!(request.method, HttpMethod::Get);
    assert_eq!(request.url, "https://idp/userinfo");
    assert_eq!(request.bearer, Some("at-9".to_string()));
    assert!(request.form.is_empty());
}

#[test]
fn full_token_response_is_granted() {
    let body = r#"{"access_token": "at", "token_type": "Bearer", "expires_in": 3600,
        "refresh_token": "rt", "scope": "openid profile", "id_token": "a.b.c"}"#;
    let granted = client().get_token(answered(200, body)).unwrap();
    assert_eq!(
        granted,
        TokenEndpointResponse {
            access_token: "at".to_string(),
            token_type: "Bearer".to_string(),
            expires_in: 3600,
            refresh_token: Some("rt".to_string()),
            scope: Some("openid profile".to_string()),
            id_token: Some("a.b.c".to_string()),
        }
    );
}

#[test]
fn optional_token_fields_may_be_absent() {
    let body = r#"{"access_token": "at", "token_type": "Bearer", "expires_in": 0}"#;
    let granted = client().get_token(answered(201, body)).unwrap();
    assert_eq!(granted.access_token, "at");
    assert_eq!(granted.token_type, "Bearer");
    assert_eq!(granted.expires_in, 0);
    assert_eq!(granted.refresh_token, None);
    assert_eq!(granted.scope, None);
    assert_eq!(granted.id_token, None);
}

#[test]
fn optional_token_fields_of_another_type_are_left_out() {
    let body = r#"{"access_token": "at", "token_type": "Bearer",
        "expires_in": 18446744073709551615,
        "refresh_token": null, "scope": ["openid"], "id_token": 5}"#;
    let granted = client().get_token(answered(200, body)).unwrap();
    assert_eq!(granted.expires_in, u64::MAX);
    assert_eq!(granted.refresh_token, None);
    assert_eq!(granted.scope, None);
    assert_eq!(granted.id_token, None);
}

#[test]
fn missing_access_token_is_named_and_nothing_is_granted() {
    let body = r#"{"token_type": "Bearer", "expires_in": 3600, "id_token": "a.b.c"}"#;
    let granted = client().get_token(answered(200, body));
    assert_eq!(granted, Err(OidcError::MissingField("access_token".to_string())));
}

#[test]
fn missing_token_type_is_named() {
    let body = r#"{"access_token": "at", "expires_in": 3600}"#;
    let granted = client().get_token(answered(200, body));
    assert_eq!(granted, Err(OidcError::MissingField("token_type".to_string())));
}

#[test]
fn missing_expires_in_is_named() {
    let body = r#"{"access_token": "at", "token_type": "Bearer"}"#;
    let granted = client().get_token(answered(200, body));
    assert_eq!(granted, Err(OidcError::MissingField("expires_in".to_string())));
}

#[test]
fn expires_in_must_be_a_non_negative_integer() {
    for value in ["-1", "3600.0", "\"3600\"", "null", "1e3", "18446744073709551616"] {
        let body =
            format!(r#"{{"access_token": "at", "token_type": "Bearer", "expires_in": {}}}"#, value);
        let granted = client().get_token(answered(200, &body));
        assert_eq!(granted, Err(OidcError::MissingField("expires_in".to_string())), "{}", value);
    }
}

#[test]
fn required_fields_are_looked_for_in_order() {
    let granted = client().get_token(answered(200, "{}"));
    assert_eq!(granted, Err(OidcError::MissingField("access_token".to_string())));
    let granted = client().get_token(answered(200, r#"{"access_token": "at"}"#));
    assert_eq!(granted, Err(OidcError::MissingField("token_type".to_string())));
    let granted = client().get_token(answered(200, r#"{"access_token": 1, "token_type": 2}"#));
    assert_eq!(granted, Err(OidcError::MissingField("access_token".to_string())));
}

#[test]
fn token_status_outside_2xx_echoes_the_body() {
    let granted = client().get_token(answered(400, r#"{"error": "invalid_grant"}"#));
    assert_eq!(
        granted,
        Err(OidcError::InvalidResponse {
            status: 400,
            body: r#"{"error": "invalid_grant"}"#.to_string(),
        })
    );
    let granted = client().refresh_token(answered(503, "try later"));
    assert_eq!(
        granted,
        Err(OidcError::InvalidResponse { status: 503, body: "try later".to_string() })
    );
}

#[test]
fn error_body_that_is_not_utf8_is_read_leniently() {
    let reply = Ok(HttpResponse { status: 500, body: Some(vec![b'o', b'k', 0xff, b'!']) });
    let granted = client().get_token(reply);
    assert_eq!(
        granted,
        Err(OidcError::InvalidResponse { status: 500, body: "ok\u{fffd}!".to_string() })
    );
}

#[test]
fn error_body_that_could_not_be_read_is_replaced() {
    let reply = Ok(HttpResponse { status: 401, body: None });
    let granted = client().get_token(reply);
    assert_eq!(
        granted,
        Err(OidcError::InvalidResponse {
            status: 401,
            body: "Failed to read error body".to_string(),
        })
    );
}

#[test]
fn token_transport_failure_is_a_network_error() {
    let granted = client().get_token(Err("timed out".to_string()));
    assert_eq!(granted, Err(OidcError::NetworkError("timed out".to_string())));
    let granted = client().refresh_token(Err("timed out".to_string()));
    assert_eq!(granted, Err(OidcError::NetworkError("timed out".to_string())));
    let claims = client().get_user_info(Err("timed out".to_string()));
    assert_eq!(claims, Err(OidcError::NetworkError("timed out".to_string())));
}

#[test]
fn successful_reply_without_json_is_a_network_error() {
    let granted = client().get_token(answered(200, "not json"));
    assert_eq!(
        granted,
        Err(OidcError::NetworkError("response body is not valid JSON".to_string()))
    );
    let granted = client().get_token(Ok(HttpResponse { status: 200, body: None }));
    assert_eq!(
        granted,
        Err(OidcError::NetworkError("response body could not be read".to_string()))
    );
}

#[test]
fn refresh_is_judged_as_the_code_exchange_is() {
    let body = r#"{"access_token": "at2", "token_type": "Bearer", "expires_in": 60}"#;
    let granted = client().refresh_token(answered(200, body)).unwrap();
    assert_eq!(granted.access_token, "at2");
    assert_eq!(granted.expires_in, 60);
    let granted = client().refresh_token(answered(200, r#"{"token_type": "Bearer"}"#));
    assert_eq!(granted, Err(OidcError::MissingField("access_token".to_string())));
}

#[test]
fn user_info_is_returned_as_it_came() {
    let body = r#"{"sub": "42", "email_verified": true, "groups": ["a", "b"],
        "address": {"country": "NL"}, "age": 7, "balance": -3, "ratio": 0.5, "none": null}"#;
    let claims = client().get_user_info(answered(200, body)).unwrap();
    assert_eq!(
        claims,
        Json::Object(vec![
            ("address".to_string(), Json::Object(vec![(
                "country".to_string(),
                Json::String("NL".to_string())
            )])),
            ("age".to_string(), Json::Unsigned(7)),
            ("balance".to_string(), Json::Signed(-3)),
            ("email_verified".to_string(), Json::Bool(true)),
            (
                "groups".to_string(),
                Json::Array(vec![Json::String("a".to_string()), Json::String("b".to_string())])
            ),
            ("none".to_string(), Json::Null),
            ("ratio".to_string(), Json::Decimal("0.5".to_string())),
            ("sub".to_string(), Json::String("42".to_string())),
        ])
    );
}

#[test]
fn user_info_need_not_be_an_object() {
    let claims = client().get_user_info(answered(200, "[1]")).unwrap();
    assert_eq!(claims, Json::Array(vec![Json::Unsigned(1)]));
}

#[test]
fn user_info_status_outside_2xx_echoes_the_body() {
    let claims = client().get_user_info(answered(403, "forbidden"));
    assert_eq!(
        claims,
        Err(OidcError::InvalidResponse { status: 403, body: "forbidden".to_string() })
    );
}

#[test]
fn from_json_reads_a_grant_built_by_hand() {
    let document = Json::Object(vec![
        ("expires_in".to_string(), Json::Unsigned(5)),
        ("token_type".to_string(), Json::String("Bearer".to_string())),
        ("access_token".to_string(), Json::String("first".to_string())),
        ("access_token".to_string(), Json::String("second".to_string())),
    ]);
    let granted = TokenEndpointResponse::from_json(&document).unwrap();
    assert_eq!(granted.access_token, "first");
    assert_eq!(granted.expires_in, 5);
}

#[test]
fn id_token_is_decoded_for_display_only() {
    let body = r#"{"access_token": "at", "token_type": "Bearer", "expires_in": 1,
        "id_token": "e30.eyJzdWIiOiI0MiJ9.c2ln"}"#;
    let granted = client().get_token(answered(200, body)).unwrap();
    let (header, payload) = granted.decode_id_token().unwrap().unwrap();
    assert_eq!(header, Json::Object(vec![]));
    assert_eq!(
        payload,
        Json::Object(vec![("sub".to_string(), Json::String("42".to_string()))])
    );
}

#[test]
fn undecodable_id_token_does_not_fail_the_grant() {
    let body = r#"{"access_token": "at", "token_type": "Bearer", "expires_in": 1,
        "id_token": "not a token"}"#;
    let granted = client().get_token(answered(200, body)).unwrap();
    assert_eq!(granted.id_token, Some("not a token".to_string()));
    assert_eq!(granted.decode_id_token(), Some(Err(JwtDecodeError::MalformedStructure)));
    let body = r#"{"access_token": "at", "token_type": "Bearer", "expires_in": 1}"#;
    let granted = client().get_token(answered(200, body)).unwrap();
    assert_eq!(granted.decode_id_token(), None);
}

#[test]
fn errors_in_words() {
    assert_eq!(OidcError::NetworkError("down".to_string()).message(), "Network error: down");
    assert_eq!(
        OidcError::InvalidResponse { status: 404, body: "gone".to_string() }.message(),
        "Invalid response: request failed with status: 404, body: gone"
    );
    assert_eq!(
        OidcError::InvalidResponse { status: 0, body: String::new() }.message(),
        "Invalid response: request failed with status: 0, body: "
    );
    assert_eq!(
        OidcError::InvalidResponse { status: 65535, body: "x".to_string() }.message(),
        "Invalid response: request failed with status: 65535, body: x"
    );
    assert_eq!(
        OidcError::MissingField("access_token".to_string()).message(),
        "Missing field: access_token"
    );
    assert_eq!(OidcError::DecodingError("bad".to_string()).message(), "Decoding error: bad");
}

#[test]
fn unreadable_token_as_an_error_of_the_flow() {
    assert_eq!(
        OidcError::from_decode_error(JwtDecodeError::MalformedStructure),
        OidcError::DecodingError("Invalid JWT format".to_string())
    );
    assert_eq!(
        OidcError::from_decode_error(JwtDecodeError::Base64).message(),
        "Decoding error: Invalid base64 in JWT"
    );
    assert_eq!(
        OidcError::from_decode_error(JwtDecodeError::JsonParse).message(),
        "Decoding error: Invalid JSON in JWT"
    );
}

#[test]
fn handle_error_reports_the_error_in_words() {
    let reported = client().handle_error(OidcError::MissingField("token_type".to_string()));
    assert_eq!(reported, Err("Missing field: token_type".to_string()));
}
