//! The relying party of the authorization-code flow.
//!
//! An [`OidcClient`] is made from the provider's discovery document and from
//! then on builds each request of the flow and judges each reply. It sends
//! nothing itself: see [`crate::http`].

use crate::http::{
    error_body, error_body_text, is_success, reply_model, status_is_success, HttpMethod,
    HttpRequest, HttpResponse, ReplyModel,
};
use crate::json::{json_document, Json, JsonModel};
use crate::oidc::jwt_client::{decode_jwt_without_verification, decoded_jwt, JwtDecodeError};
use crate::query::{
    does_not_part, endpoint_is_plain, fields_do_not_part, law_parameter_is_read,
    law_query_round_trip, lemma_join_is_free, lemma_occurs_concat, lemma_query_is_free,
    lemma_split_join, query_fields, query_string, reads_as_written, url_parameter, url_query,
    without_fragment, write_query,
};
use crate::text::{
    decimal, decimal_string, join, join_strings, lemma_first_index, lemma_first_index_is,
    lemma_occurs, occurs, push_char, split_on, texts,
};
use rand::Rng;
use vstd::prelude::*;
use vstd::string::*;
use vstd::utf8::encode_utf8;

verus! {

/// Why a step of the flow failed.
#[derive(Clone, Debug, PartialEq, Eq)]
pub enum OidcError {
    /// No usable response: the transport failed, the body could not be read,
    /// or the body of a successful response is not JSON. Holds the reason.
    NetworkError(String),
    /// The server answered with a status outside 200 to 299. Holds the status
    /// and the body that came with it.
    InvalidResponse { status: u16, body: String },
    /// A field that the response must have is absent or of the wrong type.
    /// Holds the field's name.
    MissingField(String),
    /// A token could not be decoded. Holds the reason.
    DecodingError(String),
}

/// The mathematical value of an [`OidcError`].
pub enum OidcErrorModel {
    NetworkError(Seq<char>),
    InvalidResponse { status: u16, body: Seq<char> },
    MissingField(Seq<char>),
    DecodingError(Seq<char>),
}

impl View for OidcError {
    type V = OidcErrorModel;

    open spec fn view(&self) -> OidcErrorModel {
        match self {
            OidcError::NetworkError(reason) => OidcErrorModel::NetworkError(reason@),
            OidcError::InvalidResponse { status, body } => OidcErrorModel::InvalidResponse {
                status: *status,
                body: body@,
            },
            OidcError::MissingField(name) => OidcErrorModel::MissingField(name@),
            OidcError::DecodingError(reason) => OidcErrorModel::DecodingError(reason@),
        }
    }
}

impl OidcErrorModel {
    /// The error in words: its kind, a colon, and what it holds.
    pub open spec fn message(self) -> Seq<char> {
        match self {
            OidcErrorModel::NetworkError(reason) => "Network error: "@ + reason,
            OidcErrorModel::InvalidResponse { status, body } =>
                "Invalid response: request failed with status: "@ + decimal(status as nat)
                    + ", body: "@ + body,
            OidcErrorModel::MissingField(name) => "Missing field: "@ + name,
            OidcErrorModel::DecodingError(reason) => "Decoding error: "@ + reason,
        }
    }
}

impl OidcError {
    /// The error of the flow that stands for a token that could not be read,
    /// for a caller who reports it rather than passing over it.
    pub fn from_decode_error(error: JwtDecodeError) -> (reported: OidcError)
        ensures
            reported@ == OidcErrorModel::DecodingError(error.spec_message()),
    {
        OidcError::DecodingError(error.message())
    }

    /// The error in words.
    pub fn message(&self) -> (text: String)
        ensures
            text@ == self@.message(),
    {
        match self {
            OidcError::NetworkError(reason) => {
                let mut text = "Network error: ".to_owned();
                text.append(reason.as_str());
                text
            },
            OidcError::InvalidResponse { status, body } => {
                let mut text = "Invalid response: request failed with status: ".to_owned();
                let digits = decimal_string(*status as u64);
                text.append(digits.as_str());
                text.append(", body: ");
                text.append(body.as_str());
                text
            },
            OidcError::MissingField(name) => {
                let mut text = "Missing field: ".to_owned();
                text.append(name.as_str());
                text
            },
            OidcError::DecodingError(reason) => {
                let mut text = "Decoding error: ".to_owned();
                text.append(reason.as_str());
                text
            },
        }
    }
}

/// The reason given where a successful response has no readable body.
pub open spec fn unreadable_body_reason() -> Seq<char> {
    "response body could not be read"@
}

/// The reason given where the body of a successful response is not JSON.
pub open spec fn not_json_reason() -> Seq<char> {
    "response body is not valid JSON"@
}

/// The JSON document that a reply delivers, or the error that stands for it:
/// a transport failure, a status outside 200 to 299 with the body echoed, a
/// body that could not be read, a body that is not JSON.
pub open spec fn json_reply(reply: ReplyModel) -> Result<JsonModel, OidcErrorModel> {
    match reply {
        ReplyModel::Failed(reason) => Err(OidcErrorModel::NetworkError(reason)),
        ReplyModel::Answered { status, body } => if !is_success(status) {
            Err(OidcErrorModel::InvalidResponse { status, body: error_body_text(body) })
        } else {
            match body {
                None => Err(OidcErrorModel::NetworkError(unreadable_body_reason())),
                Some(bytes) => match json_document(bytes) {
                    None => Err(OidcErrorModel::NetworkError(not_json_reason())),
                    Some(document) => Ok(document),
                },
            }
        },
    }
}

/// Judges the reply of an endpoint that answers in JSON.
pub fn read_json_reply(reply: Result<HttpResponse, String>) -> (read: Result<Json, OidcError>)
    ensures
        match read {
            Ok(document) => json_reply(reply_model(reply)) == Ok::<JsonModel, OidcErrorModel>(
                document@,
            ),
            Err(error) => json_reply(reply_model(reply)) == Err::<JsonModel, OidcErrorModel>(
                error@,
            ),
        },
{
    match reply {
        Err(reason) => Err(OidcError::NetworkError(reason)),
        Ok(response) => {
            if !status_is_success(response.status) {
                let body = error_body(&response.body);
                return Err(OidcError::InvalidResponse { status: response.status, body });
            }
            match response.body {
                None => Err(OidcError::NetworkError("response body could not be read".to_owned())),
                Some(bytes) => match Json::parse(bytes.as_slice()) {
                    Err(_) => Err(
                        OidcError::NetworkError("response body is not valid JSON".to_owned()),
                    ),
                    Ok(document) => Ok(document),
                },
            }
        },
    }
}

/// What the token endpoint grants.
#[derive(Clone, Debug, PartialEq, Eq)]
pub struct TokenEndpointResponse {
    pub access_token: String,
    pub token_type: String,
    /// Seconds until the access token expires.
    pub expires_in: u64,
    pub refresh_token: Option<String>,
    pub scope: Option<String>,
    pub id_token: Option<String>,
}

/// The mathematical value of a [`TokenEndpointResponse`].
pub struct TokenEndpointResponseModel {
    pub access_token: Seq<char>,
    pub token_type: Seq<char>,
    pub expires_in: u64,
    pub refresh_token: Option<Seq<char>>,
    pub scope: Option<Seq<char>>,
    pub id_token: Option<Seq<char>>,
}

/// The view of an optional string.
pub open spec fn optional_text(text: Option<String>) -> Option<Seq<char>> {
    match text {
        Some(t) => Some(t@),
        None => None,
    }
}

impl View for TokenEndpointResponse {
    type V = TokenEndpointResponseModel;

    open spec fn view(&self) -> TokenEndpointResponseModel {
        TokenEndpointResponseModel {
            access_token: self.access_token@,
            token_type: self.token_type@,
            expires_in: self.expires_in,
            refresh_token: optional_text(self.refresh_token),
            scope: optional_text(self.scope),
            id_token: optional_text(self.id_token),
        }
    }
}

/// The grant that a token document holds. `access_token` and `token_type`
/// must be strings and `expires_in` an integer from zero to `u64::MAX`; the
/// first of the three that is not is named in the error, and nothing is
/// granted. `refresh_token`, `scope` and `id_token` are taken where they are
/// strings.
pub open spec fn token_response_of(document: JsonModel) -> Result<
    TokenEndpointResponseModel,
    OidcErrorModel,
> {
    if document.text_member("access_token"@) is None {
        Err(OidcErrorModel::MissingField("access_token"@))
    } else if document.text_member("token_type"@) is None {
        Err(OidcErrorModel::MissingField("token_type"@))
    } else if document.unsigned_member("expires_in"@) is None {
        Err(OidcErrorModel::MissingField("expires_in"@))
    } else {
        Ok(
            TokenEndpointResponseModel {
                access_token: document.text_member("access_token"@)->0,
                token_type: document.text_member("token_type"@)->0,
                expires_in: document.unsigned_member("expires_in"@)->0,
                refresh_token: document.text_member("refresh_token"@),
                scope: document.text_member("scope"@),
                id_token: document.text_member("id_token"@),
            },
        )
    }
}

/// What a reply of the token endpoint amounts to.
pub open spec fn token_reply(reply: ReplyModel) -> Result<
    TokenEndpointResponseModel,
    OidcErrorModel,
> {
    match json_reply(reply) {
        Ok(document) => token_response_of(document),
        Err(error) => Err(error),
    }
}

impl TokenEndpointResponse {
    /// Reads the grant out of a token document.
    pub fn from_json(document: &Json) -> (granted: Result<TokenEndpointResponse, OidcError>)
        ensures
            match granted {
                Ok(response) => token_response_of(document@) == Ok::<
                    TokenEndpointResponseModel,
                    OidcErrorModel,
                >(response@),
                Err(error) => token_response_of(document@) == Err::<
                    TokenEndpointResponseModel,
                    OidcErrorModel,
                >(error@),
            },
    {
        let access_token = match document.text_member("access_token") {
            Some(text) => text,
            None => {
                return Err(OidcError::MissingField("access_token".to_owned()));
            },
        };
        let token_type = match document.text_member("token_type") {
            Some(text) => text,
            None => {
                return Err(OidcError::MissingField("token_type".to_owned()));
            },
        };
        let expires_in = match document.unsigned_member("expires_in") {
            Some(seconds) => seconds,
            None => {
                return Err(OidcError::MissingField("expires_in".to_owned()));
            },
        };
        let refresh_token = document.text_member("refresh_token");
        let scope = document.text_member("scope");
        let id_token = document.text_member("id_token");
        Ok(
            TokenEndpointResponse {
                access_token,
                token_type,
                expires_in,
                refresh_token,
                scope,
                id_token,
            },
        )
    }

    /// Reads the identity token, where the grant holds one, for display:
    /// its header and payload, or why it could not be read. A token that
    /// cannot be read takes nothing from the grant, and one that can is not
    /// thereby verified.
    pub fn decode_id_token(&self) -> (read: Option<Result<(Json, Json), JwtDecodeError>>)
        ensures
            match self.id_token {
                None => read is None,
                Some(token) => read is Some && match read->0 {
                    Ok((header, payload)) => decoded_jwt(encode_utf8(token@)) == Ok::<
                        (JsonModel, JsonModel),
                        JwtDecodeError,
                    >((header@, payload@)),
                    Err(error) => decoded_jwt(encode_utf8(token@)) == Err::<
                        (JsonModel, JsonModel),
                        JwtDecodeError,
                    >(error),
                },
            },
    {
        match &self.id_token {
            None => None,
            Some(token) => Some(decode_jwt_without_verification(token.as_str())),
        }
    }

    /// Judges a reply of the token endpoint.
    pub fn from_reply(reply: Result<HttpResponse, String>) -> (granted: Result<
        TokenEndpointResponse,
        OidcError,
    >)
        ensures
            match granted {
                Ok(response) => token_reply(reply_model(reply)) == Ok::<
                    TokenEndpointResponseModel,
                    OidcErrorModel,
                >(response@),
                Err(error) => token_reply(reply_model(reply)) == Err::<
                    TokenEndpointResponseModel,
                    OidcErrorModel,
                >(error@),
            },
    {
        match read_json_reply(reply) {
            Ok(document) => TokenEndpointResponse::from_json(&document),
            Err(error) => Err(error),
        }
    }
}

/// Why the provider's endpoints could not be learned.
#[derive(Clone, Debug, PartialEq, Eq)]
pub enum DiscoveryError {
    /// No usable response: the transport failed, or the body could not be
    /// read. Holds the reason.
    Network(String),
    /// The server answered with this status, outside 200 to 299.
    HttpStatus(u16),
    /// The document lacks this endpoint, or holds for it something other
    /// than a string, or the empty string.
    MissingField(String),
    /// The body is not JSON.
    Parse,
}

/// The mathematical value of a [`DiscoveryError`].
pub enum DiscoveryErrorModel {
    Network(Seq<char>),
    HttpStatus(u16),
    MissingField(Seq<char>),
    Parse,
}

impl View for DiscoveryError {
    type V = DiscoveryErrorModel;

    open spec fn view(&self) -> DiscoveryErrorModel {
        match self {
            DiscoveryError::Network(reason) => DiscoveryErrorModel::Network(reason@),
            DiscoveryError::HttpStatus(status) => DiscoveryErrorModel::HttpStatus(*status),
            DiscoveryError::MissingField(name) => DiscoveryErrorModel::MissingField(name@),
            DiscoveryError::Parse => DiscoveryErrorModel::Parse,
        }
    }
}

impl DiscoveryErrorModel {
    /// The error in words.
    pub open spec fn message(self) -> Seq<char> {
        match self {
            DiscoveryErrorModel::Network(reason) => "Network error: "@ + reason,
            DiscoveryErrorModel::HttpStatus(status) =>
                "Failed to fetch well-known configuration: "@ + decimal(status as nat),
            DiscoveryErrorModel::MissingField(name) => "Missing "@ + name,
            DiscoveryErrorModel::Parse => "The well-known configuration is not valid JSON"@,
        }
    }
}

impl DiscoveryError {
    /// The error in words.
    pub fn message(&self) -> (text: String)
        ensures
            text@ == self@.message(),
    {
        match self {
            DiscoveryError::Network(reason) => {
                let mut text = "Network error: ".to_owned();
                text.append(reason.as_str());
                text
            },
            DiscoveryError::HttpStatus(status) => {
                let mut text = "Failed to fetch well-known configuration: ".to_owned();
                let digits = decimal_string(*status as u64);
                text.append(digits.as_str());
                text
            },
            DiscoveryError::MissingField(name) => {
                let mut text = "Missing ".to_owned();
                text.append(name.as_str());
                text
            },
            DiscoveryError::Parse => "The well-known configuration is not valid JSON".to_owned(),
        }
    }
}

/// The endpoints of a provider, as its discovery document gives them. Of the
/// endpoints that discovery resolves, none is empty.
#[derive(Clone, Debug, PartialEq, Eq)]
pub struct WellKnowns {
    pub auth_url: String,
    pub token_url: String,
    pub user_info_url: String,
    pub jwks_url: String,
}

/// The mathematical value of a [`WellKnowns`].
pub struct WellKnownsModel {
    pub auth_url: Seq<char>,
    pub token_url: Seq<char>,
    pub user_info_url: Seq<char>,
    pub jwks_url: Seq<char>,
}

impl View for WellKnowns {
    type V = WellKnownsModel;

    open spec fn view(&self) -> WellKnownsModel {
        WellKnownsModel {
            auth_url: self.auth_url@,
            token_url: self.token_url@,
            user_info_url: self.user_info_url@,
            jwks_url: self.jwks_url@,
        }
    }
}

impl WellKnownsModel {
    /// None of the four endpoints is empty.
    pub open spec fn wf(self) -> bool {
        &&& self.auth_url.len() > 0
        &&& self.token_url.len() > 0
        &&& self.user_info_url.len() > 0
        &&& self.jwks_url.len() > 0
    }
}

/// The endpoint that a discovery document gives under `name`: the text of
/// that member, where the member is there, is a string, and is not empty.
pub open spec fn endpoint_member(document: JsonModel, name: Seq<char>) -> Option<Seq<char>> {
    match document.text_member(name) {
        Some(text) => if text.len() > 0 {
            Some(text)
        } else {
            None
        },
        None => None,
    }
}

/// The endpoints that a discovery document names. `authorization_endpoint`,
/// `token_endpoint`, `userinfo_endpoint` and `jwks_uri` must all be strings
/// that are not empty; the first of them, in this order, that is absent, is
/// no string or is empty is named in the error.
pub open spec fn well_knowns_of(document: JsonModel) -> Result<
    WellKnownsModel,
    DiscoveryErrorModel,
> {
    if endpoint_member(document, "authorization_endpoint"@) is None {
        Err(DiscoveryErrorModel::MissingField("authorization_endpoint"@))
    } else if endpoint_member(document, "token_endpoint"@) is None {
        Err(DiscoveryErrorModel::MissingField("token_endpoint"@))
    } else if endpoint_member(document, "userinfo_endpoint"@) is None {
        Err(DiscoveryErrorModel::MissingField("userinfo_endpoint"@))
    } else if endpoint_member(document, "jwks_uri"@) is None {
        Err(DiscoveryErrorModel::MissingField("jwks_uri"@))
    } else {
        Ok(
            WellKnownsModel {
                auth_url: endpoint_member(document, "authorization_endpoint"@)->0,
                token_url: endpoint_member(document, "token_endpoint"@)->0,
                user_info_url: endpoint_member(document, "userinfo_endpoint"@)->0,
                jwks_url: endpoint_member(document, "jwks_uri"@)->0,
            },
        )
    }
}

/// What a reply to the discovery request amounts to: the endpoints, or a
/// transport failure, a status outside 200 to 299, a body that could not be
/// read, a body that is not JSON, or a missing endpoint.
pub open spec fn discovery_reply(reply: ReplyModel) -> Result<WellKnownsModel, DiscoveryErrorModel> {
    match reply {
        ReplyModel::Failed(reason) => Err(DiscoveryErrorModel::Network(reason)),
        ReplyModel::Answered { status, body } => if !is_success(status) {
            Err(DiscoveryErrorModel::HttpStatus(status))
        } else {
            match body {
                None => Err(DiscoveryErrorModel::Network(unreadable_body_reason())),
                Some(bytes) => match json_document(bytes) {
                    None => Err(DiscoveryErrorModel::Parse),
                    Some(document) => well_knowns_of(document),
                },
            }
        },
    }
}

/// The path of the discovery document below an issuer.
pub open spec fn well_known_path() -> Seq<char> {
    "/.well-known/openid-configuration"@
}

/// A `GET` of `url`, with no header and no body of the library's choosing.
pub open spec fn plain_get(url: Seq<char>) -> crate::http::HttpRequestModel {
    crate::http::HttpRequestModel {
        method: HttpMethod::Get,
        url,
        bearer: None,
        form: Seq::empty(),
    }
}

/// Reads the endpoint that a discovery document gives under `name`.
fn read_endpoint(document: &Json, name: &str) -> (endpoint: Option<String>)
    ensures
        match endpoint {
            Some(text) => endpoint_member(document@, name@) == Some(text@),
            None => endpoint_member(document@, name@) is None,
        },
{
    match document.text_member(name) {
        Some(text) => if text.as_str().is_empty() {
            None
        } else {
            Some(text)
        },
        None => None,
    }
}

impl WellKnowns {
    /// Reads the endpoints out of a discovery document. What is read is well
    /// formed: no endpoint is empty.
    pub fn from_json(document: &Json) -> (resolved: Result<WellKnowns, DiscoveryError>)
        ensures
            match resolved {
                Ok(endpoints) => well_knowns_of(document@) == Ok::<
                    WellKnownsModel,
                    DiscoveryErrorModel,
                >(endpoints@) && endpoints@.wf(),
                Err(error) => well_knowns_of(document@) == Err::<
                    WellKnownsModel,
                    DiscoveryErrorModel,
                >(error@),
            },
    {
        let auth_url = match read_endpoint(document, "authorization_endpoint") {
            Some(text) => text,
            None => {
                return Err(DiscoveryError::MissingField("authorization_endpoint".to_owned()));
            },
        };
        let token_url = match read_endpoint(document, "token_endpoint") {
            Some(text) => text,
            None => {
                return Err(DiscoveryError::MissingField("token_endpoint".to_owned()));
            },
        };
        let user_info_url = match read_endpoint(document, "userinfo_endpoint") {
            Some(text) => text,
            None => {
                return Err(DiscoveryError::MissingField("userinfo_endpoint".to_owned()));
            },
        };
        let jwks_url = match read_endpoint(document, "jwks_uri") {
            Some(text) => text,
            None => {
                return Err(DiscoveryError::MissingField("jwks_uri".to_owned()));
            },
        };
        Ok(WellKnowns { auth_url, token_url, user_info_url, jwks_url })
    }

    /// The request for the discovery document at `url`.
    pub fn resolve_from_request(url: &str) -> (request: HttpRequest)
        ensures
            request@ == plain_get(url@),
    {
        let request = HttpRequest {
            method: HttpMethod::Get,
            url: url.to_owned(),
            bearer: None,
            form: Vec::new(),
        };
        assert(request@.form =~= Seq::empty());
        request
    }

    /// The request for the discovery document of `issuer`, which lies at
    /// `issuer` followed by `/.well-known/openid-configuration`.
    pub fn resolve_request(issuer: &str) -> (request: HttpRequest)
        ensures
            request@ == plain_get(issuer@ + well_known_path()),
    {
        let mut url = issuer.to_owned();
        url.append("/.well-known/openid-configuration");
        WellKnowns::resolve_from_request(url.as_str())
    }

    /// Judges the reply to a discovery request. One reply is judged once:
    /// nothing is retried and no endpoint is made up. What is resolved is
    /// well formed: no endpoint is empty.
    pub fn resolve(reply: Result<HttpResponse, String>) -> (resolved: Result<
        WellKnowns,
        DiscoveryError,
    >)
        ensures
            match resolved {
                Ok(endpoints) => discovery_reply(reply_model(reply)) == Ok::<
                    WellKnownsModel,
                    DiscoveryErrorModel,
                >(endpoints@) && endpoints@.wf(),
                Err(error) => discovery_reply(reply_model(reply)) == Err::<
                    WellKnownsModel,
                    DiscoveryErrorModel,
                >(error@),
            },
    {
        match reply {
            Err(reason) => Err(DiscoveryError::Network(reason)),
            Ok(response) => {
                if !status_is_success(response.status) {
                    return Err(DiscoveryError::HttpStatus(response.status));
                }
                match response.body {
                    None => Err(
                        DiscoveryError::Network("response body could not be read".to_owned()),
                    ),
                    Some(bytes) => match Json::parse(bytes.as_slice()) {
                        Err(_) => Err(DiscoveryError::Parse),
                        Ok(document) => WellKnowns::from_json(&document),
                    },
                }
            },
        }
    }
}

/// The relying party: what it was configured with, the endpoints it
/// discovered, and the CSRF state of the authorization attempt under way.
#[derive(Clone, Debug)]
pub struct OidcClient {
    issuer: String,
    client_id: String,
    client_secret: String,
    redirect_url: String,
    scope: Vec<String>,
    well_knowns: WellKnowns,
    /// The state that the caller asked for, if any.
    requested_state: Option<String>,
    /// The state of the authorization URL built last, if any was built.
    state: Option<String>,
}

/// The mathematical value of an [`OidcClient`].
pub struct OidcClientModel {
    pub issuer: Seq<char>,
    pub client_id: Seq<char>,
    pub client_secret: Seq<char>,
    pub redirect_url: Seq<char>,
    pub scope: Seq<Seq<char>>,
    pub well_knowns: WellKnownsModel,
    pub requested_state: Option<Seq<char>>,
    pub state: Option<Seq<char>>,
}

impl View for OidcClient {
    type V = OidcClientModel;

    closed spec fn view(&self) -> OidcClientModel {
        OidcClientModel {
            issuer: self.issuer@,
            client_id: self.client_id@,
            client_secret: self.client_secret@,
            redirect_url: self.redirect_url@,
            scope: texts(self.scope@),
            well_knowns: self.well_knowns@,
            requested_state: optional_text(self.requested_state),
            state: optional_text(self.state),
        }
    }
}

/// A letter or a digit of ASCII.
pub open spec fn is_alphanumeric(c: char) -> bool {
    let n = c as u32;
    (0x30 <= n <= 0x39) || (0x41 <= n <= 0x5a) || (0x61 <= n <= 0x7a)
}

/// The length of a state that the client draws for itself.
pub open spec fn state_length() -> nat {
    32
}

/// A state as the client draws it: 32 letters and digits of ASCII.
pub open spec fn is_state_token(state: Seq<char>) -> bool {
    &&& state.len() == state_length()
    &&& forall|i: int| 0 <= i < state.len() ==> is_alphanumeric(#[trigger] state[i])
}

/// The fields of the authorization query of `client` for `state`:
/// `response_type=code`, the client's id, its redirect URI, its scopes joined
/// by single spaces, the state, and `access_type=offline`.
pub open spec fn authorization_fields(client: OidcClientModel, state: Seq<char>) -> Seq<
    (Seq<char>, Seq<char>),
> {
    seq![
        ("response_type"@, "code"@),
        ("client_id"@, client.client_id),
        ("redirect_uri"@, client.redirect_url),
        ("scope"@, join(client.scope, seq![' '])),
        ("state"@, state),
        ("access_type"@, "offline"@),
    ]
}

/// The authorization URL of `client` for `state`: the authorization
/// endpoint, `?`, and the authorization query, every value written out as it
/// is.
pub open spec fn authorization_url(client: OidcClientModel, state: Seq<char>) -> Seq<char> {
    client.well_knowns.auth_url + seq!['?'] + query_string(authorization_fields(client, state))
}

/// A form-encoded `POST` to `url`.
pub open spec fn form_post(
    url: Seq<char>,
    form: Seq<(Seq<char>, Seq<char>)>,
) -> crate::http::HttpRequestModel {
    crate::http::HttpRequestModel { method: HttpMethod::Post, url, bearer: None, form }
}

/// The request that exchanges `code` for tokens.
pub open spec fn token_request_of(
    client: OidcClientModel,
    code: Seq<char>,
) -> crate::http::HttpRequestModel {
    form_post(
        client.well_knowns.token_url,
        seq![
            ("grant_type"@, "authorization_code"@),
            ("code"@, code),
            ("redirect_uri"@, client.redirect_url),
            ("client_id"@, client.client_id),
            ("client_secret"@, client.client_secret),
        ],
    )
}

/// The request that renews tokens by `refresh_token`. It carries neither a
/// code nor a redirect URI.
pub open spec fn refresh_request_of(
    client: OidcClientModel,
    refresh_token: Seq<char>,
) -> crate::http::HttpRequestModel {
    form_post(
        client.well_knowns.token_url,
        seq![
            ("grant_type"@, "refresh_token"@),
            ("refresh_token"@, refresh_token),
            ("client_id"@, client.client_id),
            ("client_secret"@, client.client_secret),
        ],
    )
}

/// The request for the user's claims, authenticated by `access_token`.
pub open spec fn user_info_request_of(
    client: OidcClientModel,
    access_token: Seq<char>,
) -> crate::http::HttpRequestModel {
    crate::http::HttpRequestModel {
        method: HttpMethod::Get,
        url: client.well_knowns.user_info_url,
        bearer: Some(access_token),
        form: Seq::empty(),
    }
}

/// Calls `Rng::sample` on `rand::thread_rng()` with the distribution
/// `rand::distributions::Alphanumeric`. The claim holds of every draw: the
/// byte is one of `A-Z`, `a-z`, `0-9`. Which one is left open, so two calls
/// may differ. `rand` seeds the thread's generator from the operating system
/// on first use and panics where the system has no seed to give; no argument
/// of this function has a part in that.
#[verifier::external_body]
fn random_alphanumeric() -> (byte: u8)
    ensures
        is_alphanumeric(byte as char),
{
    rand::thread_rng().sample(rand::distributions::Alphanumeric)
}

fn form_field(name: &str, value: &str) -> (field: (String, String))
    ensures
        field.0@ == name@,
        field.1@ == value@,
{
    (name.to_owned(), value.to_owned())
}

impl OidcClient {
    /// Makes a client from its configuration and from the reply to the
    /// discovery request of `issuer` (see [`WellKnowns::resolve_request`]).
    /// There is no client without discovered endpoints. `state`, where given,
    /// is the CSRF state of every authorization URL; where it is not, each
    /// URL gets a state of its own.
    pub fn new(
        issuer: &str,
        client_id: &str,
        client_secret: &str,
        redirect_url: &str,
        scope: Vec<String>,
        state: Option<String>,
        discovery: Result<HttpResponse, String>,
    ) -> (made: Result<OidcClient, DiscoveryError>)
        ensures
            match made {
                Ok(client) => {
                    &&& discovery_reply(reply_model(discovery)) == Ok::<
                        WellKnownsModel,
                        DiscoveryErrorModel,
                    >(client@.well_knowns)
                    &&& client@.well_knowns.wf()
                    &&& client@.issuer == issuer@
                    &&& client@.client_id == client_id@
                    &&& client@.client_secret == client_secret@
                    &&& client@.redirect_url == redirect_url@
                    &&& client@.scope == texts(scope@)
                    &&& client@.requested_state == optional_text(state)
                    &&& client@.state is None
                },
                Err(error) => discovery_reply(reply_model(discovery)) == Err::<
                    WellKnownsModel,
                    DiscoveryErrorModel,
                >(error@),
            },
    {
        match WellKnowns::resolve(discovery) {
            Ok(well_knowns) => Ok(
                OidcClient {
                    issuer: issuer.to_owned(),
                    client_id: client_id.to_owned(),
                    client_secret: client_secret.to_owned(),
                    redirect_url: redirect_url.to_owned(),
                    scope,
                    well_knowns,
                    requested_state: state,
                    state: None,
                },
            ),
            Err(error) => Err(error),
        }
    }

    /// The endpoints discovered when the client was made.
    pub fn get_well_knowns(&self) -> (endpoints: &WellKnowns)
        ensures
            endpoints@ == self@.well_knowns,
    {
        &self.well_knowns
    }

    /// The state of the authorization URL built last, if any was built. The
    /// state that comes back with the redirect is to be held against it.
    pub fn csrf_state(&self) -> (state: Option<&String>)
        ensures
            optional_text(
                match state {
                    Some(s) => Some(*s),
                    None => None,
                },
            ) == self@.state,
    {
        self.state.as_ref()
    }

    /// Draws a state: 32 letters and digits of ASCII, each from the thread's
    /// random number generator.
    pub fn generate_state() -> (state: String)
        ensures
            is_state_token(state@),
    {
        let mut state = String::new();
        let mut drawn: usize = 0;
        while drawn < 32
            invariant
                drawn <= 32,
                state@.len() == drawn,
                forall|i: int| 0 <= i < state@.len() ==> is_alphanumeric(#[trigger] state@[i]),
            decreases 32 - drawn,
        {
            let byte: u8 = random_alphanumeric();
            push_char(&mut state, byte as char);
            drawn += 1;
        }
        state
    }

    /// Builds the authorization URL for `state` and keeps `state` as the one
    /// in force, in place of any kept before.
    pub fn authorization_url_with_state(&mut self, state: String) -> (url: String)
        ensures
            url@ == authorization_url(old(self)@, state@),
            final(self)@ == (OidcClientModel { state: Some(state@), ..old(self)@ }),
    {
        proof {
            reveal_strlit(" ");
            reveal_strlit("?");
        }
        assert(" "@ =~= seq![' ']);
        assert("?"@ =~= seq!['?']);
        let scope = join_strings(&self.scope, " ");
        let mut fields: Vec<(String, String)> = Vec::new();
        fields.push(form_field("response_type", "code"));
        fields.push(form_field("client_id", self.client_id.as_str()));
        fields.push(form_field("redirect_uri", self.redirect_url.as_str()));
        fields.push(form_field("scope", scope.as_str()));
        fields.push(form_field("state", state.as_str()));
        fields.push(form_field("access_type", "offline"));
        assert(crate::http::form_view(fields@) =~= authorization_fields(self@, state@));
        let query = write_query(&fields);
        let mut url = self.well_knowns.auth_url.clone();
        url.append("?");
        url.append(query.as_str());
        self.state = Some(state);
        url
    }

    /// Builds the authorization URL to open in a browser. Its state is the
    /// one asked for when the client was made, or else one drawn now (see
    /// [`OidcClient::generate_state`]). The state is kept in place of any kept
    /// before, so an URL built earlier no longer matches. Nothing is sent,
    /// and the result is always `Ok`.
    pub fn build_authorization_url(&mut self) -> (built: Result<String, OidcError>)
        ensures
            built is Ok,
            final(self)@.state is Some,
            built->Ok_0@ == authorization_url(old(self)@, final(self)@.state->0),
            final(self)@ == (OidcClientModel { state: final(self)@.state, ..old(self)@ }),
            match old(self)@.requested_state {
                Some(asked) => final(self)@.state == Some(asked),
                None => is_state_token(final(self)@.state->0),
            },
    {
        let state = match &self.requested_state {
            Some(asked) => asked.clone(),
            None => OidcClient::generate_state(),
        };
        Ok(self.authorization_url_with_state(state))
    }

    /// The URL of the token endpoint.
    pub fn build_token_url(&self) -> (url: String)
        ensures
            url@ == self@.well_knowns.token_url,
    {
        self.well_knowns.token_url.clone()
    }

    /// The request that exchanges the authorization code `code` for tokens.
    pub fn token_request(&self, code: &str) -> (request: HttpRequest)
        ensures
            request@ == token_request_of(self@, code@),
    {
        let mut form: Vec<(String, String)> = Vec::new();
        form.push(form_field("grant_type", "authorization_code"));
        form.push(form_field("code", code));
        form.push(form_field("redirect_uri", self.redirect_url.as_str()));
        form.push(form_field("client_id", self.client_id.as_str()));
        form.push(form_field("client_secret", self.client_secret.as_str()));
        let request = HttpRequest {
            method: HttpMethod::Post,
            url: self.build_token_url(),
            bearer: None,
            form,
        };
        assert(request@.form =~= token_request_of(self@, code@).form);
        request
    }

    /// Judges the reply to a [`token_request`](OidcClient::token_request):
    /// the grant, or the error. A document that lacks a required field
    /// grants nothing.
    pub fn get_token(&self, reply: Result<HttpResponse, String>) -> (granted: Result<
        TokenEndpointResponse,
        OidcError,
    >)
        ensures
            match granted {
                Ok(response) => token_reply(reply_model(reply)) == Ok::<
                    TokenEndpointResponseModel,
                    OidcErrorModel,
                >(response@),
                Err(error) => token_reply(reply_model(reply)) == Err::<
                    TokenEndpointResponseModel,
                    OidcErrorModel,
                >(error@),
            },
    {
        TokenEndpointResponse::from_reply(reply)
    }

    /// The request that renews tokens by `refresh_token`.
    pub fn refresh_request(&self, refresh_token: &str) -> (request: HttpRequest)
        ensures
            request@ == refresh_request_of(self@, refresh_token@),
    {
        let mut form: Vec<(String, String)> = Vec::new();
        form.push(form_field("grant_type", "refresh_token"));
        form.push(form_field("refresh_token", refresh_token));
        form.push(form_field("client_id", self.client_id.as_str()));
        form.push(form_field("client_secret", self.client_secret.as_str()));
        let request = HttpRequest {
            method: HttpMethod::Post,
            url: self.build_token_url(),
            bearer: None,
            form,
        };
        assert(request@.form =~= refresh_request_of(self@, refresh_token@).form);
        request
    }

    /// Judges the reply to a [`refresh_request`](OidcClient::refresh_request),
    /// as [`get_token`](OidcClient::get_token) judges its own.
    pub fn refresh_token(&self, reply: Result<HttpResponse, String>) -> (granted: Result<
        TokenEndpointResponse,
        OidcError,
    >)
        ensures
            match granted {
                Ok(response) => token_reply(reply_model(reply)) == Ok::<
                    TokenEndpointResponseModel,
                    OidcErrorModel,
                >(response@),
                Err(error) => token_reply(reply_model(reply)) == Err::<
                    TokenEndpointResponseModel,
                    OidcErrorModel,
                >(error@),
            },
    {
        TokenEndpointResponse::from_reply(reply)
    }

    /// Turns an error of the flow into the failure that the caller reports:
    /// always `Err`, holding the error in words.
    pub fn handle_error(&self, error: OidcError) -> (reported: Result<(), String>)
        ensures
            reported is Err,
            reported->Err_0@ == error@.message(),
    {
        Err(error.message())
    }

    /// The request for the user's claims, authenticated by `access_token`.
    pub fn user_info_request(&self, access_token: &str) -> (request: HttpRequest)
        ensures
            request@ == user_info_request_of(self@, access_token@),
    {
        let request = HttpRequest {
            method: HttpMethod::Get,
            url: self.well_knowns.user_info_url.clone(),
            bearer: Some(access_token.to_owned()),
            form: Vec::new(),
        };
        assert(request@.form =~= Seq::empty());
        request
    }

    /// Judges the reply to a
    /// [`user_info_request`](OidcClient::user_info_request): the document as
    /// the provider sent it, or the error.
    pub fn get_user_info(&self, reply: Result<HttpResponse, String>) -> (claims: Result<
        Json,
        OidcError,
    >)
        ensures
            match claims {
                Ok(document) => json_reply(reply_model(reply)) == Ok::<JsonModel, OidcErrorModel>(
                    document@,
                ),
                Err(error) => json_reply(reply_model(reply)) == Err::<JsonModel, OidcErrorModel>(
                    error@,
                ),
            },
    {
        read_json_reply(reply)
    }
}

/// One of the four names that a discovery document must hold.
pub open spec fn is_endpoint_field(name: Seq<char>) -> bool {
    ||| name == "authorization_endpoint"@
    ||| name == "token_endpoint"@
    ||| name == "userinfo_endpoint"@
    ||| name == "jwks_uri"@
}

/// A discovery document that holds a string that is not empty for each of
/// the four endpoints resolves, and to exactly these four strings.
pub proof fn law_complete_document_resolves(
    document: JsonModel,
    authorization: Seq<char>,
    token: Seq<char>,
    user_info: Seq<char>,
    jwks: Seq<char>,
)
    requires
        document.text_member("authorization_endpoint"@) == Some(authorization),
        document.text_member("token_endpoint"@) == Some(token),
        document.text_member("userinfo_endpoint"@) == Some(user_info),
        document.text_member("jwks_uri"@) == Some(jwks),
        authorization.len() > 0,
        token.len() > 0,
        user_info.len() > 0,
        jwks.len() > 0,
    ensures
        well_knowns_of(document) == Ok::<WellKnownsModel, DiscoveryErrorModel>(
            WellKnownsModel {
                auth_url: authorization,
                token_url: token,
                user_info_url: user_info,
                jwks_url: jwks,
            },
        ),
{
}

/// A discovery document that gives every endpoint but one is refused, and the
/// error names that one: be it absent, no string, or the empty string.
pub proof fn law_missing_endpoint_is_named(document: JsonModel, missing: Seq<char>)
    requires
        is_endpoint_field(missing),
        endpoint_member(document, missing) is None,
        forall|other: Seq<char>|
            is_endpoint_field(other) && other != missing ==> endpoint_member(document, other)
                is Some,
    ensures
        well_knowns_of(document) == Err::<WellKnownsModel, DiscoveryErrorModel>(
            DiscoveryErrorModel::MissingField(missing),
        ),
{
    reveal_strlit("authorization_endpoint");
    reveal_strlit("token_endpoint");
    reveal_strlit("userinfo_endpoint");
    reveal_strlit("jwks_uri");
    assert(is_endpoint_field("authorization_endpoint"@));
    assert(is_endpoint_field("token_endpoint"@));
    assert(is_endpoint_field("userinfo_endpoint"@));
    assert(is_endpoint_field("jwks_uri"@));
}

/// Discovery validates the endpoints: whatever document resolves, none of
/// the four endpoints it resolves to is empty, and a document that holds the
/// empty string for an endpoint does not resolve.
pub proof fn law_resolved_endpoints_are_not_empty(document: JsonModel, name: Seq<char>)
    ensures
        well_knowns_of(document) matches Ok(endpoints) ==> endpoints.wf(),
        is_endpoint_field(name) && document.text_member(name) == Some(Seq::<char>::empty())
            ==> well_knowns_of(document) is Err,
{
}

/// A successful reply whose body is a complete discovery document resolves
/// to the four strings of that document, and one whose document lacks an
/// endpoint is refused as the document is.
pub proof fn law_discovery_goes_by_the_document(status: u16, body: Seq<u8>, document: JsonModel)
    requires
        is_success(status),
        json_document(body) == Some(document),
    ensures
        discovery_reply(ReplyModel::Answered { status, body: Some(body) }) == well_knowns_of(
            document,
        ),
{
}

/// A token document is granted exactly if it holds all three required
/// fields, and a refused one grants nothing: there is no partial grant.
pub proof fn law_grant_needs_every_required_field(document: JsonModel)
    ensures
        token_response_of(document) is Ok <==> {
            &&& document.text_member("access_token"@) is Some
            &&& document.text_member("token_type"@) is Some
            &&& document.unsigned_member("expires_in"@) is Some
        },
{
}

/// A token document without `access_token` is refused with that name,
/// whatever else it holds, and so is a successful reply that delivers it.
pub proof fn law_missing_access_token_is_named(status: u16, body: Seq<u8>, document: JsonModel)
    requires
        document.text_member("access_token"@) is None,
    ensures
        token_response_of(document) == Err::<TokenEndpointResponseModel, OidcErrorModel>(
            OidcErrorModel::MissingField("access_token"@),
        ),
        is_success(status) && json_document(body) == Some(document) ==> token_reply(
            ReplyModel::Answered { status, body: Some(body) },
        ) == Err::<TokenEndpointResponseModel, OidcErrorModel>(
            OidcErrorModel::MissingField("access_token"@),
        ),
{
}

/// No scope parts the query it is written into.
pub open spec fn scopes_do_not_part(scope: Seq<Seq<char>>) -> bool {
    forall|i: int| 0 <= i < scope.len() ==> does_not_part(#[trigger] scope[i])
}

/// Every scope is read as it was written.
pub open spec fn scopes_read_as_written(scope: Seq<Seq<char>>) -> bool {
    forall|i: int| 0 <= i < scope.len() ==> reads_as_written(#[trigger] scope[i])
}

/// The first `count` fields of the authorization query do not part, and the
/// last of them has a name of its own, where the values among them do not
/// part.
proof fn lemma_authorization_front(client: OidcClientModel, state: Seq<char>, count: int)
    requires
        1 <= count <= 6,
        count >= 2 ==> does_not_part(client.client_id),
        count >= 3 ==> does_not_part(client.redirect_url),
        count >= 4 ==> scopes_do_not_part(client.scope),
        count >= 5 ==> does_not_part(state),
    ensures
        fields_do_not_part(authorization_fields(client, state).take(count)),
        forall|j: int|
            0 <= j < count - 1 ==> (#[trigger] authorization_fields(client, state)[j]).0
                != authorization_fields(client, state)[count - 1].0,
{
    let fields = authorization_fields(client, state);
    let front = fields.take(count);
    reveal_strlit("response_type");
    reveal_strlit("client_id");
    reveal_strlit("redirect_uri");
    reveal_strlit("scope");
    reveal_strlit("state");
    reveal_strlit("access_type");
    reveal_strlit("code");
    reveal_strlit("offline");
    lemma_occurs("response_type"@, '=');
    lemma_occurs("response_type"@, '&');
    lemma_occurs("response_type"@, '#');
    lemma_occurs("client_id"@, '=');
    lemma_occurs("client_id"@, '&');
    lemma_occurs("client_id"@, '#');
    lemma_occurs("redirect_uri"@, '=');
    lemma_occurs("redirect_uri"@, '&');
    lemma_occurs("redirect_uri"@, '#');
    lemma_occurs("scope"@, '=');
    lemma_occurs("scope"@, '&');
    lemma_occurs("scope"@, '#');
    lemma_occurs("state"@, '=');
    lemma_occurs("state"@, '&');
    lemma_occurs("state"@, '#');
    lemma_occurs("access_type"@, '=');
    lemma_occurs("access_type"@, '&');
    lemma_occurs("access_type"@, '#');
    lemma_occurs("code"@, '&');
    lemma_occurs("code"@, '#');
    lemma_occurs("offline"@, '&');
    lemma_occurs("offline"@, '#');
    if count >= 4 {
        lemma_occurs(seq![' '], '&');
        lemma_occurs(seq![' '], '#');
        lemma_join_is_free(client.scope, seq![' '], '&');
        lemma_join_is_free(client.scope, seq![' '], '#');
    }
    assert forall|i: int| 0 <= i < front.len() implies {
        &&& !occurs((#[trigger] front[i]).0, '=')
        &&& !occurs(front[i].0, '&')
        &&& !occurs(front[i].0, '#')
        &&& does_not_part(front[i].1)
    } by {
        assert(front[i] == fields[i]);
    }
    assert("scope"@[1] != "state"@[1]);
}

/// The authorization URL read back, parameter by parameter. Each parameter
/// is read as it was written under the premises that it needs, and no
/// others: the endpoint is plain, the values written before it do not part,
/// and its own value reads as written. So `response_type` is `code` behind
/// any plain endpoint; `client_id`, `redirect_uri` and `scope` are the
/// client's values, character for character, whatever the state holds; and
/// `state` and `access_type` are read where nothing before them parts. Where
/// nothing parts at all, the query holds the six fields and no others.
/// Where there is a scope and no scope holds a space, the `scope` value
/// parts at spaces into the client's scopes.
pub proof fn law_authorization_url_round_trips(client: OidcClientModel, state: Seq<char>)
    ensures
        endpoint_is_plain(client.well_knowns.auth_url) ==> url_parameter(
            authorization_url(client, state),
            "response_type"@,
        ) == Some("code"@),
        endpoint_is_plain(client.well_knowns.auth_url) && reads_as_written(client.client_id)
            ==> url_parameter(authorization_url(client, state), "client_id"@) == Some(
            client.client_id,
        ),
        endpoint_is_plain(client.well_knowns.auth_url) && does_not_part(client.client_id)
            && reads_as_written(client.redirect_url) ==> url_parameter(
            authorization_url(client, state),
            "redirect_uri"@,
        ) == Some(client.redirect_url),
        endpoint_is_plain(client.well_knowns.auth_url) && does_not_part(client.client_id)
            && does_not_part(client.redirect_url) && scopes_read_as_written(client.scope)
            ==> url_parameter(authorization_url(client, state), "scope"@) == Some(
            join(client.scope, seq![' ']),
        ),
        endpoint_is_plain(client.well_knowns.auth_url) && does_not_part(client.client_id)
            && does_not_part(client.redirect_url) && scopes_do_not_part(client.scope)
            && reads_as_written(state) ==> url_parameter(
            authorization_url(client, state),
            "state"@,
        ) == Some(state),
        endpoint_is_plain(client.well_knowns.auth_url) && does_not_part(client.client_id)
            && does_not_part(client.redirect_url) && scopes_do_not_part(client.scope)
            && does_not_part(state) ==> {
            &&& url_parameter(authorization_url(client, state), "access_type"@) == Some(
                "offline"@,
            )
            &&& query_fields(url_query(authorization_url(client, state)))
                == authorization_fields(client, state)
        },
        client.scope.len() > 0 && (forall|i: int|
            0 <= i < client.scope.len() ==> !occurs(#[trigger] client.scope[i], ' '))
            ==> split_on(join(client.scope, seq![' ']), ' ') == client.scope,
{
    let fields = authorization_fields(client, state);
    let endpoint = client.well_knowns.auth_url;
    let url = authorization_url(client, state);
    if endpoint_is_plain(endpoint) {
        lemma_authorization_front(client, state, 1);
        law_parameter_is_read(endpoint, fields, 0);
        if does_not_part(client.client_id) {
            lemma_authorization_front(client, state, 2);
            law_parameter_is_read(endpoint, fields, 1);
            if does_not_part(client.redirect_url) {
                lemma_authorization_front(client, state, 3);
                law_parameter_is_read(endpoint, fields, 2);
                if scopes_do_not_part(client.scope) {
                    lemma_authorization_front(client, state, 4);
                    law_parameter_is_read(endpoint, fields, 3);
                    if does_not_part(state) {
                        lemma_authorization_front(client, state, 5);
                        law_parameter_is_read(endpoint, fields, 4);
                        lemma_authorization_front(client, state, 6);
                        law_parameter_is_read(endpoint, fields, 5);
                        // Nothing parts, so the query holds the six fields and no others.
                        assert(fields.take(6) =~= fields);
                        law_query_round_trip(fields);
                        lemma_query_is_free(fields, '#');
                        let query = query_string(fields);
                        lemma_occurs(seq!['?'], '#');
                        lemma_occurs_concat(endpoint, seq!['?'], '#');
                        lemma_occurs_concat(endpoint + seq!['?'], query, '#');
                        lemma_first_index(url, '#');
                        assert(without_fragment(url) =~= url);
                        lemma_first_index(endpoint, '?');
                        assert forall|j: int| 0 <= j < endpoint.len() implies url[j] != '?' by {
                            assert(url[j] == endpoint[j]);
                        }
                        assert(url[endpoint.len() as int] == '?');
                        lemma_first_index_is(url, '?', endpoint.len() as int);
                        assert(url.skip(endpoint.len() as int + 1) =~= query);
                        assert(url_query(url) == query);
                    }
                }
            }
        }
    }
    if client.scope.len() > 0 && (forall|i: int|
        0 <= i < client.scope.len() ==> !occurs(#[trigger] client.scope[i], ' ')) {
        lemma_split_join(client.scope, ' ');
    }
}

} // verus!
