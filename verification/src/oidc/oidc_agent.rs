//! The relying party in its plainer form.
//!
//! An [`OidcAgent`] keeps the state it was given and never draws one: it is
//! not changed by building an authorization URL. The URL itself, discovery,
//! the token request and the judging of replies are those of
//! [`OidcClient`](crate::oidc::oidc_client::OidcClient).

use crate::http::{form_view, reply_model, HttpMethod, HttpRequest, HttpRequestModel, HttpResponse};
use crate::oidc::oidc_client::{
    discovery_reply, form_post, optional_text, token_reply, DiscoveryError, DiscoveryErrorModel,
    OidcError, OidcErrorModel, TokenEndpointResponseModel, WellKnownsModel,
};
pub use crate::oidc::oidc_client::{TokenEndpointResponse, WellKnowns};
use crate::query::{query_string, write_query};
use crate::text::{join, join_strings, texts};
use vstd::prelude::*;
use vstd::string::*;

verus! {

/// A relying party with a state of the caller's choosing.
#[derive(Clone, Debug)]
pub struct OidcAgent {
    issuer: String,
    client_id: String,
    client_secret: String,
    redirect_url: String,
    scope: Vec<String>,
    well_knowns: WellKnowns,
    state: Option<String>,
}

/// The mathematical value of an [`OidcAgent`].
pub struct OidcAgentModel {
    pub issuer: Seq<char>,
    pub client_id: Seq<char>,
    pub client_secret: Seq<char>,
    pub redirect_url: Seq<char>,
    pub scope: Seq<Seq<char>>,
    pub well_knowns: WellKnownsModel,
    pub state: Option<Seq<char>>,
}

impl View for OidcAgent {
    type V = OidcAgentModel;

    closed spec fn view(&self) -> OidcAgentModel {
        OidcAgentModel {
            issuer: self.issuer@,
            client_id: self.client_id@,
            client_secret: self.client_secret@,
            redirect_url: self.redirect_url@,
            scope: texts(self.scope@),
            well_knowns: self.well_knowns@,
            state: optional_text(self.state),
        }
    }
}

/// The fields of the agent's authorization query: `response_type=code`, the
/// client's id, its redirect URI, its scopes joined by single spaces, the
/// state, which is empty where the agent has none, and
/// `access_type=offline`.
pub open spec fn agent_authorization_fields(agent: OidcAgentModel) -> Seq<(Seq<char>, Seq<char>)> {
    seq![
        ("response_type"@, "code"@),
        ("client_id"@, agent.client_id),
        ("redirect_uri"@, agent.redirect_url),
        ("scope"@, join(agent.scope, seq![' '])),
        (
            "state"@,
            match agent.state {
                Some(state) => state,
                None => Seq::empty(),
            },
        ),
        ("access_type"@, "offline"@),
    ]
}

/// The agent's authorization URL: the authorization endpoint, `?`, and the
/// authorization query, every value written out as it is.
pub open spec fn agent_authorization_url(agent: OidcAgentModel) -> Seq<char> {
    agent.well_knowns.auth_url + seq!['?'] + query_string(agent_authorization_fields(agent))
}

/// The request that exchanges `code` for tokens.
pub open spec fn agent_token_request_of(agent: OidcAgentModel, code: Seq<char>) -> HttpRequestModel {
    form_post(
        agent.well_knowns.token_url,
        seq![
            ("grant_type"@, "authorization_code"@),
            ("code"@, code),
            ("redirect_uri"@, agent.redirect_url),
            ("client_id"@, agent.client_id),
            ("client_secret"@, agent.client_secret),
        ],
    )
}

fn field(name: &str, value: &str) -> (field: (String, String))
    ensures
        field.0@ == name@,
        field.1@ == value@,
{
    (name.to_owned(), value.to_owned())
}

impl OidcAgent {
    /// Makes an agent from its configuration and from the reply to the
    /// discovery request of `issuer` (see [`WellKnowns::resolve_request`]).
    pub fn new(
        issuer: &str,
        client_id: &str,
        client_secret: &str,
        redirect_url: &str,
        scope: Vec<String>,
        state: Option<String>,
        discovery: Result<HttpResponse, String>,
    ) -> (made: Result<OidcAgent, DiscoveryError>)
        ensures
            match made {
                Ok(agent) => {
                    &&& discovery_reply(reply_model(discovery)) == Ok::<
                        WellKnownsModel,
                        DiscoveryErrorModel,
                    >(agent@.well_knowns)
                    &&& agent@.well_knowns.wf()
                    &&& agent@.issuer == issuer@
                    &&& agent@.client_id == client_id@
                    &&& agent@.client_secret == client_secret@
                    &&& agent@.redirect_url == redirect_url@
                    &&& agent@.scope == texts(scope@)
                    &&& agent@.state == optional_text(state)
                },
                Err(error) => discovery_reply(reply_model(discovery)) == Err::<
                    WellKnownsModel,
                    DiscoveryErrorModel,
                >(error@),
            },
    {
        match WellKnowns::resolve(discovery) {
            Ok(well_knowns) => Ok(
                OidcAgent {
                    issuer: issuer.to_owned(),
                    client_id: client_id.to_owned(),
                    client_secret: client_secret.to_owned(),
                    redirect_url: redirect_url.to_owned(),
                    scope,
                    well_knowns,
                    state,
                },
            ),
            Err(error) => Err(error),
        }
    }

    /// The endpoints discovered when the agent was made.
    pub fn get_well_knowns(&self) -> (endpoints: &WellKnowns)
        ensures
            endpoints@ == self@.well_knowns,
    {
        &self.well_knowns
    }

    /// Builds the authorization URL to open in a browser. The agent is left
    /// as it is, so every call gives the same URL.
    pub fn build_authorization_url(&self) -> (url: String)
        ensures
            url@ == agent_authorization_url(self@),
    {
        proof {
            reveal_strlit(" ");
            reveal_strlit("?");
            reveal_strlit("");
        }
        assert(" "@ =~= seq![' ']);
        assert("?"@ =~= seq!['?']);
        assert(""@ =~= Seq::<char>::empty());
        let scope = join_strings(&self.scope, " ");
        let state = match &self.state {
            Some(state) => state.as_str(),
            None => "",
        };
        let mut fields: Vec<(String, String)> = Vec::new();
        fields.push(field("response_type", "code"));
        fields.push(field("client_id", self.client_id.as_str()));
        fields.push(field("redirect_uri", self.redirect_url.as_str()));
        fields.push(field("scope", scope.as_str()));
        fields.push(field("state", state));
        fields.push(field("access_type", "offline"));
        assert(form_view(fields@) =~= agent_authorization_fields(self@));
        let query = write_query(&fields);
        let mut url = self.well_knowns.auth_url.clone();
        url.append("?");
        url.append(query.as_str());
        url
    }

    /// The URL of the token endpoint.
    pub fn build_token_url(&self) -> (url: String)
        ensures
            url@ == self@.well_knowns.token_url,
    {
        self.well_knowns.token_url.clone()
    }

    /// The request that exchanges the authorization code `code` for tokens.
    pub fn token_request(&self, code: &str) -> (request: HttpRequest)
        ensures
            request@ == agent_token_request_of(self@, code@),
    {
        let mut form: Vec<(String, String)> = Vec::new();
        form.push(field("grant_type", "authorization_code"));
        form.push(field("code", code));
        form.push(field("redirect_uri", self.redirect_url.as_str()));
        form.push(field("client_id", self.client_id.as_str()));
        form.push(field("client_secret", self.client_secret.as_str()));
        let request = HttpRequest {
            method: HttpMethod::Post,
            url: self.build_token_url(),
            bearer: None,
            form,
        };
        assert(request@.form =~= agent_token_request_of(self@, code@).form);
        request
    }

    /// Judges the reply to a [`token_request`](OidcAgent::token_request):
    /// the grant, or the error. An identity token in the grant is carried
    /// along unread; [`TokenEndpointResponse::decode_id_token`] reads it.
    pub fn get_token(&self, reply: Result<HttpResponse, String>) -> (granted: Result<
        TokenEndpointResponse,
        OidcError,
    >)
        ensures
            match granted {
                Ok(response) => token_reply(reply_model(reply)) == Ok::<
                    TokenEndpointResponseModel,
                    OidcErrorModel,
                >(response@),
                Err(error) => token_reply(reply_model(reply)) == Err::<
                    TokenEndpointResponseModel,
                    OidcErrorModel,
                >(error@),
            },
    {
        TokenEndpointResponse::from_reply(reply)
    }

    /// Turns an error of the flow into the failure that the caller reports:
    /// always `Err`, holding the error in words.
    pub fn handle_error(&self, error: OidcError) -> (reported: Result<(), String>)
        ensures
            reported is Err,
            reported->Err_0@ == error@.message(),
    {
        Err(error.message())
    }
}

} // verus!
