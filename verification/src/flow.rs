//! The flow from a made client to tokens and claims, one step at a time.
//!
//! A [`Flow`] tells its driver what to do next, and the driver tells the flow
//! what came of it. The driver opens browsers, serves the redirect and sends
//! requests; the flow decides the order, what a failure ends and what it does
//! not, and what each request holds.

use crate::http::{reply_model, HttpRequest, HttpResponse};
use crate::json::{Json, JsonModel};
use crate::oidc::callback_listener::ListenerError;
use crate::oidc::jwt_client::{decoded_jwt, JwtDecodeError};
use crate::oidc::oidc_client::{
    authorization_url, is_state_token, json_reply, refresh_request_of, token_reply,
    token_request_of, user_info_request_of, OidcClient, OidcClientModel, OidcError,
    OidcErrorModel, TokenEndpointResponse,
};
use vstd::prelude::*;
use vstd::string::*;
use vstd::utf8::encode_utf8;

verus! {

/// The two ways to tokens. The caller picks one; neither stands in for the
/// other where it fails.
#[derive(Clone, Debug, PartialEq, Eq)]
pub enum Grant {
    /// Through the browser: authorize, receive a code, exchange it.
    AuthorizationCode,
    /// By a refresh token from an earlier grant.
    RefreshToken(String),
}

/// How far a flow has come.
#[derive(Clone, Copy, Debug, PartialEq, Eq, Structural)]
pub enum Stage {
    /// The client is made and nothing was begun.
    Discovered,
    /// The authorization URL is built and out for a browser.
    AuthUrlBuilt,
    /// The listener is waiting for the redirect.
    AwaitingCallback,
    /// The code is out for exchange and the grant is awaited.
    Exchanging,
    /// The refresh token is out and the grant is awaited.
    Refreshing,
    /// The code was exchanged for tokens; the user's claims are awaited.
    Exchanged,
    /// The tokens were renewed; the user's claims are awaited.
    Refreshed,
    /// The flow has ended with tokens, and with claims or the reason for
    /// having none.
    UserInfoFetched,
    /// The flow has ended without tokens.
    Failed,
}

/// Why a flow ended without tokens.
#[derive(Clone, Debug, PartialEq, Eq)]
pub enum FlowError {
    /// The wait for the redirect ended without a code.
    Listener(ListenerError),
    /// The token endpoint did not grant.
    Oidc(OidcError),
    /// The driver reported something that the flow was not waiting for.
    OutOfTurn,
}

impl FlowError {
    /// The error in words.
    pub open spec fn spec_message(self) -> Seq<char> {
        match self {
            FlowError::Listener(error) => error.spec_message(),
            FlowError::Oidc(error) => error@.message(),
            FlowError::OutOfTurn => "The flow was driven out of turn"@,
        }
    }

    /// The error in words.
    pub fn message(&self) -> (text: String)
        ensures
            text@ == self.spec_message(),
    {
        match self {
            FlowError::Listener(error) => error.message(),
            FlowError::Oidc(error) => error.message(),
            FlowError::OutOfTurn => "The flow was driven out of turn".to_owned(),
        }
    }
}

/// What the driver is to do next. Each step holds what there is to show at
/// this point and what to act on.
#[derive(Debug, PartialEq, Eq)]
pub enum Step {
    /// Show the URL and open it in a browser, then report whether one opened
    /// ([`Flow::browser_launched`]).
    OpenBrowser { url: String },
    /// Serve the redirect until the listener stops, then report what it
    /// received ([`Flow::callback_received`]).
    AwaitCallback { browser_opened: bool },
    /// Show the code and send the request, then report the reply
    /// ([`Flow::reply_received`]).
    ExchangeCode { code: String, request: HttpRequest },
    /// Send the request, then report the reply ([`Flow::reply_received`]).
    RenewTokens { request: HttpRequest },
    /// Show the grant and what its identity token says, send the request,
    /// then report the reply ([`Flow::reply_received`]).
    FetchUserInfo {
        granted: TokenEndpointResponse,
        id_token: Option<Result<(Json, Json), JwtDecodeError>>,
        request: HttpRequest,
    },
    /// The flow has ended with tokens. Show the claims, or that there are none.
    Done { user_info: Result<Json, OidcError> },
    /// The flow has ended without tokens.
    Failed(FlowError),
}

/// What a flow is told, as far as the stage depends on it.
pub enum Report {
    /// The grant to begin by: by refresh token, or by code.
    Begun { by_refresh: bool },
    /// An attempt to open a browser, successful or not.
    BrowserLaunched,
    /// What the listener received: a code, or none.
    CallbackReceived { code: bool },
    /// A reply; `granted` says whether it amounts to a grant.
    ReplyReceived { granted: bool },
}

/// The stage after `report` at `stage`. A report that the stage was not
/// waiting for ends the flow.
pub open spec fn next_stage(stage: Stage, report: Report) -> Stage {
    match (stage, report) {
        (Stage::Discovered, Report::Begun { by_refresh }) => if by_refresh {
            Stage::Refreshing
        } else {
            Stage::AuthUrlBuilt
        },
        (Stage::AuthUrlBuilt, Report::BrowserLaunched) => Stage::AwaitingCallback,
        (Stage::AwaitingCallback, Report::CallbackReceived { code }) => if code {
            Stage::Exchanging
        } else {
            Stage::Failed
        },
        (Stage::Exchanging, Report::ReplyReceived { granted }) => if granted {
            Stage::Exchanged
        } else {
            Stage::Failed
        },
        (Stage::Refreshing, Report::ReplyReceived { granted }) => if granted {
            Stage::Refreshed
        } else {
            Stage::Failed
        },
        (Stage::Exchanged, Report::ReplyReceived { .. }) => Stage::UserInfoFetched,
        (Stage::Refreshed, Report::ReplyReceived { .. }) => Stage::UserInfoFetched,
        _ => Stage::Failed,
    }
}

/// A stage of the way through the browser.
pub open spec fn is_browser_stage(stage: Stage) -> bool {
    stage is AuthUrlBuilt || stage is AwaitingCallback || stage is Exchanging || stage is Exchanged
}

/// A stage at which the flow has ended.
pub open spec fn is_final_stage(stage: Stage) -> bool {
    stage is UserInfoFetched || stage is Failed
}

/// The stage after `reports`, in order.
pub open spec fn stage_after(stage: Stage, reports: Seq<Report>) -> Stage
    decreases reports.len(),
{
    if reports.len() == 0 {
        stage
    } else {
        stage_after(next_stage(stage, reports[0]), reports.drop_first())
    }
}

/// What a reply that brings a grant makes of the identity token in it.
pub open spec fn id_token_matches(
    token: Option<Seq<char>>,
    read: Option<Result<(Json, Json), JwtDecodeError>>,
) -> bool {
    match token {
        None => read is None,
        Some(text) => read is Some && match read->0 {
            Ok((header, payload)) => decoded_jwt(encode_utf8(text)) == Ok::<
                (JsonModel, JsonModel),
                JwtDecodeError,
            >((header@, payload@)),
            Err(error) => decoded_jwt(encode_utf8(text)) == Err::<
                (JsonModel, JsonModel),
                JwtDecodeError,
            >(error),
        },
    }
}

/// A flow of one client.
#[derive(Debug)]
pub struct Flow {
    stage: Stage,
}

impl Flow {
    /// How far the flow has come.
    pub closed spec fn spec_stage(&self) -> Stage {
        self.stage
    }

    /// A flow at which nothing was begun.
    pub fn new() -> (flow: Flow)
        ensures
            flow.spec_stage() == Stage::Discovered,
    {
        Flow { stage: Stage::Discovered }
    }

    /// How far the flow has come.
    #[verifier::when_used_as_spec(spec_stage)]
    pub fn stage(&self) -> (stage: Stage)
        ensures
            stage == self.spec_stage(),
    {
        self.stage
    }

    /// Begins the flow by `grant`. By code, the authorization URL is built
    /// (see [`OidcClient::build_authorization_url`]) and handed out for a
    /// browser; by refresh token, the renewal goes out at once and no
    /// browser is asked for. A flow can be begun once.
    pub fn begin(&mut self, client: &mut OidcClient, grant: Grant) -> (step: Step)
        ensures
            final(self).stage() == next_stage(
                old(self).stage(),
                Report::Begun { by_refresh: grant is RefreshToken },
            ),
            old(self).stage() != Stage::Discovered ==> {
                &&& step == Step::Failed(FlowError::OutOfTurn)
                &&& final(self).stage() == Stage::Failed
                &&& final(client)@ == old(client)@
            },
            old(self).stage() == Stage::Discovered ==> match grant {
                Grant::AuthorizationCode => {
                    &&& final(self).stage() == Stage::AuthUrlBuilt
                    &&& step matches Step::OpenBrowser { url }
                    &&& final(client)@.state is Some
                    &&& url@ == authorization_url(old(client)@, final(client)@.state->0)
                    &&& final(client)@ == (OidcClientModel {
                        state: final(client)@.state,
                        ..old(client)@
                    })
                    &&& match old(client)@.requested_state {
                        Some(asked) => final(client)@.state == Some(asked),
                        None => is_state_token(final(client)@.state->0),
                    }
                },
                Grant::RefreshToken(refresh_token) => {
                    &&& final(self).stage() == Stage::Refreshing
                    &&& step matches Step::RenewTokens { request }
                    &&& request@ == refresh_request_of(old(client)@, refresh_token@)
                    &&& final(client)@ == old(client)@
                },
            },
    {
        if self.stage != Stage::Discovered {
            self.stage = Stage::Failed;
            return Step::Failed(FlowError::OutOfTurn);
        }
        match grant {
            Grant::AuthorizationCode => {
                match client.build_authorization_url() {
                    Ok(url) => {
                        self.stage = Stage::AuthUrlBuilt;
                        Step::OpenBrowser { url }
                    },
                    Err(error) => {
                        self.stage = Stage::Failed;
                        Step::Failed(FlowError::Oidc(error))
                    },
                }
            },
            Grant::RefreshToken(refresh_token) => {
                self.stage = Stage::Refreshing;
                Step::RenewTokens { request: client.refresh_request(refresh_token.as_str()) }
            },
        }
    }

    /// Takes the report on the browser. Whether one opened or not, the flow
    /// goes on to wait for the redirect: the URL was shown, and a person can
    /// open it by hand.
    pub fn browser_launched(&mut self, opened: bool) -> (step: Step)
        ensures
            old(self).stage() == Stage::AuthUrlBuilt ==> {
                &&& step == (Step::AwaitCallback { browser_opened: opened })
                &&& final(self).stage() == Stage::AwaitingCallback
            },
            old(self).stage() != Stage::AuthUrlBuilt ==> {
                &&& step == Step::Failed(FlowError::OutOfTurn)
                &&& final(self).stage() == Stage::Failed
            },
            final(self).stage() == next_stage(old(self).stage(), Report::BrowserLaunched),
    {
        if self.stage != Stage::AuthUrlBuilt {
            self.stage = Stage::Failed;
            return Step::Failed(FlowError::OutOfTurn);
        }
        self.stage = Stage::AwaitingCallback;
        Step::AwaitCallback { browser_opened: opened }
    }

    /// Takes what the listener received. A code goes out for exchange; the
    /// lack of one ends the flow.
    pub fn callback_received(
        &mut self,
        client: &OidcClient,
        received: Result<String, ListenerError>,
    ) -> (step: Step)
        ensures
            old(self).stage() == Stage::AwaitingCallback ==> match received {
                Ok(code) => {
                    &&& final(self).stage() == Stage::Exchanging
                    &&& step matches Step::ExchangeCode { code: shown, request }
                    &&& shown@ == code@
                    &&& request@ == token_request_of(client@, code@)
                },
                Err(error) => {
                    &&& final(self).stage() == Stage::Failed
                    &&& step == Step::Failed(FlowError::Listener(error))
                },
            },
            old(self).stage() != Stage::AwaitingCallback ==> {
                &&& step == Step::Failed(FlowError::OutOfTurn)
                &&& final(self).stage() == Stage::Failed
            },
            final(self).stage() == next_stage(
                old(self).stage(),
                Report::CallbackReceived { code: received is Ok },
            ),
    {
        if self.stage != Stage::AwaitingCallback {
            self.stage = Stage::Failed;
            return Step::Failed(FlowError::OutOfTurn);
        }
        match received {
            Ok(code) => {
                self.stage = Stage::Exchanging;
                let request = client.token_request(code.as_str());
                Step::ExchangeCode { code, request }
            },
            Err(error) => {
                self.stage = Stage::Failed;
                Step::Failed(FlowError::Listener(error))
            },
        }
    }

    /// Takes the reply to the request sent last. While a grant is awaited,
    /// a grant has the user's claims asked for, and anything else ends the
    /// flow with the error. While claims are awaited, the flow ends with
    /// tokens whatever the reply: claims that cannot be had are reported, and
    /// the grant stands.
    pub fn reply_received(&mut self, client: &OidcClient, reply: Result<HttpResponse, String>) -> (step:
        Step)
        ensures
            old(self).stage() == Stage::Exchanging || old(self).stage() == Stage::Refreshing
                ==> match token_reply(reply_model(reply)) {
                Ok(grant) => {
                    &&& final(self).stage() == (if old(self).stage() is Exchanging {
                        Stage::Exchanged
                    } else {
                        Stage::Refreshed
                    })
                    &&& step matches Step::FetchUserInfo { granted, id_token, request }
                    &&& granted@ == grant
                    &&& id_token_matches(grant.id_token, id_token)
                    &&& request@ == user_info_request_of(client@, grant.access_token)
                },
                Err(error) => {
                    &&& final(self).stage() == Stage::Failed
                    &&& step matches Step::Failed(FlowError::Oidc(reported))
                    &&& reported@ == error
                },
            },
            old(self).stage() == Stage::Exchanged || old(self).stage() == Stage::Refreshed ==> {
                &&& final(self).stage() == Stage::UserInfoFetched
                &&& step matches Step::Done { user_info }
                &&& match user_info {
                    Ok(claims) => json_reply(reply_model(reply)) == Ok::<
                        JsonModel,
                        OidcErrorModel,
                    >(claims@),
                    Err(error) => json_reply(reply_model(reply)) == Err::<
                        JsonModel,
                        OidcErrorModel,
                    >(error@),
                }
            },
            !(old(self).stage() is Exchanging || old(self).stage() is Refreshing || old(
                self,
            ).stage() is Exchanged || old(self).stage() is Refreshed) ==> {
                &&& step == Step::Failed(FlowError::OutOfTurn)
                &&& final(self).stage() == Stage::Failed
            },
            final(self).stage() == next_stage(
                old(self).stage(),
                Report::ReplyReceived { granted: token_reply(reply_model(reply)) is Ok },
            ),
    {
        match self.stage {
            Stage::Exchanging | Stage::Refreshing => {
                let granted = if self.stage == Stage::Exchanging {
                    client.get_token(reply)
                } else {
                    client.refresh_token(reply)
                };
                match granted {
                    Ok(granted) => {
                        self.stage = if self.stage == Stage::Exchanging {
                            Stage::Exchanged
                        } else {
                            Stage::Refreshed
                        };
                        let id_token = granted.decode_id_token();
                        let request = client.user_info_request(granted.access_token.as_str());
                        Step::FetchUserInfo { granted, id_token, request }
                    },
                    Err(error) => {
                        self.stage = Stage::Failed;
                        Step::Failed(FlowError::Oidc(error))
                    },
                }
            },
            Stage::Exchanged | Stage::Refreshed => {
                self.stage = Stage::UserInfoFetched;
                Step::Done { user_info: client.get_user_info(reply) }
            },
            _ => {
                self.stage = Stage::Failed;
                Step::Failed(FlowError::OutOfTurn)
            },
        }
    }
}

/// A flow that was begun by refresh token never comes to a stage of the way
/// through the browser, whatever is reported to it: the two ways to tokens do
/// not cross.
pub proof fn law_refresh_never_turns_to_the_browser(reports: Seq<Report>)
    ensures
        !is_browser_stage(
            stage_after(Stage::Discovered, seq![Report::Begun { by_refresh: true }] + reports),
        ),
{
    let all = seq![Report::Begun { by_refresh: true }] + reports;
    assert(all.drop_first() =~= reports);
    assert(stage_after(Stage::Discovered, all) == stage_after(Stage::Refreshing, reports));
    lemma_off_the_browser_way(Stage::Refreshing, reports);
}

proof fn lemma_off_the_browser_way(stage: Stage, reports: Seq<Report>)
    requires
        stage is Refreshing || stage is Refreshed || is_final_stage(stage),
    ensures
        !is_browser_stage(stage_after(stage, reports)),
    decreases reports.len(),
{
    if reports.len() > 0 {
        lemma_off_the_browser_way(next_stage(stage, reports[0]), reports.drop_first());
    }
}

/// Once tokens are granted, no reply takes them back: whatever comes of the
/// request for the user's claims, the flow ends with tokens.
pub proof fn law_claims_never_fail_the_flow(stage: Stage, granted: bool)
    requires
        stage is Exchanged || stage is Refreshed,
    ensures
        next_stage(stage, Report::ReplyReceived { granted }) == Stage::UserInfoFetched,
{
}

/// A browser that did not open does not end the flow: the wait for the
/// redirect begins all the same.
pub proof fn law_browser_is_not_waited_for()
    ensures
        next_stage(Stage::AuthUrlBuilt, Report::BrowserLaunched) == Stage::AwaitingCallback,
{
}

/// A flow that has ended does not come back: any report to it leaves it
/// failed, and none leads on to tokens.
pub proof fn law_ended_flows_stay_ended(stage: Stage, reports: Seq<Report>)
    requires
        is_final_stage(stage),
        reports.len() > 0,
    ensures
        stage_after(stage, reports) == Stage::Failed,
    decreases reports.len(),
{
    let rest = reports.drop_first();
    assert(next_stage(stage, reports[0]) == Stage::Failed);
    assert(stage_after(stage, reports) == stage_after(Stage::Failed, rest));
    if rest.len() > 0 {
        law_ended_flows_stay_ended(Stage::Failed, rest);
    }
}

} // verus!
