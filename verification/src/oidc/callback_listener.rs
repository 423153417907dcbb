//! The listener for the redirect that ends the browser's part of the flow.
//!
//! A server on the redirect URL hands the query of every request to a
//! [`CallbackListener`], and does what the [`CallbackReply`] says: answer the
//! browser, hand the code to the caller who waits for it, stop serving. The
//! listener sees to it that one code at most is handed over and the server is
//! told to stop once at most, however many requests arrive.

use crate::http::{field_value, find_field, form_view};
use vstd::prelude::*;
use vstd::string::*;

verus! {

/// Why waiting for the redirect ended without a code.
#[derive(Clone, Copy, Debug, PartialEq, Eq)]
pub enum ListenerError {
    /// The listener stopped before any request brought a code.
    NoCodeReceived,
}

impl ListenerError {
    /// The error in words.
    pub open spec fn spec_message(self) -> Seq<char> {
        match self {
            ListenerError::NoCodeReceived => "No authorization code received: channel closed"@,
        }
    }

    /// The error in words.
    pub fn message(&self) -> (text: String)
        ensures
            text@ == self.spec_message(),
    {
        match self {
            ListenerError::NoCodeReceived =>
                "No authorization code received: channel closed".to_owned(),
        }
    }
}

/// What the server does about one request.
#[derive(Clone, Debug, PartialEq, Eq)]
pub struct CallbackReply {
    /// The code to hand to the waiting caller, where this request is the one
    /// that brought it.
    pub deliver: Option<String>,
    /// Whether the server is to stop serving once this request is answered.
    pub shut_down: bool,
    /// The page to answer the browser with.
    pub page: String,
}

/// The mathematical value of a [`CallbackReply`].
pub struct CallbackReplyModel {
    pub deliver: Option<Seq<char>>,
    pub shut_down: bool,
    pub page: Seq<char>,
}

impl View for CallbackReply {
    type V = CallbackReplyModel;

    open spec fn view(&self) -> CallbackReplyModel {
        CallbackReplyModel {
            deliver: match self.deliver {
                Some(code) => Some(code@),
                None => None,
            },
            shut_down: self.shut_down,
            page: self.page@,
        }
    }
}

/// The two single-use signals of one authorization attempt: the code for the
/// waiting caller, and the order for the server to stop.
#[derive(Debug)]
pub struct CallbackListener {
    delivered: Option<String>,
    stopping: bool,
}

/// The mathematical value of a [`CallbackListener`].
pub struct CallbackListenerModel {
    /// The code handed over, once one was.
    pub delivered: Option<Seq<char>>,
    /// Whether the server was told to stop.
    pub stopping: bool,
}

/// The page for a request that brought a code.
pub open spec fn received_page() -> Seq<char> {
    "Authorization code received. You can close this window."@
}

/// The page for a request without a code.
pub open spec fn missing_page() -> Seq<char> {
    "No authorization code found in the query."@
}

impl CallbackListenerModel {
    /// A listener that has seen no request.
    pub open spec fn fresh() -> CallbackListenerModel {
        CallbackListenerModel { delivered: None, stopping: false }
    }

    /// The server is told to stop when the code is handed over, not before
    /// and not without.
    pub open spec fn wf(self) -> bool {
        self.stopping <==> self.delivered is Some
    }

    /// The listener after a request with the query `query`.
    pub open spec fn after(self, query: Seq<(Seq<char>, Seq<char>)>) -> CallbackListenerModel {
        match field_value(query, "code"@) {
            Some(code) => CallbackListenerModel {
                delivered: if self.delivered is None {
                    Some(code)
                } else {
                    self.delivered
                },
                stopping: true,
            },
            None => self,
        }
    }

    /// What the server does about a request with the query `query`.
    pub open spec fn reply(self, query: Seq<(Seq<char>, Seq<char>)>) -> CallbackReplyModel {
        match field_value(query, "code"@) {
            Some(code) => CallbackReplyModel {
                deliver: if self.delivered is None {
                    Some(code)
                } else {
                    None
                },
                shut_down: !self.stopping,
                page: received_page(),
            },
            None => CallbackReplyModel { deliver: None, shut_down: false, page: missing_page() },
        }
    }

    /// The listener after the requests `queries`, in order.
    pub open spec fn after_all(
        self,
        queries: Seq<Seq<(Seq<char>, Seq<char>)>>,
    ) -> CallbackListenerModel
        decreases queries.len(),
    {
        if queries.len() == 0 {
            self
        } else {
            self.after(queries[0]).after_all(queries.drop_first())
        }
    }
}

impl View for CallbackListener {
    type V = CallbackListenerModel;

    closed spec fn view(&self) -> CallbackListenerModel {
        CallbackListenerModel {
            delivered: match self.delivered {
                Some(code) => Some(code@),
                None => None,
            },
            stopping: self.stopping,
        }
    }
}

impl CallbackListener {
    /// A listener for one authorization attempt, before any request.
    pub fn new() -> (listener: CallbackListener)
        ensures
            listener@ == CallbackListenerModel::fresh(),
            listener@.wf(),
    {
        CallbackListener { delivered: None, stopping: false }
    }

    /// Decides what to do about a request to the redirect path whose query
    /// holds `query`. The first request with a `code` has the code handed
    /// over and the server stopped; a later one is acknowledged and changes
    /// nothing; one without `code` is told so and changes nothing.
    pub fn handle_callback(&mut self, query: &Vec<(String, String)>) -> (reply: CallbackReply)
        ensures
            reply@ == old(self)@.reply(form_view(query@)),
            final(self)@ == old(self)@.after(form_view(query@)),
            old(self)@.wf() ==> final(self)@.wf(),
    {
        match find_field(query, "code") {
            Some(code) => {
                let deliver = if self.delivered.is_none() {
                    self.delivered = Some(code.clone());
                    Some(code.clone())
                } else {
                    None
                };
                let shut_down = !self.stopping;
                self.stopping = true;
                CallbackReply {
                    deliver,
                    shut_down,
                    page: "Authorization code received. You can close this window.".to_owned(),
                }
            },
            None => CallbackReply {
                deliver: None,
                shut_down: false,
                page: "No authorization code found in the query.".to_owned(),
            },
        }
    }

    /// The code handed over so far, if any.
    pub fn delivered(&self) -> (code: Option<&String>)
        ensures
            match code {
                Some(c) => self@.delivered == Some(c@),
                None => self@.delivered is None,
            },
    {
        self.delivered.as_ref()
    }
}

/// What the waiting caller gets once the wait is over: the code that was
/// handed over, or `NoCodeReceived` where the listener stopped without one.
pub fn listen(received: Option<String>) -> (outcome: Result<String, ListenerError>)
    ensures
        match received {
            Some(code) => outcome == Ok::<String, ListenerError>(code),
            None => outcome == Err::<String, ListenerError>(ListenerError::NoCodeReceived),
        },
{
    match received {
        Some(code) => Ok(code),
        None => Err(ListenerError::NoCodeReceived),
    }
}

/// A fresh listener is well formed, and a request leaves a well-formed
/// listener well formed. The order to stop never comes apart from the code:
/// a request has the server stopped exactly if it has the code handed over.
pub proof fn law_listener_stays_well_formed(
    listener: CallbackListenerModel,
    query: Seq<(Seq<char>, Seq<char>)>,
)
    requires
        listener.wf(),
    ensures
        CallbackListenerModel::fresh().wf(),
        listener.after(query).wf(),
        listener.reply(query).shut_down <==> listener.reply(query).deliver is Some,
{
}

/// Once a code was handed over, no request changes it. Every later request
/// has nothing handed over and nothing stopped, and is answered: with the
/// acknowledgement where it brings a code, with the notice where it brings
/// none.
pub proof fn law_delivered_code_is_kept(
    listener: CallbackListenerModel,
    query: Seq<(Seq<char>, Seq<char>)>,
)
    requires
        listener.wf(),
        listener.delivered is Some,
    ensures
        listener.after(query) == listener,
        listener.reply(query).deliver is None,
        !listener.reply(query).shut_down,
        listener.reply(query).page == if field_value(query, "code"@) is Some {
            received_page()
        } else {
            missing_page()
        },
{
}

/// Requests without a code change nothing, however many there are: the
/// listener goes on waiting, and the server goes on serving.
pub proof fn law_requests_without_code_change_nothing(
    listener: CallbackListenerModel,
    queries: Seq<Seq<(Seq<char>, Seq<char>)>>,
)
    requires
        forall|i: int| 0 <= i < queries.len() ==> field_value(#[trigger] queries[i], "code"@) is None,
    ensures
        listener.after_all(queries) == listener,
        forall|i: int|
            0 <= i < queries.len() ==> listener.reply(#[trigger] queries[i]) == (
                CallbackReplyModel { deliver: None, shut_down: false, page: missing_page() }
            ),
    decreases queries.len(),
{
    if queries.len() > 0 {
        let rest = queries.drop_first();
        assert(field_value(queries[0], "code"@) is None);
        assert forall|i: int| 0 <= i < rest.len() implies field_value(
            #[trigger] rest[i],
            "code"@,
        ) is None by {
            assert(rest[i] == queries[i + 1]);
        }
        law_requests_without_code_change_nothing(listener, rest);
    }
}

/// The first request that brings a code has exactly that code handed to the
/// waiting caller and the server stopped, and whatever requests follow, the
/// code handed over stays that one.
pub proof fn law_first_code_wins(
    first: Seq<(Seq<char>, Seq<char>)>,
    code: Seq<char>,
    later: Seq<Seq<(Seq<char>, Seq<char>)>>,
)
    requires
        field_value(first, "code"@) == Some(code),
    ensures
        CallbackListenerModel::fresh().reply(first).deliver == Some(code),
        CallbackListenerModel::fresh().reply(first).shut_down,
        CallbackListenerModel::fresh().after(first).after_all(later).delivered == Some(code),
{
    let served = CallbackListenerModel::fresh().after(first);
    lemma_after_all_keeps(served, later);
}

/// A listener that has handed a code over is the same after any requests.
proof fn lemma_after_all_keeps(
    listener: CallbackListenerModel,
    queries: Seq<Seq<(Seq<char>, Seq<char>)>>,
)
    requires
        listener.wf(),
        listener.delivered is Some,
    ensures
        listener.after_all(queries) == listener,
    decreases queries.len(),
{
    if queries.len() > 0 {
        law_delivered_code_is_kept(listener, queries[0]);
        lemma_after_all_keeps(listener, queries.drop_first());
    }
}

} // verus!
