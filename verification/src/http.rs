//! HTTP exchanges as plain values.
//!
//! The library never touches the network. It hands out [`HttpRequest`]s to be
//! sent, and is handed back what came of each: an [`HttpResponse`], or the
//! transport's account of why there is none.

use crate::text::{first_index, lemma_first_index_is, lossy_text, same_text, text_of};
use vstd::prelude::*;
use vstd::string::*;
use vstd::utf8::{decode_utf8, valid_utf8};

verus! {

/// The two request methods that the flow uses.
#[derive(Clone, Copy, Debug, PartialEq, Eq)]
pub enum HttpMethod {
    Get,
    Post,
}

/// A request for the embedding program to send.
#[derive(Clone, Debug, PartialEq, Eq)]
pub struct HttpRequest {
    pub method: HttpMethod,
    pub url: String,
    /// The token of an `Authorization: Bearer` header, where one is to be sent.
    pub bearer: Option<String>,
    /// The fields of a form-encoded body, in order; empty for a request without body.
    pub form: Vec<(String, String)>,
}

/// The mathematical value of an [`HttpRequest`].
pub struct HttpRequestModel {
    pub method: HttpMethod,
    pub url: Seq<char>,
    pub bearer: Option<Seq<char>>,
    pub form: Seq<(Seq<char>, Seq<char>)>,
}

/// The views of a list of form fields.
pub open spec fn form_view(fields: Seq<(String, String)>) -> Seq<(Seq<char>, Seq<char>)> {
    Seq::new(fields.len(), |i: int| (fields[i].0@, fields[i].1@))
}

impl View for HttpRequest {
    type V = HttpRequestModel;

    open spec fn view(&self) -> HttpRequestModel {
        HttpRequestModel {
            method: self.method,
            url: self.url@,
            bearer: match self.bearer {
                Some(token) => Some(token@),
                None => None,
            },
            form: form_view(self.form@),
        }
    }
}

/// What a server sent back.
#[derive(Clone, Debug, PartialEq, Eq)]
pub struct HttpResponse {
    pub status: u16,
    /// The body, or `None` where the transport could not read it to its end.
    pub body: Option<Vec<u8>>,
}

/// What came of a request, as a mathematical value.
pub enum ReplyModel {
    /// No response arrived; the transport gave this reason.
    Failed(Seq<char>),
    /// A response arrived.
    Answered { status: u16, body: Option<Seq<u8>> },
}

/// The model of what the transport reports for one request: `Ok` with the
/// response, or `Err` with its reason for having none.
pub open spec fn reply_model(reply: Result<HttpResponse, String>) -> ReplyModel {
    match reply {
        Ok(response) => ReplyModel::Answered {
            status: response.status,
            body: match response.body {
                Some(bytes) => Some(bytes@),
                None => None,
            },
        },
        Err(reason) => ReplyModel::Failed(reason@),
    }
}

/// A status from 200 to 299.
pub open spec fn is_success(status: u16) -> bool {
    200 <= status < 300
}

/// Whether `status` is from 200 to 299.
pub fn status_is_success(status: u16) -> (success: bool)
    ensures
        success == is_success(status),
{
    200 <= status && status < 300
}

/// The body of an error response as text for a message: valid UTF-8 as the
/// text it encodes, other bytes read leniently, and a fixed notice where
/// there are no bytes.
pub open spec fn error_body_text(body: Option<Seq<u8>>) -> Seq<char> {
    match body {
        Some(bytes) => if valid_utf8(bytes) {
            decode_utf8(bytes)
        } else {
            lossy_text(bytes)
        },
        None => "Failed to read error body"@,
    }
}

/// Renders the body of an error response for a message. A body of valid
/// UTF-8 is echoed as it stands.
pub fn error_body(body: &Option<Vec<u8>>) -> (text: String)
    ensures
        text@ == error_body_text(
            match body {
                Some(bytes) => Some(bytes@),
                None => None,
            },
        ),
        match body {
            Some(bytes) => text@ == lossy_text(bytes@) && (valid_utf8(bytes@) ==> text@
                == decode_utf8(bytes@)),
            None => text@ == "Failed to read error body"@,
        },
{
    match body {
        Some(bytes) => text_of(bytes.as_slice()),
        None => "Failed to read error body".to_owned(),
    }
}

/// The names of a list of fields, in order.
pub open spec fn field_names(fields: Seq<(Seq<char>, Seq<char>)>) -> Seq<Seq<char>> {
    Seq::new(fields.len(), |i: int| fields[i].0)
}

/// The value of the first field called `name`, where there is one.
pub open spec fn field_value(fields: Seq<(Seq<char>, Seq<char>)>, name: Seq<char>) -> Option<
    Seq<char>,
> {
    let at = first_index(field_names(fields), name);
    if 0 <= at < fields.len() {
        Some(fields[at].1)
    } else {
        None
    }
}

/// Looks up the first field called `name`.
pub fn find_field<'a>(fields: &'a Vec<(String, String)>, name: &str) -> (found: Option<&'a String>)
    ensures
        match found {
            Some(value) => field_value(form_view(fields@), name@) == Some(value@),
            None => field_value(form_view(fields@), name@) is None,
        },
{
    let ghost names = field_names(form_view(fields@));
    let mut i: usize = 0;
    while i < fields.len()
        invariant
            i <= fields.len(),
            names == field_names(form_view(fields@)),
            forall|j: int| 0 <= j < i ==> names[j] != name@,
        decreases fields.len() - i,
    {
        if same_text(fields[i].0.as_str(), name) {
            proof {
                lemma_first_index_is(names, name@, i as int);
            }
            return Some(&fields[i].1);
        }
        i += 1;
    }
    proof {
        lemma_first_index_is(names, name@, names.len() as int);
    }
    None
}

} // verus!
