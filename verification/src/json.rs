//! JSON documents as the library reads them.
//!
//! Parsing is left to `serde_json`; what it yields is moved into [`Json`], a
//! tree of plain values on which every lookup of the library is verified.

use crate::text::{first_index, lemma_first_index_is, same_text};
use serde_json::Value;
use vstd::prelude::*;
use vstd::string::*;

verus! {

/// A JSON value.
///
/// Numbers come in three forms: integers from zero to `u64::MAX`, negative
/// integers down to `i64::MIN`, and every other number as its decimal text.
/// An object keeps its members in a list; a lookup takes the first member of
/// the name asked for.
#[derive(Debug, PartialEq, Eq)]
pub enum Json {
    Null,
    Bool(bool),
    Unsigned(u64),
    Signed(i64),
    Decimal(String),
    String(String),
    Array(Vec<Json>),
    Object(Vec<(String, Json)>),
}

/// The mathematical value of a [`Json`].
pub enum JsonModel {
    Null,
    Bool(bool),
    Unsigned(u64),
    Signed(i64),
    Decimal(Seq<char>),
    String(Seq<char>),
    Array(Seq<JsonModel>),
    Object(Seq<(Seq<char>, JsonModel)>),
}

impl View for Json {
    type V = JsonModel;

    open spec fn view(&self) -> JsonModel
        decreases self,
    {
        match self {
            Json::Null => JsonModel::Null,
            Json::Bool(b) => JsonModel::Bool(*b),
            Json::Unsigned(n) => JsonModel::Unsigned(*n),
            Json::Signed(n) => JsonModel::Signed(*n),
            Json::Decimal(text) => JsonModel::Decimal(text@),
            Json::String(text) => JsonModel::String(text@),
            Json::Array(items) => JsonModel::Array(array_view(items@)),
            Json::Object(members) => JsonModel::Object(object_view(members@)),
        }
    }
}

/// The views of the items of an array, in order.
pub open spec fn array_view(items: Seq<Json>) -> Seq<JsonModel>
    decreases items,
{
    if items.len() == 0 {
        Seq::empty()
    } else {
        array_view(items.drop_last()).push(items.last()@)
    }
}

/// The names of the members of an object with the views of their values, in order.
pub open spec fn object_view(members: Seq<(String, Json)>) -> Seq<(Seq<char>, JsonModel)>
    decreases members,
{
    if members.len() == 0 {
        Seq::empty()
    } else {
        object_view(members.drop_last()).push((members.last().0@, members.last().1@))
    }
}

/// `array_view` keeps length and order.
pub proof fn lemma_array_view(items: Seq<Json>)
    ensures
        array_view(items).len() == items.len(),
        forall|i: int| 0 <= i < items.len() ==> (#[trigger] array_view(items)[i]) == items[i]@,
    decreases items.len(),
{
    if items.len() > 0 {
        lemma_array_view(items.drop_last());
        assert(array_view(items) == array_view(items.drop_last()).push(items.last()@));
    } else {
        assert(array_view(items) == Seq::<JsonModel>::empty());
    }
}

/// `object_view` keeps length and order.
pub proof fn lemma_object_view(members: Seq<(String, Json)>)
    ensures
        object_view(members).len() == members.len(),
        forall|i: int|
            0 <= i < members.len() ==> (#[trigger] object_view(members)[i]) == (
                members[i].0@,
                members[i].1@,
            ),
    decreases members.len(),
{
    if members.len() > 0 {
        lemma_object_view(members.drop_last());
        assert(object_view(members) == object_view(members.drop_last()).push(
            (members.last().0@, members.last().1@),
        ));
    } else {
        assert(object_view(members) == Seq::<(Seq<char>, JsonModel)>::empty());
    }
}

/// The names of the members of an object, in order.
pub open spec fn member_names(members: Seq<(Seq<char>, JsonModel)>) -> Seq<Seq<char>> {
    Seq::new(members.len(), |i: int| members[i].0)
}

impl JsonModel {
    /// The first member called `name`, where `self` is an object that has one.
    pub open spec fn member(self, name: Seq<char>) -> Option<JsonModel> {
        match self {
            JsonModel::Object(members) => {
                let at = first_index(member_names(members), name);
                if 0 <= at < members.len() {
                    Some(members[at].1)
                } else {
                    None
                }
            },
            _ => None,
        }
    }

    /// The text of a JSON string; nothing for any other value.
    pub open spec fn as_text(self) -> Option<Seq<char>> {
        match self {
            JsonModel::String(text) => Some(text),
            _ => None,
        }
    }

    /// The value of an integer from zero to `u64::MAX`; nothing for any other value.
    pub open spec fn as_unsigned(self) -> Option<u64> {
        match self {
            JsonModel::Unsigned(n) => Some(n),
            _ => None,
        }
    }

    /// The text of the member `name`, where there is such a member and it is a string.
    pub open spec fn text_member(self, name: Seq<char>) -> Option<Seq<char>> {
        match self.member(name) {
            Some(value) => value.as_text(),
            None => None,
        }
    }

    /// The value of the member `name`, where there is such a member and it is
    /// an integer from zero to `u64::MAX`.
    pub open spec fn unsigned_member(self, name: Seq<char>) -> Option<u64> {
        match self.member(name) {
            Some(value) => value.as_unsigned(),
            None => None,
        }
    }
}

/// The document that a text denotes under `serde_json`'s reading of JSON, or
/// nothing where the text is not one JSON value.
pub uninterp spec fn json_document(text: Seq<u8>) -> Option<JsonModel>;

/// `serde_json::Value`, of which the library looks at nothing: it is moved
/// into a [`Json`] as soon as it is read.
#[verifier::external_type_specification]
#[verifier::external_body]
pub struct ExValue(serde_json::Value);

/// `serde_json::Error`, of which the library looks at nothing but that there
/// is one.
#[verifier::external_type_specification]
#[verifier::external_body]
pub struct ExJsonError(serde_json::Error);

/// Moves a `serde_json::Value` into a [`Json`], node for node. A number goes
/// by `Number::as_u64`, else by `Number::as_i64`, else as the text that
/// `Number`'s `Display` writes; an object's members come in the order in which
/// `serde_json::Map` hands them out. Nothing is claimed of the result here:
/// [`read_json`] names it.
#[verifier::external_body]
fn json_of(value: Value) -> Json {
    match value {
        Value::Null => Json::Null,
        Value::Bool(b) => Json::Bool(b),
        Value::Number(n) => match (n.as_u64(), n.as_i64()) {
            (Some(u), _) => Json::Unsigned(u),
            (_, Some(i)) => Json::Signed(i),
            _ => Json::Decimal(n.to_string()),
        },
        Value::String(s) => Json::String(s),
        Value::Array(items) => Json::Array(items.into_iter().map(json_of).collect()),
        Value::Object(map) => Json::Object(map.into_iter().map(|(k, v)| (k, json_of(v))).collect()),
    }
}

/// Calls `serde_json::from_slice` for a `serde_json::Value`. The claim: the
/// outcome depends on the bytes alone. On success the value, moved into a
/// [`Json`], is `json_document` of the bytes; on failure `json_document` of
/// the bytes is nothing.
#[verifier::external_body]
fn read_json(bytes: &[u8]) -> (read: Result<Json, serde_json::Error>)
    ensures
        match read {
            Ok(document) => json_document(bytes@) == Some(document@),
            Err(_) => json_document(bytes@) is None,
        },
{
    serde_json::from_slice::<Value>(bytes).map(json_of)
}

/// A text that is not one JSON value.
#[derive(Clone, Copy, Debug, PartialEq, Eq)]
pub struct JsonSyntaxError;

impl Json {
    /// Reads one JSON value from `bytes`.
    pub fn parse(bytes: &[u8]) -> (parsed: Result<Json, JsonSyntaxError>)
        ensures
            match parsed {
                Ok(document) => json_document(bytes@) == Some(document@),
                Err(_) => json_document(bytes@) is None,
            },
    {
        match read_json(bytes) {
            Ok(document) => Ok(document),
            Err(_) => Err(JsonSyntaxError),
        }
    }

    /// The first member called `name`, where `self` is an object that has one.
    pub fn get(&self, name: &str) -> (found: Option<&Json>)
        ensures
            match found {
                Some(value) => self@.member(name@) == Some(value@),
                None => self@.member(name@) is None,
            },
    {
        match self {
            Json::Object(members) => {
                let ghost names = member_names(self@->Object_0);
                let mut i: usize = 0;
                proof {
                    lemma_object_view(members@);
                }
                while i < members.len()
                    invariant
                        i <= members.len(),
                        self@ is Object,
                        names == member_names(self@->Object_0),
                        names.len() == members.len(),
                        forall|j: int| 0 <= j < members.len() ==> names[j] == members@[j].0@,
                        forall|j: int|
                            0 <= j < members.len() ==> (self@->Object_0)[j].1 == members@[j].1@,
                        forall|j: int| 0 <= j < i ==> names[j] != name@,
                    decreases members.len() - i,
                {
                    if same_text(members[i].0.as_str(), name) {
                        proof {
                            lemma_first_index_is(names, name@, i as int);
                        }
                        return Some(&members[i].1);
                    }
                    i += 1;
                }
                proof {
                    lemma_first_index_is(names, name@, names.len() as int);
                }
                None
            },
            _ => None,
        }
    }

    /// The text of a JSON string; nothing for any other value.
    pub fn as_str(&self) -> (text: Option<&str>)
        ensures
            match text {
                Some(t) => self@.as_text() == Some(t@),
                None => self@.as_text() is None,
            },
    {
        match self {
            Json::String(text) => Some(text.as_str()),
            _ => None,
        }
    }

    /// The value of an integer from zero to `u64::MAX`; nothing for any other value.
    pub fn as_u64(&self) -> (n: Option<u64>)
        ensures
            n == self@.as_unsigned(),
    {
        match self {
            Json::Unsigned(n) => Some(*n),
            _ => None,
        }
    }

    /// The text of the member `name`, where there is such a member and it is a string.
    pub fn text_member(&self, name: &str) -> (text: Option<String>)
        ensures
            match text {
                Some(t) => self@.text_member(name@) == Some(t@),
                None => self@.text_member(name@) is None,
            },
    {
        match self.get(name) {
            Some(value) => match value.as_str() {
                Some(t) => Some(t.to_owned()),
                None => None,
            },
            None => None,
        }
    }

    /// The value of the member `name`, where there is such a member and it is
    /// an integer from zero to `u64::MAX`.
    pub fn unsigned_member(&self, name: &str) -> (n: Option<u64>)
        ensures
            n == self@.unsigned_member(name@),
    {
        match self.get(name) {
            Some(value) => value.as_u64(),
            None => None,
        }
    }
}

} // verus!
