//! Reading a compact token without verifying it.
//!
//! What comes out of this module is for a person to look at. Nothing here
//! checks a signature, so nothing here says who wrote the token.

use crate::json::{json_document, Json, JsonModel};
use crate::text::{byte_views, lemma_split_step, lemma_split_whole, occurs, split, split_on};
use base64::Engine;
use vstd::prelude::*;
use vstd::string::*;
use vstd::utf8::encode_utf8;

verus! {

/// Why a token could not be read.
#[derive(Clone, Copy, Debug, PartialEq, Eq)]
pub enum JwtDecodeError {
    /// The token does not consist of exactly three segments between dots.
    MalformedStructure,
    /// The first or the second segment is not unpadded URL-safe base64.
    Base64,
    /// The first or the second segment does not decode to JSON.
    JsonParse,
}

impl JwtDecodeError {
    /// The error in words.
    pub open spec fn spec_message(self) -> Seq<char> {
        match self {
            JwtDecodeError::MalformedStructure => "Invalid JWT format"@,
            JwtDecodeError::Base64 => "Invalid base64 in JWT"@,
            JwtDecodeError::JsonParse => "Invalid JSON in JWT"@,
        }
    }

    /// The error in words.
    pub fn message(&self) -> (text: String)
        ensures
            text@ == self.spec_message(),
    {
        match self {
            JwtDecodeError::MalformedStructure => "Invalid JWT format".to_owned(),
            JwtDecodeError::Base64 => "Invalid base64 in JWT".to_owned(),
            JwtDecodeError::JsonParse => "Invalid JSON in JWT".to_owned(),
        }
    }
}

/// The byte of the dot that parts the segments of a token.
pub open spec fn dot() -> u8 {
    0x2e
}

/// The bytes that a text stands for in unpadded URL-safe base64 as the crate
/// `base64` reads it, or nothing where the text is not such an encoding.
pub uninterp spec fn base64url_decoded(text: Seq<u8>) -> Option<Seq<u8>>;

/// `base64::DecodeError`, of which the library looks at nothing but that
/// there is one.
#[verifier::external_type_specification]
#[verifier::external_body]
pub struct ExBase64DecodeError(base64::DecodeError);

/// Calls `Engine::decode` on `base64::engine::general_purpose::URL_SAFE_NO_PAD`.
/// The claim: the outcome depends on the text alone. On success the bytes are
/// `base64url_decoded` of the text; on failure `base64url_decoded` of the text
/// is nothing.
#[verifier::external_body]
fn base64url_decode(text: &[u8]) -> (decoded: Result<Vec<u8>, base64::DecodeError>)
    ensures
        match decoded {
            Ok(bytes) => base64url_decoded(text@) == Some(bytes@),
            Err(_) => base64url_decoded(text@) is None,
        },
{
    base64::engine::general_purpose::URL_SAFE_NO_PAD.decode(text)
}

/// The first two segments of a token of exactly three segments.
pub open spec fn jwt_segments(token: Seq<u8>) -> Result<(Seq<u8>, Seq<u8>), JwtDecodeError> {
    let segments = split_on(token, dot());
    if segments.len() == 3 {
        Ok((segments[0], segments[1]))
    } else {
        Err(JwtDecodeError::MalformedStructure)
    }
}

/// The header and the payload of a token. The token must have exactly three
/// segments, the first two must both be base64, and what they decode to must
/// both be JSON; the errors are looked for in this order. The third segment
/// is counted and never read.
pub open spec fn decoded_jwt(token: Seq<u8>) -> Result<(JsonModel, JsonModel), JwtDecodeError> {
    match jwt_segments(token) {
        Err(error) => Err(error),
        Ok((first, second)) => match (base64url_decoded(first), base64url_decoded(second)) {
            (Some(header), Some(payload)) => match (
                json_document(header),
                json_document(payload),
            ) {
                (Some(h), Some(p)) => Ok((h, p)),
                _ => Err(JwtDecodeError::JsonParse),
            },
            _ => Err(JwtDecodeError::Base64),
        },
    }
}

/// Parts a token into its segments and hands out the first two, where there
/// are exactly three.
pub fn split_jwt(token: &[u8]) -> (parted: Result<(Vec<u8>, Vec<u8>), JwtDecodeError>)
    ensures
        match parted {
            Ok((first, second)) => jwt_segments(token@) == Ok::<(Seq<u8>, Seq<u8>), JwtDecodeError>(
                (first@, second@),
            ),
            Err(error) => jwt_segments(token@) == Err::<(Seq<u8>, Seq<u8>), JwtDecodeError>(error),
        },
{
    let mut segments = split(token, 0x2e);
    if segments.len() != 3 {
        return Err(JwtDecodeError::MalformedStructure);
    }
    let ghost all = segments@;
    let _signature = segments.pop();
    let second = segments.pop().unwrap();
    let first = segments.pop().unwrap();
    proof {
        assert(byte_views(all)[0] == first@);
        assert(byte_views(all)[1] == second@);
    }
    Ok((first, second))
}

/// Reads the header and the payload of a compact token, taken as its UTF-8
/// bytes. The signature is not verified, nor so much as decoded: the result
/// shows what the token says, not whether to believe it.
pub fn decode_jwt_without_verification(token: &str) -> (decoded: Result<(Json, Json), JwtDecodeError>)
    ensures
        match decoded {
            Ok((header, payload)) => decoded_jwt(encode_utf8(token@)) == Ok::<
                (JsonModel, JsonModel),
                JwtDecodeError,
            >((header@, payload@)),
            Err(error) => decoded_jwt(encode_utf8(token@)) == Err::<
                (JsonModel, JsonModel),
                JwtDecodeError,
            >(error),
        },
{
    let (first, second) = match split_jwt(token.as_bytes()) {
        Ok(segments) => segments,
        Err(error) => {
            return Err(error);
        },
    };
    let header = match base64url_decode(first.as_slice()) {
        Ok(bytes) => bytes,
        Err(_) => {
            return Err(JwtDecodeError::Base64);
        },
    };
    let payload = match base64url_decode(second.as_slice()) {
        Ok(bytes) => bytes,
        Err(_) => {
            return Err(JwtDecodeError::Base64);
        },
    };
    let header_json = match Json::parse(header.as_slice()) {
        Ok(document) => document,
        Err(_) => {
            return Err(JwtDecodeError::JsonParse);
        },
    };
    let payload_json = match Json::parse(payload.as_slice()) {
        Ok(document) => document,
        Err(_) => {
            return Err(JwtDecodeError::JsonParse);
        },
    };
    Ok((header_json, payload_json))
}

/// Three texts free of dots, written with dots between them, are a token of
/// exactly these three segments.
pub proof fn lemma_three_segments(first: Seq<u8>, second: Seq<u8>, third: Seq<u8>)
    requires
        !occurs(first, dot()),
        !occurs(second, dot()),
        !occurs(third, dot()),
    ensures
        split_on(first + seq![dot()] + second + seq![dot()] + third, dot()) == seq![
            first,
            second,
            third,
        ],
{
    let tail = second + seq![dot()] + third;
    lemma_split_whole(third, dot());
    lemma_split_step(second, dot(), third);
    lemma_split_step(first, dot(), tail);
    assert(first + seq![dot()] + second + seq![dot()] + third =~= first + seq![dot()] + tail);
    assert(seq![first] + (seq![second] + seq![third]) =~= seq![first, second, third]);
}

/// A token of three segments whose first two are base64 of JSON documents
/// decodes to exactly these two documents.
pub proof fn law_valid_token_decodes(token: Seq<u8>, header: JsonModel, payload: JsonModel)
    requires
        split_on(token, dot()).len() == 3,
        base64url_decoded(split_on(token, dot())[0]) is Some,
        base64url_decoded(split_on(token, dot())[1]) is Some,
        json_document(base64url_decoded(split_on(token, dot())[0])->0) == Some(header),
        json_document(base64url_decoded(split_on(token, dot())[1])->0) == Some(payload),
    ensures
        decoded_jwt(token) == Ok::<(JsonModel, JsonModel), JwtDecodeError>((header, payload)),
{
}

/// A token of any number of segments but three is refused as malformed,
/// whatever the segments hold.
pub proof fn law_wrong_segment_count_is_malformed(token: Seq<u8>)
    requires
        split_on(token, dot()).len() != 3,
    ensures
        decoded_jwt(token) == Err::<(JsonModel, JsonModel), JwtDecodeError>(
            JwtDecodeError::MalformedStructure,
        ),
{
}

/// A token of three segments of which the first or the second is not base64
/// is refused for that, whatever else it holds.
pub proof fn law_bad_base64_is_refused(token: Seq<u8>)
    requires
        split_on(token, dot()).len() == 3,
        base64url_decoded(split_on(token, dot())[0]) is None || base64url_decoded(
            split_on(token, dot())[1],
        ) is None,
    ensures
        decoded_jwt(token) == Err::<(JsonModel, JsonModel), JwtDecodeError>(JwtDecodeError::Base64),
{
}

/// The signature is never read: two tokens that differ in their third
/// segment alone decode alike.
pub proof fn law_signature_is_ignored(
    first: Seq<u8>,
    second: Seq<u8>,
    signature: Seq<u8>,
    other_signature: Seq<u8>,
)
    requires
        !occurs(first, dot()),
        !occurs(second, dot()),
        !occurs(signature, dot()),
        !occurs(other_signature, dot()),
    ensures
        decoded_jwt(first + seq![dot()] + second + seq![dot()] + signature) == decoded_jwt(
            first + seq![dot()] + second + seq![dot()] + other_signature,
        ),
{
    lemma_three_segments(first, second, signature);
    lemma_three_segments(first, second, other_signature);
}

} // verus!
