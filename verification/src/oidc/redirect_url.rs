//! Where the callback listener serves: the host, the port and the path that
//! the redirect URL names.

use crate::text::{
    cut_text, first_index, lemma_boundary_at_ascii, lemma_boundary_behind_ascii, position,
    same_text,
};
use vstd::prelude::*;
use vstd::slice::slice_subrange;
use vstd::string::*;
use vstd::utf8::{decode_utf8, encode_utf8, encode_utf8_decode_utf8, encode_utf8_valid_utf8};

verus! {

/// The address and the path at which the redirect arrives.
#[derive(Clone, Debug, PartialEq, Eq)]
pub struct CallbackEndpoint {
    pub host: String,
    pub port: u16,
    /// The path of the redirect, with its leading `/`.
    pub path: String,
}

/// The mathematical value of a [`CallbackEndpoint`].
pub struct CallbackEndpointModel {
    pub host: Seq<char>,
    pub port: u16,
    pub path: Seq<char>,
}

impl View for CallbackEndpoint {
    type V = CallbackEndpointModel;

    open spec fn view(&self) -> CallbackEndpointModel {
        CallbackEndpointModel { host: self.host@, port: self.port, path: self.path@ }
    }
}

/// The bytes of `http://`.
pub open spec fn http_scheme() -> Seq<u8> {
    seq![0x68u8, 0x74u8, 0x74u8, 0x70u8, 0x3au8, 0x2fu8, 0x2fu8]
}

/// The lesser of two positions.
pub open spec fn least(a: int, b: int) -> int {
    if a <= b {
        a
    } else {
        b
    }
}

/// Where the authority of an URL ends, counted from behind the scheme: at
/// the first `/`, `?` or `#`, or at the end.
pub open spec fn authority_end(rest: Seq<u8>) -> int {
    least(first_index(rest, 0x2fu8), least(first_index(rest, 0x3fu8), first_index(rest, 0x23u8)))
}

/// Where the path of an URL ends, counted from where it starts: at the first
/// `?` or `#`, or at the end.
pub open spec fn path_end(tail: Seq<u8>) -> int {
    least(first_index(tail, 0x3fu8), first_index(tail, 0x23u8))
}

/// A decimal digit of ASCII.
pub open spec fn is_digit(byte: u8) -> bool {
    0x30 <= byte <= 0x39
}

/// Only decimal digits.
pub open spec fn all_digits(digits: Seq<u8>) -> bool {
    forall|i: int| 0 <= i < digits.len() ==> is_digit(#[trigger] digits[i])
}

/// The number that decimal digits write.
pub open spec fn digits_value(digits: Seq<u8>) -> nat
    decreases digits.len(),
{
    if digits.len() == 0 {
        0
    } else {
        digits_value(digits.drop_last()) * 10 + (digits.last() - 0x30) as nat
    }
}

/// The port that `digits` write: one digit at least, nothing but digits, and
/// a number up to 65535.
pub open spec fn port_of(digits: Seq<u8>) -> Option<u16> {
    if digits.len() > 0 && all_digits(digits) && digits_value(digits) <= 65535 {
        Some(digits_value(digits) as u16)
    } else {
        None
    }
}

/// The endpoint that a redirect URL names. The URL must start with
/// `http://`. Its authority runs to the first `/`, `?` or `#`; the host is
/// the authority up to its first `:` and must not be empty; the port is what
/// follows that `:`, or 80 where there is none. The path runs from the end of
/// the authority to the first `?` or `#`, and is `/` where that is empty.
pub open spec fn callback_endpoint_of(url: Seq<u8>) -> Option<CallbackEndpointModel> {
    if url.len() < 7 || url.take(7) != http_scheme() {
        None
    } else {
        let rest = url.skip(7);
        let authority = rest.take(authority_end(rest));
        let tail = rest.skip(authority_end(rest));
        let path = tail.take(path_end(tail));
        let colon = first_index(authority, 0x3au8);
        let host = authority.take(colon);
        let port = if colon < authority.len() {
            port_of(authority.skip(colon + 1))
        } else {
            Some(80u16)
        };
        if host.len() == 0 || port is None {
            None
        } else {
            Some(
                CallbackEndpointModel {
                    host: decode_utf8(host),
                    port: port->0,
                    path: if path.len() == 0 {
                        seq!['/']
                    } else {
                        decode_utf8(path)
                    },
                },
            )
        }
    }
}

fn lesser(a: usize, b: usize) -> (least_of: usize)
    ensures
        least_of == least(a as int, b as int),
{
    if a <= b {
        a
    } else {
        b
    }
}

/// A prefix of the digits writes no more than all of them.
proof fn lemma_digits_grow(digits: Seq<u8>, i: int)
    requires
        0 <= i <= digits.len(),
        all_digits(digits),
    ensures
        digits_value(digits.take(i)) <= digits_value(digits),
    decreases digits.len(),
{
    if i == digits.len() {
        assert(digits.take(i) =~= digits);
    } else {
        let front = digits.drop_last();
        assert(front.take(i) =~= digits.take(i));
        assert(is_digit(digits[digits.len() - 1]));
        lemma_digits_grow(front, i);
    }
}

/// Reads a port.
fn parse_port(digits: &[u8]) -> (port: Option<u16>)
    ensures
        port == port_of(digits@),
{
    if digits.len() == 0 {
        return None;
    }
    let mut value: u32 = 0;
    let mut i: usize = 0;
    assert(digits@.take(0) =~= Seq::<u8>::empty());
    while i < digits.len()
        invariant
            i <= digits.len(),
            all_digits(digits@.take(i as int)),
            value == digits_value(digits@.take(i as int)),
            value <= 65535,
        decreases digits.len() - i,
    {
        let byte: u8 = digits[i];
        if byte < 0x30 || byte > 0x39 {
            assert(!is_digit(digits@[i as int]));
            return None;
        }
        let ghost longer = digits@.take(i + 1);
        proof {
            assert(longer.drop_last() =~= digits@.take(i as int));
            assert(longer.last() == byte);
            assert forall|j: int| 0 <= j < longer.len() implies is_digit(#[trigger] longer[j]) by {
                if j < i {
                    assert(digits@.take(i as int)[j] == longer[j]);
                }
            }
        }
        value = value * 10 + (byte - 0x30) as u32;
        if value > 65535 {
            proof {
                if all_digits(digits@) {
                    lemma_digits_grow(digits@, i + 1);
                }
            }
            return None;
        }
        i += 1;
    }
    assert(digits@.take(digits.len() as int) =~= digits@);
    Some(value as u16)
}

impl CallbackEndpoint {
    /// Whether a request for the path `requested` is one for the redirect:
    /// it is where the path is this endpoint's, character for character.
    pub fn serves(&self, requested: &str) -> (served: bool)
        ensures
            served == (requested@ == self@.path),
    {
        same_text(requested, self.path.as_str())
    }

    /// Reads the endpoint out of a redirect URL, taken as its UTF-8 bytes.
    /// Only `http://` URLs name one: the listener speaks plain HTTP. An
    /// authority with user information or with an IPv6 address in brackets
    /// is not provided for.
    pub fn from_redirect_url(url: &str) -> (endpoint: Option<CallbackEndpoint>)
        ensures
            match endpoint {
                Some(e) => callback_endpoint_of(encode_utf8(url@)) == Some(e@),
                None => callback_endpoint_of(encode_utf8(url@)) is None,
            },
    {
        let bytes = url.as_bytes();
        if bytes.len() < 7 {
            return None;
        }
        if bytes[0] != 0x68 || bytes[1] != 0x74 || bytes[2] != 0x74 || bytes[3] != 0x70 || bytes[4]
            != 0x3a || bytes[5] != 0x2f || bytes[6] != 0x2f {
            return None;
        }
        proof {
            assert(bytes@.take(7) =~= http_scheme());
            encode_utf8_valid_utf8(url@);
            lemma_boundary_behind_ascii(bytes@, 7);
        }
        let (_, rest) = cut_text(url, 7);
        let behind = rest.as_bytes();
        let end = lesser(
            position(behind, 0x2f),
            lesser(position(behind, 0x3f), position(behind, 0x23)),
        );
        proof {
            encode_utf8_valid_utf8(rest@);
            lemma_boundary_at_ascii(behind@, end as int);
        }
        let (authority, tail) = cut_text(rest, end);
        let named = authority.as_bytes();
        let followed = tail.as_bytes();
        let path_length = lesser(position(followed, 0x3f), position(followed, 0x23));
        let colon = position(named, 0x3a);
        proof {
            encode_utf8_valid_utf8(tail@);
            encode_utf8_valid_utf8(authority@);
            lemma_boundary_at_ascii(followed@, path_length as int);
            lemma_boundary_at_ascii(named@, colon as int);
        }
        let (path, _) = cut_text(tail, path_length);
        let (host, _) = cut_text(authority, colon);
        if host.is_empty() {
            proof {
                encode_utf8_decode_utf8(host@);
                assert(encode_utf8(host@).len() == 0);
            }
            return None;
        }
        assert(encode_utf8(host@).len() > 0) by {
            if encode_utf8(host@).len() == 0 {
                assert(decode_utf8(encode_utf8(host@)).len() == 0);
            }
        }
        let port: u16 = if colon < named.len() {
            let digits = slice_subrange(named, colon + 1, named.len());
            assert(digits@ =~= named@.skip(colon + 1));
            match parse_port(digits) {
                Some(port) => port,
                None => {
                    return None;
                },
            }
        } else {
            80
        };
        let path = if path.is_empty() {
            proof {
                reveal_strlit("/");
                assert(encode_utf8(path@).len() == 0);
            }
            assert("/"@ =~= seq!['/']);
            "/".to_owned()
        } else {
            assert(encode_utf8(path@).len() > 0) by {
                if encode_utf8(path@).len() == 0 {
                    assert(decode_utf8(encode_utf8(path@)).len() == 0);
                }
            }
            path.to_owned()
        };
        Some(CallbackEndpoint { host: host.to_owned(), port, path })
    }
}

} // verus!
