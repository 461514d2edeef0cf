//! The parameters of one match: named values, percent-decoded on each read,
//! and the unnamed wildcard's text.
use percent_encoding::percent_decode;
use regex::Regex;
use std::str::Utf8Error;
use vstd::prelude::*;
use vstd::utf8::{decode_utf8, encode_utf8, valid_utf8};

use crate::engine::{capture_named, capture_numbered, named_group, numbered_group, regex_source};
use crate::errors::ParamError;

verus! {

/// The value of an ASCII hexadecimal digit.
pub open spec fn hex_value(b: u8) -> Option<u8> {
    if 48 <= b && b <= 57 {
        Some((b - 48) as u8)
    } else if 97 <= b && b <= 102 {
        Some((b - 87) as u8)
    } else if 65 <= b && b <= 70 {
        Some((b - 55) as u8)
    } else {
        None
    }
}

/// `bytes` with each `%` followed by two hexadecimal digits replaced by the
/// byte they spell; every other byte is kept.
pub open spec fn percent_decoded(bytes: Seq<u8>) -> Seq<u8>
    decreases bytes.len(),
{
    if bytes.len() == 0 {
        Seq::empty()
    } else if bytes[0] == 37 && bytes.len() >= 3 && hex_value(bytes[1]) is Some && hex_value(
        bytes[2],
    ) is Some {
        seq![(hex_value(bytes[1])->0 * 16 + hex_value(bytes[2])->0) as u8] + percent_decoded(
            bytes.subrange(3, bytes.len() as int),
        )
    } else {
        seq![bytes[0]] + percent_decoded(bytes.drop_first())
    }
}

/// The percent-decoded bytes of a captured text.
pub open spec fn decoded_value(text: Seq<char>) -> Seq<u8> {
    percent_decoded(encode_utf8(text))
}

/// Relies on `percent_encoding::percent_decode` over the UTF-8 bytes of
/// `text`.
#[verifier::external_body]
fn decode_percent(text: &str) -> (r: Vec<u8>)
    ensures
        r@ == percent_decoded(encode_utf8(text@)),
{
    percent_decode(text.as_bytes()).collect()
}

/// The error that `String::from_utf8` reports on `bytes`; it depends on the
/// bytes alone.
pub uninterp spec fn utf8_error_of(bytes: Seq<u8>) -> Utf8Error;

/// Relies on `String::from_utf8`: the text that the bytes encode, where they
/// are UTF-8.
#[verifier::external_body]
fn utf8_text(bytes: Vec<u8>) -> (r: Result<String, Utf8Error>)
    ensures
        r is Ok <==> valid_utf8(bytes@),
        r matches Ok(s) ==> s@ == decode_utf8(bytes@),
        r matches Err(e) ==> e == utf8_error_of(bytes@),
{
    String::from_utf8(bytes).map_err(|e| e.utf8_error())
}

/// The parameters of one match of a route's expression against a path.
pub struct Params<'a> {
    regex: &'a Regex,
    subject: &'a str,
    wildcard_group: Option<usize>,
}

impl<'a> Params<'a> {
    /// The expression that was matched.
    pub closed spec fn source(&self) -> Seq<char> {
        regex_source(*self.regex)
    }

    /// The path it was matched against.
    pub closed spec fn subject(&self) -> Seq<char> {
        self.subject@
    }

    /// The group of the unnamed wildcard, if the route has one.
    pub closed spec fn wildcard_group(&self) -> Option<usize> {
        self.wildcard_group
    }

    /// The raw text bound to `key`.
    pub open spec fn raw(&self, key: Seq<char>) -> Option<Seq<char>> {
        named_group(self.source(), self.subject(), key)
    }

    pub(crate) fn new(regex: &'a Regex, subject: &'a str, wildcard_group: Option<usize>) -> (r:
        Params<'a>)
        ensures
            r.source() == regex_source(*regex),
            r.subject() == subject@,
            r.wildcard_group() == wildcard_group,
    {
        Params { regex, subject, wildcard_group }
    }

    /// The value bound to `key`, percent-decoded, as text.
    pub fn get(&self, key: &str) -> (r: Result<String, ParamError>)
        ensures
            self.raw(key@) is None ==> r matches Err(ParamError::NotFound),
            self.raw(key@) matches Some(t) ==> {
                &&& r is Ok <==> valid_utf8(decoded_value(t))
                &&& r matches Ok(s) ==> s@ == decode_utf8(decoded_value(t))
                &&& r matches Err(e) ==> e is Decode
                &&& r matches Err(ParamError::Decode(e)) ==> e == utf8_error_of(decoded_value(t))
            },
    {
        match self.get_raw(key) {
            None => Err(ParamError::NotFound),
            Some(bytes) => match utf8_text(bytes) {
                Ok(s) => Ok(s),
                Err(e) => Err(ParamError::Decode(e)),
            },
        }
    }

    /// The bytes bound to `key`, percent-decoded.
    pub fn get_raw(&self, key: &str) -> (r: Option<Vec<u8>>)
        ensures
            self.raw(key@) is None ==> r is None,
            self.raw(key@) matches Some(t) ==> r matches Some(v) && v@ == decoded_value(t),
    {
        match capture_named(self.regex, self.subject, key) {
            Some(text) => Some(decode_percent(text)),
            None => None,
        }
    }

    /// The text taken by the unnamed wildcard, as it stands in the path.
    pub fn wildcard(&self) -> (r: Option<&'a str>)
        ensures
            self.wildcard_group() is None ==> r is None,
            self.wildcard_group() matches Some(g) ==> match numbered_group(
                self.source(),
                self.subject(),
                g as nat,
            ) {
                Some(t) => r matches Some(w) && w@ == t,
                None => r is None,
            },
    {
        match self.wildcard_group {
            Some(g) => capture_numbered(self.regex, self.subject, g),
            None => None,
        }
    }
}

} // verus!
