//! Computations on plain values that only an outside library performs:
//! UTF-8 decoding, base64 encoding, and reading times and URLs into
//! `Time` and `SchemaUrl`, which hold only texts those crates write.

use vstd::prelude::*;
use vstd::utf8::{decode_utf8, valid_utf8};
use base64::Engine;
use std::str::FromStr;

verus! {

/// The standard base64 alphabet, with padding, applied to some bytes.
pub uninterp spec fn base64_standard(bytes: Seq<u8>) -> Seq<char>;

/// The RFC 3339 text (as chrono writes it, in UTC) of the time that chrono
/// reads from a text, or `None` where chrono reads no time from it.
pub uninterp spec fn rfc3339_time(text: Seq<char>) -> Option<Seq<char>>;

/// The serialization of the URL that the `url` crate parses from a text, or
/// `None` where the text is not a URL.
pub uninterp spec fn url_serialization(text: Seq<char>) -> Option<Seq<char>>;

/// `String::from_utf8`: the text that some bytes encode, `None` where they are
/// not UTF-8.
#[verifier::external_body]
pub(crate) fn utf8_to_string(bytes: Vec<u8>) -> (r: Option<String>)
    ensures
        r is Some <==> valid_utf8(bytes@),
        r matches Some(s) ==> s@ == decode_utf8(bytes@),
{
    match String::from_utf8(bytes) {
        Ok(s) => Some(s),
        Err(_) => None,
    }
}

/// `base64::engine::general_purpose::STANDARD.encode`: the bytes in the
/// standard base64 alphabet, with padding.
#[verifier::external_body]
pub(crate) fn base64_encode(bytes: &[u8]) -> (r: String)
    ensures
        r@ == base64_standard(bytes@),
{
    base64::engine::general_purpose::STANDARD.encode(bytes)
}

/// `DateTime::<Utc>::from_str`: the time that chrono reads from a text, as
/// the RFC 3339 text that `to_rfc3339` writes of it; `None` where chrono
/// reads no time. (The time leaves the outside type as that text.)
///
/// The text it gives reads back as the same time, and so is written as
/// itself: `write_rfc3339` writes the year with its sign where it is outside
/// 0..=9999, a leap second as second 60, the fraction in 3, 6 or 9 digits
/// and the offset as `+00:00`, and `parse_rfc3339_relaxed` reads each of
/// these back.
#[verifier::external_body]
fn parse_time(text: &str) -> (r: Option<String>)
    ensures
        r matches Some(s) ==> rfc3339_time(text@) == Some(s@),
        r is None ==> rfc3339_time(text@) is None,
        r matches Some(s) ==> rfc3339_time(s@) == Some(s@),
{
    match chrono::DateTime::<chrono::Utc>::from_str(text) {
        Ok(t) => Some(t.to_rfc3339()),
        Err(_) => None,
    }
}

/// `Url::from_str`: the URL parsed from a text, as its serialization
/// (`String::from(Url)`); `None` where the text is not a URL.
///
/// A serialization parses back to the same serialization: `Url`'s own
/// `check_invariants` requires `Url::parse(self.as_str())` to succeed with
/// an equal serialization.
#[verifier::external_body]
fn parse_url(text: &str) -> (r: Option<String>)
    ensures
        r matches Some(s) ==> url_serialization(text@) == Some(s@),
        r is None ==> url_serialization(text@) is None,
        r matches Some(s) ==> url_serialization(s@) == Some(s@),
{
    match url::Url::from_str(text) {
        Ok(u) => Some(String::from(u)),
        Err(_) => None,
    }
}

/// A text that chrono writes of a time: it reads back as itself.
pub open spec fn is_written_time(t: Seq<char>) -> bool {
    rfc3339_time(t) == Some(t)
}

/// A text that the `url` crate writes of a URL: it parses back as itself.
pub open spec fn is_url_serialization(u: Seq<char>) -> bool {
    url_serialization(u) == Some(u)
}

/// A time, held as the RFC 3339 text that chrono writes of it.
#[derive(Debug, PartialEq, Eq)]
pub struct Time {
    text: String,
}

impl Time {
    #[verifier::type_invariant]
    spec fn written(self) -> bool {
        is_written_time(self.text@)
    }

    /// The text of the time.
    pub closed spec fn text(self) -> Seq<char> {
        self.text@
    }

    /// The time that chrono reads from a text, `None` where it reads none.
    pub fn read(text: &str) -> (r: Option<Time>)
        ensures
            match r {
                Some(t) => rfc3339_time(text@) == Some(t.text()) && is_written_time(t.text()),
                None => rfc3339_time(text@) is None,
            },
    {
        match parse_time(text) {
            Some(s) => Some(Time { text: s }),
            None => None,
        }
    }

    /// The RFC 3339 text of the time.
    pub fn as_str(&self) -> (r: &str)
        ensures
            r@ == self.text(),
            is_written_time(r@),
    {
        proof {
            use_type_invariant(self);
        }
        self.text.as_str()
    }
}

/// A URL, held as its serialization.
#[derive(Debug, PartialEq, Eq)]
pub struct SchemaUrl {
    text: String,
}

impl SchemaUrl {
    #[verifier::type_invariant]
    spec fn serialized(self) -> bool {
        is_url_serialization(self.text@)
    }

    /// The serialization of the URL.
    pub closed spec fn text(self) -> Seq<char> {
        self.text@
    }

    /// The URL that the `url` crate parses from a text, `None` where the text
    /// is not a URL.
    pub fn read(text: &str) -> (r: Option<SchemaUrl>)
        ensures
            match r {
                Some(u) => url_serialization(text@) == Some(u.text()) && is_url_serialization(
                    u.text(),
                ),
                None => url_serialization(text@) is None,
            },
    {
        match parse_url(text) {
            Some(s) => Some(SchemaUrl { text: s }),
            None => None,
        }
    }

    /// The serialization of the URL.
    pub fn as_str(&self) -> (r: &str)
        ensures
            r@ == self.text(),
            is_url_serialization(r@),
    {
        proof {
            use_type_invariant(self);
        }
        self.text.as_str()
    }
}

} // verus!
