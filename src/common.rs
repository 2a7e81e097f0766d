//! Items shared by requests and responses.

use vstd::prelude::*;
use vstd::utf8::encode_utf8;

verus! {

/// The protocol version; only HTTP/1.1 is spoken.
#[derive(Debug, Clone, Copy, PartialEq, Eq, Structural)]
pub enum HTTPVersion {
    V1_1,
}

pub open spec fn version_text(v: HTTPVersion) -> Seq<char> {
    match v {
        HTTPVersion::V1_1 => "HTTP/1.1"@,
    }
}

impl HTTPVersion {
    /// Reads a version token; only `HTTP/1.1` is known.
    pub fn from_bytes(t: &[u8]) -> (r: Option<HTTPVersion>)
        ensures
            r is Some <==> t@ == encode_utf8(version_text(HTTPVersion::V1_1)),
            r matches Some(v) ==> v == HTTPVersion::V1_1,
    {
        if crate::bytes::bytes_eq(t, "HTTP/1.1".as_bytes()) {
            Some(HTTPVersion::V1_1)
        } else {
            None
        }
    }

    /// The version as it appears on the wire.
    pub fn as_str(&self) -> (r: &'static str)
        ensures
            r@ == version_text(*self),
    {
        match self {
            HTTPVersion::V1_1 => "HTTP/1.1",
        }
    }
}

/// The IMF-fixdate text of an instant given in seconds since the Unix epoch,
/// such as `Tue, 26 Apr 2022 12:24:36 GMT` (RFC 7231, 7.1.1.1).
pub uninterp spec fn imf_text_of(secs: i64) -> Seq<char>;

/// Instants well inside chrono's dates (years -262143 to 262142): within
/// about 253,000 years of 1970.
pub open spec fn imf_in_range(secs: i64) -> bool {
    -8_000_000_000_000 <= secs && secs <= 8_000_000_000_000
}

/// Relies on chrono: `DateTime::<Utc>::from_timestamp`, which fails only for
/// instants outside its range, then `format` with the IMF-fixdate pattern.
#[verifier::external_body]
fn format_imf(secs: i64) -> (r: Option<String>)
    ensures
        imf_in_range(secs) ==> r is Some,
        r matches Some(s) ==> s@ == imf_text_of(secs),
{
    match chrono::DateTime::<chrono::Utc>::from_timestamp(secs, 0) {
        Some(d) => Some(d.format("%a, %d %b %Y %H:%M:%S GMT").to_string()),
        None => None,
    }
}

/// Relies on `chrono::Utc::now`: the current time, in whole seconds since the
/// Unix epoch.
#[verifier::external_body]
fn unix_now() -> (r: i64) {
    chrono::Utc::now().timestamp()
}

/// An instant as used in the `Date` header, in seconds since the Unix epoch.
#[derive(Debug, Clone, Copy, PartialEq, Eq, Structural)]
pub struct IMFDateTime {
    pub secs: i64,
}

impl IMFDateTime {
    pub fn new(secs: i64) -> (r: IMFDateTime)
        ensures
            r.secs == secs,
    {
        IMFDateTime { secs }
    }

    /// The current time.
    pub fn now() -> IMFDateTime {
        IMFDateTime { secs: unix_now() }
    }

    /// The instant in IMF-fixdate form, when it is within the supported range.
    pub fn to_string(&self) -> (r: Option<String>)
        ensures
            imf_in_range(self.secs) ==> r is Some,
            r matches Some(s) ==> s@ == imf_text_of(self.secs),
    {
        format_imf(self.secs)
    }
}

} // verus!
