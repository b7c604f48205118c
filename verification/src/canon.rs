//! Canonical text forms of the specialized scalar values the resources
//! carry: UUIDs, URIs, RFC3339 timestamps and base64 binary data. Each
//! parser of an outside crate is reached through one trusted wrapper whose
//! contract names the canonical form it computes.

use vstd::prelude::*;

verus! {

/// The canonical form of a UUID text, or nothing where the text is not a
/// UUID.
pub uninterp spec fn uuid_canon(s: Seq<char>) -> Option<Seq<char>>;

/// The canonical form of a URI text, or nothing where the text is not a
/// URI.
pub uninterp spec fn url_canon(s: Seq<char>) -> Option<Seq<char>>;

/// The canonical form of an RFC3339 timestamp text, or nothing where the
/// text is not such a timestamp.
pub uninterp spec fn rfc3339_canon(s: Seq<char>) -> Option<Seq<char>>;

/// The canonical (URL-safe, non-padded) form of a base64 text, or nothing
/// where the text is not base64.
pub uninterp spec fn b64_canon(s: Seq<char>) -> Option<Seq<char>>;

/// Relies on uuid's `Uuid::parse_str` and its hyphenated `Display` form:
/// the result depends on the text alone, and reparsing the canonical
/// (lowercase hyphenated) text yields the same canonical text again.
#[verifier::external_body]
pub fn canon_uuid(s: &str) -> (r: Option<String>)
    ensures
        match r {
            Some(c) => uuid_canon(s@) == Some(c@) && uuid_canon(c@) == Some(c@),
            None => uuid_canon(s@) is None,
        },
{
    uuid::Uuid::parse_str(s).ok().map(|u| u.to_string())
}

/// Relies on url's `Url::parse` and `Url::as_str`: the result depends on
/// the text alone, and reparsing a parsed URL's serialization yields the
/// same serialization again.
#[verifier::external_body]
pub fn canon_url(s: &str) -> (r: Option<String>)
    ensures
        match r {
            Some(c) => url_canon(s@) == Some(c@) && url_canon(c@) == Some(c@),
            None => url_canon(s@) is None,
        },
{
    url::Url::parse(s).ok().map(|u| u.as_str().to_string())
}

/// Relies on time's `OffsetDateTime::parse` and `OffsetDateTime::format`
/// with the RFC3339 well-known description: the result depends on the text
/// alone, and reformatting a reparsed canonical timestamp yields the same
/// text again.
#[verifier::external_body]
pub fn canon_rfc3339(s: &str) -> (r: Option<String>)
    ensures
        match r {
            Some(c) => rfc3339_canon(s@) == Some(c@) && rfc3339_canon(c@) == Some(c@),
            None => rfc3339_canon(s@) is None,
        },
{
    time::OffsetDateTime::parse(s, &time::format_description::well_known::Rfc3339)
        .ok()
        .and_then(|t| t.format(&time::format_description::well_known::Rfc3339).ok())
}

/// Relies on base64urlsafedata's `TryFrom<&str>` (which accepts the
/// URL-safe and standard alphabets, padded or not) and its `Display` form
/// (URL-safe without padding): the result depends on the text alone, and
/// re-decoding the canonical encoding yields the same encoding again.
#[verifier::external_body]
pub fn canon_b64(s: &str) -> (r: Option<String>)
    ensures
        match r {
            Some(c) => b64_canon(s@) == Some(c@) && b64_canon(c@) == Some(c@),
            None => b64_canon(s@) is None,
        },
{
    base64urlsafedata::Base64UrlSafeData::try_from(s).ok().map(|d| d.to_string())
}

} // verus!
