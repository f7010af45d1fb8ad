//! Declarations and wrappers for the outside crates and for the few std
//! functions that vstd gives no specification.  Everything in this module
//! is taken on trust; each item's doc comment names the outside function
//! it relies on.

use vstd::prelude::*;

use reqwest::blocking::Client as HttpClient;

verus! {

// ---------------------------------------------------------------------------
// std: String::push and char::from_u32
// ---------------------------------------------------------------------------

/// Relies on alloc::string::String::push: appends the given character to
/// the end of the string.
pub assume_specification[ String::push ](s: &mut String, ch: char)
    ensures
        final(s)@ == old(s)@.push(ch),
;

/// Relies on char::from_u32: returns the character with the given code
/// point, or None when the value is a surrogate (0xD800..=0xDFFF) or
/// above 0x10FFFF.
pub assume_specification[ char::from_u32 ](u: u32) -> (r: Option<char>)
    ensures
        r is Some <==> (u < 0xD800 || (0xE000 <= u && u <= 0x10FFFF)),
        r matches Some(c) ==> c as u32 == u,
;

// ---------------------------------------------------------------------------
// url
// ---------------------------------------------------------------------------

#[verifier::external_type_specification]
#[verifier::external_body]
pub struct ExUrlParseError(url::ParseError);

/// The result of parsing and re-serializing a URL with the url crate:
/// `Some` of the normalized serialization when the text is a valid URL,
/// `None` when it is not.
pub uninterp spec fn url_norm(s: Seq<char>) -> Option<Seq<char>>;

/// Relies on url::Url::parse and url::Url::as_str: parsing validates the
/// text as a URL and as_str returns its normalized serialization.  Both
/// depend on the input text alone.
#[verifier::external_body]
pub fn parse_and_normalize(s: &str) -> (r: Result<String, url::ParseError>)
    ensures
        r is Ok <==> url_norm(s@) is Some,
        r matches Ok(n) ==> url_norm(s@) == Some(n@),
{
    match url::Url::parse(s) {
        Ok(u) => Ok(u.as_str().to_string()),
        Err(e) => Err(e),
    }
}

/// Relies on url::ParseError's Display impl for a short human-readable
/// description of the parse failure.
#[verifier::external_body]
pub fn url_error_text(e: &url::ParseError) -> String {
    e.to_string()
}

// ---------------------------------------------------------------------------
// reqwest
// ---------------------------------------------------------------------------

#[verifier::external_type_specification]
#[verifier::external_body]
pub struct ExHttpClient(HttpClient);

/// Relies on the derived Clone of reqwest's blocking client: the struct
/// holds one Arc-based handle, so the clone is a handle to the same
/// underlying client.
pub assume_specification[ <HttpClient as Clone>::clone ](c: &HttpClient) -> (r: HttpClient)
    ensures
        r == *c,
;

/// Relies on reqwest's blocking client constructor to build a client
/// with default settings.  It panics only when the runtime backing the
/// client cannot be initialized, an environment failure independent of
/// any input.
#[verifier::external_body]
pub fn new_http_client() -> HttpClient {
    HttpClient::new()
}

} // verus!
