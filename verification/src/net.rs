//! What the `url` and `reqwest` crates compute for this library.
//!
//! Both functions of this module are trusted: each makes one outside call, and
//! Verus takes its contract as given.

use vstd::prelude::*;

verus! {

/// What `url::Url::parse` makes of `input`: the scheme of the URL, or the text of
/// the error.
pub uninterp spec fn parsed_scheme(input: Seq<char>) -> Result<Seq<char>, Seq<char>>;

/// The characters of an ASCII text, given as bytes.
pub open spec fn ascii_text(bytes: Seq<u8>) -> Seq<char> {
    bytes.map_values(|b: u8| b as char)
}

/// A byte that a header may show as text: a visible ASCII character, a space or a
/// tab.
pub open spec fn is_visible(byte: u8) -> bool {
    32 <= byte < 127 || byte == 9
}

/// The text of a header value: there is one where every byte is visible ASCII.
pub open spec fn header_text(value: Seq<u8>) -> Option<Seq<char>> {
    if forall|i: int| 0 <= i < value.len() ==> is_visible(#[trigger] value[i]) {
        Some(ascii_text(value))
    } else {
        None
    }
}

/// Calls `url::Url::parse`. What it makes of the text has the name
/// `parsed_scheme`: of a URL the scheme is handed on (`url::Url::scheme`), of an
/// error the text that it displays. Nothing is claimed of either beyond the name.
#[verifier::external_body]
pub(crate) fn parse_scheme(input: &str) -> (parsed: Result<String, String>)
    ensures
        match parsed {
            Ok(scheme) => parsed_scheme(input@) == Ok::<Seq<char>, Seq<char>>(scheme@),
            Err(reason) => parsed_scheme(input@) == Err::<Seq<char>, Seq<char>>(reason@),
        },
{
    match url::Url::parse(input) {
        Ok(url) => Ok(url.scheme().to_string()),
        Err(error) => Err(error.to_string()),
    }
}

/// Calls `reqwest::header::HeaderValue::to_str` on the header value that the bytes
/// make. It yields the bytes as text where all of them are visible ASCII; bytes
/// that make no header value at all hold one that is not.
#[verifier::external_body]
pub(crate) fn header_to_str(value: &[u8]) -> (text: Option<String>)
    ensures
        text is Some <==> header_text(value@) is Some,
        text matches Some(t) ==> header_text(value@) == Some(t@),
{
    let value = reqwest::header::HeaderValue::from_bytes(value).ok()?;
    value.to_str().ok().map(|text| text.to_string())
}

} // verus!
