//! What the library takes from the `http` crate and from the clock, each behind one small
//! function whose contract is taken on trust.
use vstd::prelude::*;

verus! {

/// A header map of the `http` crate; Verus sees nothing inside it.
#[verifier::external_type_specification]
#[verifier::external_body]
#[verifier::reject_recursive_types(T)]
pub struct ExHeaderMap<T>(http::HeaderMap<T>);

/// A header value of the `http` crate; Verus sees nothing inside it.
#[verifier::external_type_specification]
#[verifier::external_body]
pub struct ExHeaderValue(http::HeaderValue);

/// A reading of std's monotonic clock; Verus sees nothing inside it.
#[verifier::external_type_specification]
#[verifier::external_body]
pub struct ExInstant(std::time::Instant);

/// What a header map holds: the bytes of the first value stored under each header name, with the
/// names in lower case.
pub uninterp spec fn first_values(headers: http::HeaderMap<http::HeaderValue>) -> Map<
    Seq<char>,
    Seq<u8>,
>;

/// A header name that needs no normalizing: 1 to 64 letters `a` to `z` and hyphens.
pub open spec fn plain_name(name: Seq<char>) -> bool {
    &&& 1 <= name.len() <= 64
    &&& forall|i: int| 0 <= i < name.len() ==> ('a' <= #[trigger] name[i] <= 'z' || name[i] == '-')
}

/// `http::HeaderMap::get`, with the value handed out as bytes: the first value stored under
/// `name`, if there is one.
#[verifier::external_body]
pub(crate) fn header_bytes(headers: &http::HeaderMap<http::HeaderValue>, name: &str) -> (r: Option<
    Vec<u8>,
>)
    requires
        plain_name(name@),
    ensures
        r is Some <==> first_values(*headers).contains_key(name@),
        r is Some ==> r->0@ == first_values(*headers)[name@],
{
    headers.get(name).map(|value| value.as_bytes().to_vec())
}

/// A byte that `http::HeaderValue::to_str` takes: a visible ASCII character, a space or a tab.
pub open spec fn text_byte(b: u8) -> bool {
    32 <= b < 127 || b == 9
}

/// Bytes that form a header text.
pub open spec fn is_header_text(bytes: Seq<u8>) -> bool {
    forall|i: int| 0 <= i < bytes.len() ==> text_byte(#[trigger] bytes[i])
}

/// `http::HeaderValue::to_str`, on the value that `http::HeaderValue::from_bytes` makes of
/// `bytes`: the bytes as ASCII text, if all of them are text bytes.
#[verifier::external_body]
pub(crate) fn header_text(bytes: &[u8]) -> (r: Option<String>)
    ensures
        r is Some <==> is_header_text(bytes@),
        r is Some ==> r->0@ == Seq::new(bytes@.len(), |i: int| bytes@[i] as char),
{
    let value = http::HeaderValue::from_bytes(bytes).ok()?;
    value.to_str().ok().map(str::to_owned)
}

/// The parts of a URI that the library reads.
pub struct UriParts {
    pub scheme: Option<String>,
    pub path: String,
}

/// What [`UriParts`] holds: the scheme, if there is one, and the path.
pub open spec fn parts_view(parts: Option<UriParts>) -> Option<(Option<Seq<char>>, Seq<char>)> {
    match parts {
        Some(p) => Some((match p.scheme {
            Some(s) => Some(s@),
            None => None,
        }, p.path@)),
        None => None,
    }
}

/// The scheme and the path that the `http` crate reads out of a URI; `None` for a text that is
/// no URI.
pub uninterp spec fn uri_of(text: Seq<char>) -> Option<(Option<Seq<char>>, Seq<char>)>;

/// `http::Uri`'s `from_str`, with the URI handed out as its `scheme_str` and `path`.
#[verifier::external_body]
pub(crate) fn parse_uri(text: &str) -> (r: Option<UriParts>)
    ensures
        parts_view(r) == uri_of(text@),
{
    let uri: http::Uri = text.parse().ok()?;
    Some(UriParts { scheme: uri.scheme_str().map(str::to_owned), path: uri.path().to_owned() })
}

/// `std::time::Instant::now`: a reading of the clock, of which nothing is known.
#[verifier::external_body]
pub(crate) fn instant_now() -> std::time::Instant {
    std::time::Instant::now()
}

/// `std::time::Instant::elapsed`, in nanoseconds: how much time has passed since `start`, of
/// which nothing is known.
#[verifier::external_body]
pub(crate) fn nanos_since(start: &std::time::Instant) -> u128 {
    start.elapsed().as_nanos()
}

} // verus!
