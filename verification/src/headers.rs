//! HTTP header maps, as the `reqwest` crate provides them.
use reqwest::header::{HeaderMap, HeaderValue, InvalidHeaderValue};
use vstd::prelude::*;
use vstd::utf8::encode_utf8;

verus! {

#[verifier::external_type_specification]
#[verifier::external_body]
pub struct ExHeaderValue(HeaderValue);

#[verifier::external_type_specification]
#[verifier::external_body]
pub struct ExInvalidHeaderValue(InvalidHeaderValue);

#[verifier::external_type_specification]
#[verifier::external_body]
#[verifier::reject_recursive_types(T)]
pub struct ExHeaderMap<T>(HeaderMap<T>);

/// The bytes of a header value.
pub uninterp spec fn value_bytes(value: HeaderValue) -> Seq<u8>;

/// The fields of a header map: under each name the bytes of its first value.
pub uninterp spec fn fields(headers: HeaderMap<HeaderValue>) -> Map<Seq<char>, Seq<u8>>;

/// The fields of an empty header map.
pub open spec fn no_fields() -> Map<Seq<char>, Seq<u8>> {
    Map::empty()
}

/// Whether a text can be the value of a header: no control character stands
/// in its bytes but the tab.
pub open spec fn is_header_text(text: Seq<char>) -> bool {
    forall|i: int|
        0 <= i < encode_utf8(text).len() ==> {
            let b = #[trigger] encode_utf8(text)[i];
            (b >= 32 && b != 127) || b == 9
        }
}

/// Whether a character is a visible one of ASCII, or the space.
pub open spec fn is_visible(c: char) -> bool {
    32 <= c as u32 && (c as u32) < 127
}

/// Whether the first `n` characters of a text are visible ones of ASCII.
pub open spec fn visible_to(text: Seq<char>, n: nat) -> bool
    decreases n,
{
    n == 0 || (is_visible(text[n - 1]) && visible_to(text, (n - 1) as nat))
}

/// Whether a text can name a header: one to sixty-four lower-case letters and
/// hyphens.
pub open spec fn is_field_name(name: Seq<char>) -> bool {
    0 < name.len() <= 64 && lower_to(name, name.len())
}

/// Whether the first `n` characters of a text are lower-case letters or
/// hyphens.
pub open spec fn lower_to(text: Seq<char>, n: nat) -> bool
    decreases n,
{
    n == 0 || (('a' <= text[n - 1] <= 'z' || text[n - 1] == '-') && lower_to(
        text,
        (n - 1) as nat,
    ))
}

/// `HeaderValue::from_str` accepts a text exactly if no byte of it is a
/// control character other than the tab, and keeps its bytes.
pub assume_specification[ HeaderValue::from_str ](src: &str) -> (r: Result<
    HeaderValue,
    InvalidHeaderValue,
>)
    ensures
        r is Ok <==> is_header_text(src@),
        r matches Ok(value) ==> value_bytes(value) == encode_utf8(src@),
;

/// `HeaderValue::from_static` keeps the bytes of a text of visible ASCII
/// characters. It panics on others, which are left out.
pub assume_specification[ HeaderValue::from_static ](src: &'static str) -> (r: HeaderValue)
    requires
        visible_to(src@, src@.len()),
    ensures
        value_bytes(r) == encode_utf8(src@),
;

/// `HeaderMap::new` makes a map without fields.
#[verifier::external_body]
pub(crate) fn no_headers() -> (r: HeaderMap<HeaderValue>)
    ensures
        fields(r) == no_fields(),
{
    HeaderMap::new()
}

/// `HeaderMap::insert` sets the field of that name to that value alone and
/// leaves the other fields. It panics on a bad name and on a map that has
/// grown too large, which are left out.
#[verifier::external_body]
pub(crate) fn insert(headers: &mut HeaderMap<HeaderValue>, name: &'static str, value: HeaderValue)
    requires
        is_field_name(name@),
        fields(*old(headers)).dom().finite(),
        fields(*old(headers)).len() < 64,
    ensures
        fields(*final(headers)) == fields(*old(headers)).insert(name@, value_bytes(value)),
{
    headers.insert(name, value);
}

} // verus!
