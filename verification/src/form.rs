//! Addresses with query parameters, as the `reqwest` crate makes them.
use vstd::prelude::*;
use vstd::utf8::{encode_utf8, is_ascii_chars, is_ascii_chars_encode_utf8};

verus! {

/// Whether a byte stands for itself in a query parameter: a letter, a digit,
/// or one of `*`, `-`, `.` and `_`.
pub open spec fn is_unreserved(b: u8) -> bool {
    ||| 0x30 <= b <= 0x39
    ||| 0x41 <= b <= 0x5a
    ||| 0x61 <= b <= 0x7a
    ||| b == 0x2a
    ||| b == 0x2d
    ||| b == 0x2e
    ||| b == 0x5f
}

/// The upper-case hexadecimal digit of a number below sixteen.
pub open spec fn hex_digit(n: u8) -> char {
    if n < 10 {
        (0x30 + n) as char
    } else {
        (0x41 + n - 10) as char
    }
}

/// A byte in a query parameter: itself, a plus sign for the space, or a percent
/// sign and two hexadecimal digits.
pub open spec fn encoded_byte(b: u8) -> Seq<char> {
    if is_unreserved(b) {
        seq![b as char]
    } else if b == 0x20 {
        seq!['+']
    } else {
        seq!['%', hex_digit(b / 16), hex_digit(b % 16)]
    }
}

/// Bytes in a query parameter.
pub open spec fn encoded_bytes(bytes: Seq<u8>) -> Seq<char>
    decreases bytes.len(),
{
    if bytes.len() == 0 {
        Seq::empty()
    } else {
        encoded_byte(bytes[0]) + encoded_bytes(bytes.skip(1))
    }
}

/// A text in a query parameter.
pub open spec fn encoded(text: Seq<char>) -> Seq<char> {
    encoded_bytes(encode_utf8(text))
}

/// A query: names and values with an equals sign between them, and an
/// ampersand between one pair and the next.
pub open spec fn query(params: Seq<(Seq<char>, Seq<char>)>) -> Seq<char>
    decreases params.len(),
{
    if params.len() == 0 {
        Seq::empty()
    } else {
        let pair = encoded(params.last().0) + "="@ + encoded(params.last().1);
        if params.len() == 1 {
            pair
        } else {
            query(params.drop_last()) + "&"@ + pair
        }
    }
}

/// The texts of pairs of strings.
pub open spec fn pair_texts(pairs: Seq<(&str, &str)>) -> Seq<(Seq<char>, Seq<char>)> {
    pairs.map_values(|pair: (&str, &str)| (pair.0@, pair.1@))
}

/// `Url::parse_with_params` on the site's address gives that address with the
/// parameters as its query. Other bases, which it would bring into its own
/// form first, are left out.
#[verifier::external_body]
pub(crate) fn parse_with_params(base: &str, params: &Vec<(&str, &str)>) -> (r: Option<String>)
    requires
        base@ == "https://lucida.to/"@,
    ensures
        r is Some,
        r->0@ == base@ + "?"@ + query(pair_texts(params@)),
{
    reqwest::Url::parse_with_params(base, params).ok().map(String::from)
}

/// Unreserved characters of ASCII stand for themselves.
pub proof fn lemma_encoded_plain(text: Seq<char>)
    requires
        is_ascii_chars(text),
        forall|i: int| 0 <= i < text.len() ==> is_unreserved(#[trigger] text[i] as u8),
    ensures
        encoded(text) == text,
{
    is_ascii_chars_encode_utf8(text);
    lemma_encoded_bytes_plain(text, encode_utf8(text));
}

proof fn lemma_encoded_bytes_plain(text: Seq<char>, bytes: Seq<u8>)
    requires
        is_ascii_chars(text),
        bytes.len() == text.len(),
        forall|i: int| 0 <= i < text.len() ==> #[trigger] bytes[i] == text[i] as u8,
        forall|i: int| 0 <= i < text.len() ==> is_unreserved(#[trigger] text[i] as u8),
    ensures
        encoded_bytes(bytes) == text,
    decreases text.len(),
{
    if text.len() > 0 {
        let rest = text.skip(1);
        assert forall|i: int| 0 <= i < rest.len() implies #[trigger] bytes.skip(1)[i]
            == rest[i] as u8 by {
            assert(bytes[i + 1] == text[i + 1] as u8);
        }
        assert forall|i: int| 0 <= i < rest.len() implies is_unreserved(
            #[trigger] rest[i] as u8,
        ) by {
            assert(is_unreserved(text[i + 1] as u8));
        }
        lemma_encoded_bytes_plain(rest, bytes.skip(1));
        assert(bytes[0] == text[0] as u8);
        assert('\0' <= text[0] <= '\u{7f}');
        assert(bytes[0] as char == text[0]);
        assert(seq![text[0]] + rest =~= text);
    } else {
        assert(encoded_bytes(bytes) =~= text);
    }
}

/// Whether a character can stand in a query parameter.
pub open spec fn is_parameter_char(c: char) -> bool {
    is_unreserved(c as u8) && c as u32 <= 0x7f || c == '+' || c == '%'
}

proof fn lemma_encoded_bytes_chars(bytes: Seq<u8>)
    ensures
        forall|i: int|
            0 <= i < encoded_bytes(bytes).len() ==> is_parameter_char(
                #[trigger] encoded_bytes(bytes)[i],
            ),
    decreases bytes.len(),
{
    if bytes.len() > 0 {
        lemma_encoded_bytes_chars(bytes.skip(1));
        let b = bytes[0];
        let first = encoded_byte(b);
        let rest = encoded_bytes(bytes.skip(1));
        assert(b / 16 < 16 && b % 16 < 16);
        assert forall|i: int| 0 <= i < encoded_bytes(bytes).len() implies is_parameter_char(
            #[trigger] encoded_bytes(bytes)[i],
        ) by {
            if i >= first.len() {
                assert(encoded_bytes(bytes)[i] == rest[i - first.len()]);
            }
        }
    }
}

/// A value cannot end its parameter, the query or the address: neither an
/// ampersand, an equals sign nor a hash is left in it.
pub proof fn law_value_stays_in_its_parameter(text: Seq<char>)
    ensures
        !encoded(text).contains('&'),
        !encoded(text).contains('='),
        !encoded(text).contains('#'),
{
    lemma_encoded_bytes_chars(encode_utf8(text));
}

} // verus!
