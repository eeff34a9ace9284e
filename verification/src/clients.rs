//! The headers that the downloader's HTTP clients send with every request.
use crate::headers::{
    fields, insert, is_field_name, is_header_text, lower_to, no_fields, no_headers, visible_to,
};
use crate::text::{contains, mentions};
use reqwest::header::{HeaderMap, HeaderValue};
use vstd::prelude::*;
use vstd::utf8::encode_utf8;

verus! {

/// The media types that a page is asked for with a browser's cookies.
pub const ACCEPT_PAGE: &'static str =
    "text/html,application/xhtml+xml,application/xml;q=0.9,image/avif,image/webp,*/*;q=0.8";

/// The media types that a page is asked for with a given clearance cookie.
pub const ACCEPT_BROWSER: &'static str =
    "text/html,application/xhtml+xml,application/xml;q=0.9,image/avif,image/webp,image/apng,*/*;q=0.8,application/signed-exchange;v=b3;q=0.7";

pub const ACCEPT_LANGUAGES: &'static str = "en-US,en;q=0.9";

pub const REFERER: &'static str = "https://lucida.to/";

pub const SEC_CH_UA: &'static str = "\"Chromium\";v=\"149\", \"Not)A;Brand\";v=\"24\"";

/// How long a client with a browser's cookies waits for a reply, in seconds.
pub const TIMEOUT_SECONDS: u64 = 30;

/// The names of the headers can name headers.
proof fn lemma_names()
    ensures
        is_field_name("accept"@),
        is_field_name("accept-language"@),
        is_field_name("cookie"@),
        is_field_name("referer"@),
        is_field_name("sec-ch-ua"@),
        is_field_name("sec-ch-ua-mobile"@),
        is_field_name("sec-ch-ua-platform"@),
        is_field_name("sec-fetch-dest"@),
        is_field_name("sec-fetch-mode"@),
        is_field_name("sec-fetch-site"@),
        is_field_name("sec-fetch-user"@),
        is_field_name("upgrade-insecure-requests"@),
        is_field_name("user-agent"@),
{
    reveal_with_fuel(lower_to, 30);
    reveal_strlit("accept");
    reveal_strlit("accept-language");
    reveal_strlit("cookie");
    reveal_strlit("referer");
    reveal_strlit("sec-ch-ua");
    reveal_strlit("sec-ch-ua-mobile");
    reveal_strlit("sec-ch-ua-platform");
    reveal_strlit("sec-fetch-dest");
    reveal_strlit("sec-fetch-mode");
    reveal_strlit("sec-fetch-site");
    reveal_strlit("sec-fetch-user");
    reveal_strlit("upgrade-insecure-requests");
    reveal_strlit("user-agent");
}

/// The fixed header values are visible.
proof fn lemma_values()
    ensures
        visible_to(ACCEPT_LANGUAGES@, ACCEPT_LANGUAGES@.len()),
        visible_to(REFERER@, REFERER@.len()),
        visible_to(SEC_CH_UA@, SEC_CH_UA@.len()),
        visible_to("1"@, "1"@.len()),
        visible_to("?0"@, "?0"@.len()),
        visible_to("?1"@, "?1"@.len()),
        visible_to("\"Linux\""@, "\"Linux\""@.len()),
        visible_to("document"@, "document"@.len()),
        visible_to("navigate"@, "navigate"@.len()),
        visible_to("same-origin"@, "same-origin"@.len()),
{
    reveal_with_fuel(visible_to, 50);
    reveal_strlit("en-US,en;q=0.9");
    reveal_strlit("https://lucida.to/");
    reveal_strlit("\"Chromium\";v=\"149\", \"Not)A;Brand\";v=\"24\"");
    reveal_strlit("1");
    reveal_strlit("?0");
    reveal_strlit("?1");
    reveal_strlit("\"Linux\"");
    reveal_strlit("document");
    reveal_strlit("navigate");
    reveal_strlit("same-origin");
}

/// The lists of media types are visible.
proof fn lemma_media_types()
    ensures
        visible_to(ACCEPT_PAGE@, ACCEPT_PAGE@.len()),
        visible_to(ACCEPT_BROWSER@, ACCEPT_BROWSER@.len()),
{
    reveal_with_fuel(visible_to, 50);
    reveal_strlit(
        "text/html,application/xhtml+xml,application/xml;q=0.9,image/avif,image/webp,*/*;q=0.8",
    );
    reveal_strlit(
        "text/html,application/xhtml+xml,application/xml;q=0.9,image/avif,image/webp,image/apng,*/*;q=0.8,application/signed-exchange;v=b3;q=0.7",
    );
    assert(visible_to(ACCEPT_PAGE@, 40));
    assert(visible_to(ACCEPT_PAGE@, 80));
    assert(visible_to(ACCEPT_BROWSER@, 40));
    assert(visible_to(ACCEPT_BROWSER@, 80));
    assert(visible_to(ACCEPT_BROWSER@, 120));
}

/// The headers of a client that carries a browser's cookies.
pub open spec fn browser_fields(user_agent: Seq<char>, cookies: Seq<char>) -> Map<
    Seq<char>,
    Seq<u8>,
> {
    no_fields().insert("user-agent"@, encode_utf8(user_agent)).insert(
        "referer"@,
        encode_utf8(REFERER@),
    ).insert("accept"@, encode_utf8(ACCEPT_PAGE@)).insert(
        "accept-language"@,
        encode_utf8(ACCEPT_LANGUAGES@),
    ).insert("cookie"@, encode_utf8(cookies))
}

/// Whether a client can carry a browser's cookies under its User-Agent.
pub open spec fn can_carry(user_agent: Seq<char>, cookies: Seq<char>) -> bool {
    is_header_text(user_agent) && is_header_text(cookies)
}

/// Whether a client can be given a clearance cookie.
pub open spec fn can_be_given(cf_clearance: Option<Seq<char>>) -> bool {
    match cf_clearance {
        Some(cookie) => is_header_text("cf_clearance="@ + cookie),
        None => true,
    }
}

/// The headers of a client that carries a browser's cookies; none where the
/// User-Agent or the cookies cannot stand in a header.
pub fn browser_headers(user_agent: &str, cookies: &str) -> (r: Option<HeaderMap<HeaderValue>>)
    ensures
        r is Some <==> is_header_text(user_agent@) && is_header_text(cookies@),
        r is Some <==> can_carry(user_agent@, cookies@),
        r matches Some(headers) ==> fields(headers) == browser_fields(user_agent@, cookies@),
{
    proof {
        lemma_names();
        lemma_values();
        lemma_media_types();
    }
    let user_agent: HeaderValue = match HeaderValue::from_str(user_agent) {
        Ok(value) => value,
        Err(_) => {
            return None;
        },
    };
    let mut headers: HeaderMap<HeaderValue> = no_headers();
    insert(&mut headers, "user-agent", user_agent);
    insert(&mut headers, "referer", HeaderValue::from_static(REFERER));
    insert(&mut headers, "accept", HeaderValue::from_static(ACCEPT_PAGE));
    insert(&mut headers, "accept-language", HeaderValue::from_static(ACCEPT_LANGUAGES));
    let cookies: HeaderValue = match HeaderValue::from_str(cookies) {
        Ok(value) => value,
        Err(_) => {
            return None;
        },
    };
    insert(&mut headers, "cookie", cookies);
    Some(headers)
}

/// Whether a User-Agent is that of Chromium or of a browser made of it.
pub open spec fn is_chromium(user_agent: Option<Seq<char>>) -> bool {
    match user_agent {
        Some(agent) => mentions(agent, "Chrome"@) || mentions(agent, "Chromium"@),
        None => false,
    }
}

/// The headers that come with a given clearance cookie.
pub open spec fn clearance_fields(cf_clearance: Seq<char>) -> Map<Seq<char>, Seq<u8>> {
    no_fields().insert("cookie"@, encode_utf8("cf_clearance="@ + cf_clearance)).insert(
        "accept"@,
        encode_utf8(ACCEPT_BROWSER@),
    ).insert("accept-language"@, encode_utf8(ACCEPT_LANGUAGES@)).insert(
        "upgrade-insecure-requests"@,
        encode_utf8("1"@),
    ).insert("referer"@, encode_utf8(REFERER@))
}

/// The headers that Chromium adds to a navigation.
pub open spec fn with_chromium_fields(headers: Map<Seq<char>, Seq<u8>>) -> Map<Seq<char>, Seq<u8>> {
    headers.insert("sec-ch-ua"@, encode_utf8(SEC_CH_UA@)).insert(
        "sec-ch-ua-mobile"@,
        encode_utf8("?0"@),
    ).insert("sec-ch-ua-platform"@, encode_utf8("\"Linux\""@)).insert(
        "sec-fetch-dest"@,
        encode_utf8("document"@),
    ).insert("sec-fetch-mode"@, encode_utf8("navigate"@)).insert(
        "sec-fetch-site"@,
        encode_utf8("same-origin"@),
    ).insert("sec-fetch-user"@, encode_utf8("?1"@))
}

/// The headers of a client that is given its credentials: none without a
/// clearance cookie; with one, those of a browser, and of Chromium where the
/// User-Agent says so.
pub open spec fn direct_fields(
    cf_clearance: Option<Seq<char>>,
    user_agent: Option<Seq<char>>,
) -> Map<Seq<char>, Seq<u8>> {
    match cf_clearance {
        Some(cookie) => if is_chromium(user_agent) {
            with_chromium_fields(clearance_fields(cookie))
        } else {
            clearance_fields(cookie)
        },
        None => no_fields(),
    }
}

/// The text of an optional string.
pub open spec fn option_text(text: Option<&str>) -> Option<Seq<char>> {
    match text {
        Some(text) => Some(text@),
        None => None,
    }
}

/// The headers of a client that is given its credentials. There are no such
/// headers where the clearance cookie cannot stand in one.
pub fn direct_headers(cf_clearance: Option<&str>, user_agent: Option<&str>) -> (r: Option<
    HeaderMap<HeaderValue>,
>)
    ensures
        r is None <==> cf_clearance is Some && !is_header_text(
            "cf_clearance="@ + cf_clearance->0@,
        ),
        r is Some <==> can_be_given(option_text(cf_clearance)),
        r matches Some(headers) ==> fields(headers) == direct_fields(
            option_text(cf_clearance),
            option_text(user_agent),
        ),
{
    proof {
        lemma_names();
        lemma_values();
        lemma_media_types();
    }
    let mut headers: HeaderMap<HeaderValue> = no_headers();
    let cookie: &str = match cf_clearance {
        Some(cookie) => cookie,
        None => {
            return Some(headers);
        },
    };
    let cookie: String = "cf_clearance=".to_owned().concat(cookie);
    let cookie: HeaderValue = match HeaderValue::from_str(cookie.as_str()) {
        Ok(value) => value,
        Err(_) => {
            return None;
        },
    };
    insert(&mut headers, "cookie", cookie);
    insert(&mut headers, "accept", HeaderValue::from_static(ACCEPT_BROWSER));
    insert(&mut headers, "accept-language", HeaderValue::from_static(ACCEPT_LANGUAGES));
    insert(&mut headers, "upgrade-insecure-requests", HeaderValue::from_static("1"));
    insert(&mut headers, "referer", HeaderValue::from_static(REFERER));
    let chromium: bool = match user_agent {
        Some(agent) => contains(agent, "Chrome") || contains(agent, "Chromium"),
        None => false,
    };
    if chromium {
        insert(&mut headers, "sec-ch-ua", HeaderValue::from_static(SEC_CH_UA));
        insert(&mut headers, "sec-ch-ua-mobile", HeaderValue::from_static("?0"));
        insert(&mut headers, "sec-ch-ua-platform", HeaderValue::from_static("\"Linux\""));
        insert(&mut headers, "sec-fetch-dest", HeaderValue::from_static("document"));
        insert(&mut headers, "sec-fetch-mode", HeaderValue::from_static("navigate"));
        insert(&mut headers, "sec-fetch-site", HeaderValue::from_static("same-origin"));
        insert(&mut headers, "sec-fetch-user", HeaderValue::from_static("?1"));
    }
    Some(headers)
}

} // verus!
