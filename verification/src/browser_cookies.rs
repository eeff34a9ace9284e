//! The clearance cookie and the User-Agent of the user's own browser.
use crate::text::{begins, contains, mentions, split_words, starts_with, texts, trim, trimmed, words};
use vstd::prelude::*;

verus! {

/// The clearance cookie that the helper script prints, if it found one: its
/// output without the white space around it, unless that is nothing or an
/// error.
pub open spec fn printed_cookie(stdout: Seq<char>) -> Option<Seq<char>> {
    let cookie = trim(stdout);
    if cookie.len() == 0 || begins(cookie, "ERROR"@) {
        None
    } else {
        Some(cookie)
    }
}

/// The clearance cookie that the helper script prints, if it found one.
pub fn read_cookie(stdout: &str) -> (r: Option<String>)
    ensures
        match r {
            Some(cookie) => printed_cookie(stdout@) == Some(cookie@),
            None => printed_cookie(stdout@) is None,
        },
{
    let cookie: String = trimmed(stdout);
    if cookie.as_str().is_empty() || starts_with(cookie.as_str(), "ERROR") {
        None
    } else {
        Some(cookie)
    }
}

/// The first of the given words that holds a dot.
pub open spec fn dotted_word(words: Seq<Seq<char>>) -> Option<Seq<char>>
    decreases words.len(),
{
    if words.len() == 0 {
        None
    } else if mentions(words[0], "."@) {
        Some(words[0])
    } else {
        dotted_word(words.skip(1))
    }
}

/// The version that a browser prints: the first word with a dot or, where
/// there is none, the second word.
pub open spec fn printed_version(stdout: Seq<char>) -> Option<Seq<char>> {
    match dotted_word(words(stdout)) {
        Some(version) => Some(version),
        None => if words(stdout).len() >= 2 {
            Some(words(stdout)[1])
        } else {
            None
        },
    }
}

/// The User-Agent of a Chromium of the given version.
pub open spec fn chromium_user_agent(version: Seq<char>) -> Seq<char> {
    "Mozilla/5.0 (X11; Linux x86_64) AppleWebKit/537.36 (KHTML, like Gecko) Chrome/"@ + version
        + " Safari/537.36"@
}

/// The User-Agent of the browser that printed its version as given, if it
/// printed one.
pub open spec fn printed_user_agent(stdout: Seq<char>) -> Option<Seq<char>> {
    match printed_version(stdout) {
        Some(version) => Some(chromium_user_agent(version)),
        None => None,
    }
}

/// The clearance cookie and the User-Agent, where both were printed.
pub open spec fn detection(stdout: Seq<char>, version: Option<Seq<char>>) -> Option<
    (Seq<char>, Seq<char>),
> {
    match (printed_cookie(stdout), version) {
        (Some(cookie), Some(version)) => match printed_user_agent(version) {
            Some(agent) => Some((cookie, agent)),
            None => None,
        },
        _ => None,
    }
}

/// The User-Agent of the browser that printed its version as given.
pub fn detect_chromium_user_agent(stdout: &str) -> (r: Option<String>)
    ensures
        match r {
            Some(agent) => printed_version(stdout@) is Some && agent@ == chromium_user_agent(
                printed_version(stdout@)->0,
            ),
            None => printed_version(stdout@) is None,
        },
        printed_user_agent(stdout@) == match r {
            Some(agent) => Some(agent@),
            None => None,
        },
{
    let list: Vec<String> = split_words(stdout);
    let ghost all = texts(list@);
    let mut i: usize = 0;
    assert(all.skip(0) =~= all);
    while i < list.len()
        invariant
            i <= list.len(),
            all == texts(list@),
            all == words(stdout@),
            dotted_word(all) == dotted_word(all.skip(i as int)),
        decreases list.len() - i,
    {
        assert(all.skip(i as int)[0] == list@[i as int]@);
        assert(all.skip(i as int).skip(1) =~= all.skip(i + 1));
        if contains(list[i].as_str(), ".") {
            return Some(user_agent(list[i].as_str()));
        }
        i += 1;
    }
    if list.len() >= 2 {
        assert(all[1] == list@[1]@);
        Some(user_agent(list[1].as_str()))
    } else {
        None
    }
}

/// The User-Agent of a Chromium of the given version.
fn user_agent(version: &str) -> (r: String)
    ensures
        r@ == chromium_user_agent(version@),
{
    "Mozilla/5.0 (X11; Linux x86_64) AppleWebKit/537.36 (KHTML, like Gecko) Chrome/".to_owned().concat(
        version,
    ).concat(" Safari/537.36")
}

/// The clearance cookie and the User-Agent of the user's browser. `stdout` is
/// what the helper script printed, `version` what the browser printed of its
/// version, if it could be run. Both have to be found.
pub fn auto_detect_cookies(stdout: &str, version: Option<&str>) -> (r: Option<(String, String)>)
    ensures
        r is Some <==> printed_cookie(stdout@) is Some && version is Some && printed_version(
            version->0@,
        ) is Some,
        r matches Some((cookie, agent)) ==> cookie@ == printed_cookie(stdout@)->0 && agent@
            == chromium_user_agent(printed_version(version->0@)->0),
        detection(stdout@, crate::clients::option_text(version)) == match r {
            Some((cookie, agent)) => Some((cookie@, agent@)),
            None => None,
        },
{
    let cookie: String = match read_cookie(stdout) {
        Some(cookie) => cookie,
        None => {
            return None;
        },
    };
    let version: &str = match version {
        Some(version) => version,
        None => {
            return None;
        },
    };
    match detect_chromium_user_agent(version) {
        Some(agent) => Some((cookie, agent)),
        None => None,
    }
}

} // verus!
