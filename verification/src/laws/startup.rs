//! What is queued, with which credentials the site is asked, and what is
//! counted.
use crate::laws::text::{is_blank, law_trimming_drops_white_space_alone};
use crate::models::Availability;
use crate::startup::{
    expanded, given_urls, is_artist_page, is_detection_needed, is_filled,
    lemma_expanded_ignores_the_rest, obstacle, queue_of, with_detected, worker_count, Credentials,
    StartupError,
};
use crate::stats::{counted, counts, is_sorted, lemma_counts, precedes};
use crate::text::mentions;
use vstd::prelude::*;

verus! {

/// The given addresses come first; each line of a file follows as it is, in
/// order, unless it is white space alone.
pub proof fn law_lines_follow_unless_blank(
    urls: Seq<Seq<char>>,
    lines: Seq<Seq<char>>,
    line: Seq<char>,
)
    ensures
        given_urls(urls, Seq::empty()) == urls,
        is_blank(line) ==> given_urls(urls, lines.push(line)) == given_urls(urls, lines),
        !is_blank(line) ==> given_urls(urls, lines.push(line)) == given_urls(urls, lines).push(
            line,
        ),
{
    law_trimming_drops_white_space_alone(line);
    reveal(Seq::filter);
    let keep = |line: Seq<char>| is_filled(line);
    assert(lines.push(line).drop_last() =~= lines);
    assert(Seq::<Seq<char>>::empty().filter(keep) =~= Seq::<Seq<char>>::empty());
    assert(given_urls(urls, Seq::empty()) =~= urls);
    if !is_blank(line) {
        assert(urls + lines.filter(keep).push(line) =~= (urls + lines.filter(keep)).push(line));
    }
}

/// The queue is taken from its end, and so gives the addresses in order.
pub proof fn law_queue_gives_the_first_address_first(
    urls: Seq<Seq<char>>,
    lines: Seq<Seq<char>>,
    i: int,
)
    requires
        0 <= i < given_urls(urls, lines).len(),
    ensures
        queue_of(urls, lines).len() == given_urls(urls, lines).len(),
        queue_of(urls, lines)[queue_of(urls, lines).len() - 1 - i] == given_urls(urls, lines)[i],
{
}

/// An artist's page is known by one of two marks in its address.
pub proof fn law_artist_pages_are_known_by_their_address(url: Seq<char>)
    ensures
        is_artist_page(url) <==> mentions(url, "interpreter"@) || mentions(url, "/artist/"@),
{
}

/// In the queue an artist's page gives way to its albums, the last one first;
/// any other address stays.
pub proof fn law_artist_pages_give_way_to_their_albums(
    urls: Seq<Seq<char>>,
    albums: Seq<Seq<Seq<char>>>,
    url: Seq<char>,
    found: Seq<Seq<char>>,
)
    requires
        urls.len() == albums.len(),
    ensures
        expanded(Seq::empty(), Seq::empty()).len() == 0,
        mentions(url, "interpreter"@) || mentions(url, "/artist/"@) ==> expanded(
            urls.push(url),
            albums.push(found),
        ) == expanded(urls, albums) + found.reverse(),
        !mentions(url, "interpreter"@) && !mentions(url, "/artist/"@) ==> expanded(
            urls.push(url),
            albums.push(found),
        ) == expanded(urls, albums).push(url),
{
    assert(urls.push(url).drop_last() =~= urls);
    lemma_expanded_ignores_the_rest(urls, albums.push(found), albums);
}

/// The browser is searched exactly if that is wished, there is no client with
/// its cookies, and the cookie or the User-Agent is missing.
pub proof fn law_browser_is_searched_for_what_is_missing(
    auto_cookies: bool,
    has_client: bool,
    credentials: Credentials,
)
    ensures
        is_detection_needed(auto_cookies, has_client, credentials) <==> auto_cookies && !has_client
            && (credentials.cf_clearance is None || credentials.user_agent is None),
{
}

/// What was given stays, and what was missing is taken from what was found.
/// Where nothing was found, what was given has to do; with nothing at all there
/// are no credentials.
pub proof fn law_given_credentials_stay(credentials: Credentials, cookie: String, agent: String)
    ensures
        ({
            let both = with_detected(credentials, Some((cookie, agent)));
            &&& both is Some
            &&& credentials.cf_clearance is Some ==> both->0.cf_clearance
                == credentials.cf_clearance
            &&& credentials.cf_clearance is None ==> both->0.cf_clearance == Some(cookie)
            &&& credentials.user_agent is Some ==> both->0.user_agent == credentials.user_agent
            &&& credentials.user_agent is None ==> both->0.user_agent == Some(agent)
        }),
        credentials.cf_clearance is None && credentials.user_agent is None <==> with_detected(
            credentials,
            None,
        ) is None,
        with_detected(credentials, None) matches Some(kept) ==> kept == credentials,
{
}

/// An available site stands in the way of nothing. A captcha tells that full
/// credentials were not accepted, or that they are needed; an unavailable site
/// is told as such, whatever the credentials.
pub proof fn law_obstacles_are_told_apart(complete: bool)
    ensures
        obstacle(Availability::Available, complete) is None,
        obstacle(Availability::Captcha, true) == Some(StartupError::CredentialsRejected),
        obstacle(Availability::Captcha, false) == Some(StartupError::CaptchaRequired),
        obstacle(Availability::Unavailable, complete) == Some(StartupError::SiteUnavailable),
{
}

/// There are as many workers as wished, but no more than albums.
pub proof fn law_albums_have_enough_workers(album_workers: usize, albums: usize)
    ensures
        worker_count(album_workers, albums) <= album_workers,
        worker_count(album_workers, albums) <= albums,
        worker_count(album_workers, albums) == album_workers || worker_count(album_workers, albums)
            == albums,
{
}

/// Of two texts that part after a common beginning, the one with the smaller
/// character comes first; a text comes before any that goes on after it.
pub proof fn law_order_is_that_of_a_dictionary(
    common: Seq<char>,
    x: char,
    a: Seq<char>,
    y: char,
    b: Seq<char>,
)
    ensures
        x != y ==> (precedes(common.push(x) + a, common.push(y) + b) <==> x < y),
        precedes(common, common.push(y) + b),
        !precedes(common.push(y) + b, common),
        !precedes(common, common),
    decreases common.len(),
{
    let left = common.push(x) + a;
    let right = common.push(y) + b;
    if common.len() > 0 {
        let rest = common.skip(1);
        law_order_is_that_of_a_dictionary(rest, x, a, y, b);
        assert(left.skip(1) =~= rest.push(x) + a);
        assert(right.skip(1) =~= rest.push(y) + b);
        assert(left[0] == common[0] && right[0] == common[0]);
    } else {
        assert(left[0] == x && right[0] == y);
    }
}

/// One more track of a format adds one to its count, or begins it with one; the
/// other counts stay.
pub proof fn law_one_more_track_counts_once(
    stats: Map<Seq<char>, usize>,
    format: Seq<char>,
    other: Seq<char>,
)
    requires
        stats.contains_key(format) ==> stats[format] < usize::MAX,
    ensures
        counted(stats, format).contains_key(format),
        stats.contains_key(format) ==> counted(stats, format)[format] == stats[format] + 1,
        !stats.contains_key(format) ==> counted(stats, format)[format] == 1,
        other != format ==> (counted(stats, format).contains_key(other) <==> stats.contains_key(
            other,
        )),
        other != format && stats.contains_key(other) ==> counted(stats, format)[other]
            == stats[other],
{
}

/// A sorted summary lists each format once, in the order of a dictionary, with
/// its count beside it, and lists no other.
pub proof fn law_summary_lists_every_count(
    entries: Seq<(String, usize)>,
    i: int,
    j: int,
    format: Seq<char>,
)
    requires
        is_sorted(entries),
        0 <= i <= j < entries.len(),
    ensures
        i < j ==> precedes(entries[i].0@, entries[j].0@),
        counts(entries).contains_key(entries[i].0@),
        counts(entries)[entries[i].0@] == entries[i].1,
        counts(entries)[entries[j].0@] == entries[j].1,
        counts(entries).contains_key(format) ==> exists|k: int|
            0 <= k < entries.len() && (#[trigger] entries[k]).0@ == format,
{
    lemma_counts(entries);
}

} // verus!
