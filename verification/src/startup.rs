//! What happens before the albums are downloaded: which addresses are queued,
//! with which credentials the site is asked, and whether it answers.
use crate::models::Availability;
use crate::text::{contains, mentions, texts, trim, trimmed};
use vstd::prelude::*;

verus! {

/// Whether a line holds more than white space.
pub open spec fn is_filled(line: Seq<char>) -> bool {
    trim(line).len() > 0
}

/// The addresses to download, in the order that they are given in: those of
/// the command line, then the lines of the files that are not blank.
pub open spec fn given_urls(urls: Seq<Seq<char>>, lines: Seq<Seq<char>>) -> Seq<Seq<char>> {
    urls + lines.filter(|line: Seq<char>| is_filled(line))
}

/// The queue of addresses to download, from which the last is taken first.
pub open spec fn queue_of(urls: Seq<Seq<char>>, lines: Seq<Seq<char>>) -> Seq<Seq<char>> {
    given_urls(urls, lines).reverse()
}

/// The queue of addresses to download. It is emptied from its end, so it
/// holds them in reverse order.
pub fn collect_urls(urls: Vec<String>, lines: Vec<String>) -> (r: Vec<String>)
    ensures
        texts(r@) == given_urls(texts(urls@), texts(lines@)).reverse(),
        texts(r@) == queue_of(texts(urls@), texts(lines@)),
{
    let ghost given = texts(urls@);
    let ghost all = texts(lines@);
    let ghost keep = |line: Seq<char>| is_filled(line);
    let mut queue: Vec<String> = urls;
    let mut i: usize = 0;
    proof {
        reveal(Seq::filter);
        assert(all.take(0).filter(keep) =~= Seq::<Seq<char>>::empty());
        assert(given + all.take(0).filter(keep) =~= given);
    }
    while i < lines.len()
        invariant
            i <= lines.len(),
            all == texts(lines@),
            keep == (|line: Seq<char>| is_filled(line)),
            texts(queue@) == given + all.take(i as int).filter(keep),
        decreases lines.len() - i,
    {
        proof {
            reveal(Seq::filter);
            assert(all.take(i + 1).drop_last() =~= all.take(i as int));
            assert(all.take(i + 1).last() == lines@[i as int]@);
        }
        let line: String = lines[i].clone();
        let ghost before = queue@;
        if !trimmed(line.as_str()).as_str().is_empty() {
            queue.push(line);
            assert(texts(queue@) =~= texts(before).push(line@));
            assert(given + all.take(i + 1).filter(keep) =~= texts(queue@));
        }
        i += 1;
    }
    assert(all.take(i as int) =~= all);
    reversed(queue)
}

/// A list in reverse order.
fn reversed(items: Vec<String>) -> (r: Vec<String>)
    ensures
        texts(r@) == texts(items@).reverse(),
{
    let mut r: Vec<String> = Vec::new();
    let mut n: usize = items.len();
    while n > 0
        invariant
            n <= items.len(),
            r@.len() == items.len() - n,
            forall|i: int| 0 <= i < r@.len() ==> (#[trigger] r@[i])@ == items@[items.len() - 1 - i]@,
        decreases n,
    {
        n -= 1;
        r.push(items[n].clone());
    }
    assert(texts(r@) =~= texts(items@).reverse());
    r
}

/// Whether an address is that of an artist's page.
pub open spec fn is_artist_page(url: Seq<char>) -> bool {
    mentions(url, "interpreter"@) || mentions(url, "/artist/"@)
}

/// Whether an address is that of an artist's page.
pub fn detect_artist_page(url: &str) -> (r: bool)
    ensures
        r == is_artist_page(url@),
{
    contains(url, "interpreter") || contains(url, "/artist/")
}

/// The texts of lists of strings.
pub open spec fn text_lists(lists: Seq<Vec<String>>) -> Seq<Seq<Seq<char>>> {
    lists.map_values(|list: Vec<String>| texts(list@))
}

/// The queue where each artist's page is replaced by its albums. The queue is
/// emptied from its end, so the albums of a page stand in reverse order.
pub open spec fn expanded(urls: Seq<Seq<char>>, albums: Seq<Seq<Seq<char>>>) -> Seq<Seq<char>>
    decreases urls.len(),
{
    if urls.len() == 0 {
        Seq::empty()
    } else {
        let front = expanded(urls.drop_last(), albums);
        let last = urls.len() - 1;
        if is_artist_page(urls[last]) {
            front + albums[last].reverse()
        } else {
            front.push(urls[last])
        }
    }
}

/// The queue where each artist's page is replaced by its albums. `albums`
/// holds, for each address, the albums found there; those of addresses that
/// are no artist's page do not matter.
pub fn expand_urls(urls: &Vec<String>, albums: &Vec<Vec<String>>) -> (r: Vec<String>)
    requires
        urls@.len() == albums@.len(),
    ensures
        texts(r@) == expanded(texts(urls@), text_lists(albums@)),
{
    let ghost all = texts(urls@);
    let ghost found = text_lists(albums@);
    let mut queue: Vec<String> = Vec::new();
    let mut i: usize = 0;
    assert(texts(queue@) =~= expanded(all.take(0), found));
    while i < urls.len()
        invariant
            i <= urls.len() == albums@.len(),
            all == texts(urls@),
            found == text_lists(albums@),
            texts(queue@) == expanded(all.take(i as int), found),
        decreases urls.len() - i,
    {
        assert(all.take(i + 1).drop_last() =~= all.take(i as int));
        assert(all.take(i + 1)[i as int] == urls@[i as int]@);
        assert(found[i as int] == texts(albums@[i as int]@));
        let ghost before = texts(queue@);
        if detect_artist_page(urls[i].as_str()) {
            let page: &Vec<String> = &albums[i];
            let ghost titles = texts(page@);
            let mut n: usize = page.len();
            assert(before + titles.reverse().take(0) =~= before);
            while n > 0
                invariant
                    n <= page@.len(),
                    titles == texts(page@),
                    texts(queue@) == before + titles.reverse().take(page@.len() - n),
                decreases n,
            {
                n -= 1;
                let ghost pushed = queue@;
                queue.push(page[n].clone());
                assert(texts(queue@) =~= texts(pushed).push(page@[n as int]@));
                assert(titles.reverse().take(page@.len() - n) =~= titles.reverse().take(
                    page@.len() - n - 1,
                ).push(page@[n as int]@));
            }
            assert(titles.reverse().take(page@.len() as int) =~= titles.reverse());
        } else {
            queue.push(urls[i].clone());
            assert(texts(queue@) =~= before.push(urls@[i as int]@));
        }
        i += 1;
    }
    assert(all.take(i as int) =~= all);
    queue
}

/// The addresses in the order that they are given in, each artist's page
/// replaced by its albums in page order.
pub open spec fn in_order(urls: Seq<Seq<char>>, albums: Seq<Seq<Seq<char>>>) -> Seq<Seq<char>>
    decreases urls.len(),
{
    if urls.len() == 0 {
        Seq::empty()
    } else {
        let first = if is_artist_page(urls[0]) {
            albums[0]
        } else {
            seq![urls[0]]
        };
        first + in_order(urls.skip(1), albums.skip(1))
    }
}

/// Emptied from its end, the expanded queue gives the addresses in the order
/// that they were given in, and the albums of a page in page order.
pub proof fn law_queue_keeps_the_given_order(
    urls: Seq<Seq<char>>,
    albums: Seq<Seq<Seq<char>>>,
)
    requires
        urls.len() == albums.len(),
    ensures
        expanded(urls.reverse(), albums.reverse()).reverse() == in_order(urls, albums),
    decreases urls.len(),
{
    if urls.len() == 0 {
        assert(expanded(urls.reverse(), albums.reverse()).reverse() =~= in_order(urls, albums));
    } else {
        let rest = urls.skip(1);
        let found = albums.skip(1);
        law_queue_keeps_the_given_order(rest, found);
        let back = urls.reverse();
        let last = back.len() - 1;
        assert(back.drop_last() =~= rest.reverse());
        assert(back[last] == urls[0]);
        assert(albums.reverse()[last] == albums[0]);
        lemma_expanded_ignores_the_rest(rest.reverse(), albums.reverse(), found.reverse());
        let front = expanded(rest.reverse(), found.reverse());
        if is_artist_page(urls[0]) {
            assert((front + albums[0].reverse()).reverse() =~= albums[0] + front.reverse());
        } else {
            assert(front.push(urls[0]).reverse() =~= seq![urls[0]] + front.reverse());
        }
    }
}

/// Only the albums beside an address matter to it.
pub proof fn lemma_expanded_ignores_the_rest(
    urls: Seq<Seq<char>>,
    a: Seq<Seq<Seq<char>>>,
    b: Seq<Seq<Seq<char>>>,
)
    requires
        urls.len() <= a.len(),
        urls.len() <= b.len(),
        forall|i: int| 0 <= i < urls.len() ==> #[trigger] a[i] == #[trigger] b[i],
    ensures
        expanded(urls, a) == expanded(urls, b),
    decreases urls.len(),
{
    if urls.len() > 0 {
        lemma_expanded_ignores_the_rest(urls.drop_last(), a, b);
        assert(a[urls.len() - 1] == b[urls.len() - 1]);
    }
}

/// The clearance cookie and the User-Agent that the site is asked with.
pub struct Credentials {
    pub cf_clearance: Option<String>,
    pub user_agent: Option<String>,
}

/// Whether the browser is searched for credentials.
pub open spec fn is_detection_needed(
    auto_cookies: bool,
    has_client: bool,
    credentials: Credentials,
) -> bool {
    &&& auto_cookies
    &&& !has_client
    &&& !(credentials.cf_clearance is Some && credentials.user_agent is Some)
}

/// The credentials after a search of the browser.
pub open spec fn with_detected(credentials: Credentials, detected: Option<(String, String)>) ->
    Option<Credentials> {
    match detected {
        Some((cookie, agent)) => Some(
            Credentials {
                cf_clearance: if credentials.cf_clearance is None {
                    Some(cookie)
                } else {
                    credentials.cf_clearance
                },
                user_agent: if credentials.user_agent is None {
                    Some(agent)
                } else {
                    credentials.user_agent
                },
            },
        ),
        None => if credentials.cf_clearance is Some || credentials.user_agent is Some {
            Some(credentials)
        } else {
            None
        },
    }
}

/// Whether the browser is searched for credentials: where that is wished, no
/// client with the browser's cookies is there, and one is missing.
pub fn needs_detection(auto_cookies: bool, has_client: bool, credentials: &Credentials) -> (r: bool)
    ensures
        r == (auto_cookies && !has_client && (credentials.cf_clearance is None
            || credentials.user_agent is None)),
        r == is_detection_needed(auto_cookies, has_client, *credentials),
{
    auto_cookies && !has_client && (credentials.cf_clearance.is_none()
        || credentials.user_agent.is_none())
}

/// The credentials after a search of the browser, which gave a cookie and a
/// User-Agent or nothing. What was given stays; what was missing is filled in.
/// Where nothing was given and nothing found, there are none.
pub fn add_detected(credentials: Credentials, detected: Option<(String, String)>) -> (r: Option<
    Credentials,
>)
    ensures
        match detected {
            Some((cookie, agent)) => r == Some(
                Credentials {
                    cf_clearance: if credentials.cf_clearance is Some {
                        credentials.cf_clearance
                    } else {
                        Some(cookie)
                    },
                    user_agent: if credentials.user_agent is Some {
                        credentials.user_agent
                    } else {
                        Some(agent)
                    },
                },
            ),
            None => r == if credentials.cf_clearance is None && credentials.user_agent is None {
                None
            } else {
                Some(credentials)
            },
        },
        r == with_detected(credentials, detected),
{
    match detected {
        Some((cookie, agent)) => Some(
            Credentials {
                cf_clearance: match credentials.cf_clearance {
                    Some(given) => Some(given),
                    None => Some(cookie),
                },
                user_agent: match credentials.user_agent {
                    Some(given) => Some(given),
                    None => Some(agent),
                },
            },
        ),
        None => {
            if credentials.cf_clearance.is_none() && credentials.user_agent.is_none() {
                None
            } else {
                Some(credentials)
            }
        },
    }
}

/// Why no album can be downloaded.
#[derive(Clone, Copy, PartialEq, Eq, Structural, Debug)]
pub enum StartupError {
    /// The site did not accept the credentials.
    CredentialsRejected,
    /// The site asks for a captcha.
    CaptchaRequired,
    /// The site does not answer as it should.
    SiteUnavailable,
}

/// Why no album can be downloaded, where the credentials are complete or not.
pub open spec fn obstacle(availability: Availability, complete: bool) -> Option<StartupError> {
    match availability {
        Availability::Available => None,
        Availability::Captcha => if complete {
            Some(StartupError::CredentialsRejected)
        } else {
            Some(StartupError::CaptchaRequired)
        },
        Availability::Unavailable => Some(StartupError::SiteUnavailable),
    }
}

/// Why no album can be downloaded, as far as the site's state tells.
pub fn startup_error(availability: Availability, credentials: &Credentials) -> (r: Option<
    StartupError,
>)
    ensures
        r == match availability {
            Availability::Available => None,
            Availability::Captcha => Some(
                if credentials.cf_clearance is Some && credentials.user_agent is Some {
                    StartupError::CredentialsRejected
                } else {
                    StartupError::CaptchaRequired
                },
            ),
            Availability::Unavailable => Some(StartupError::SiteUnavailable),
        },
        r == obstacle(
            availability,
            credentials.cf_clearance is Some && credentials.user_agent is Some,
        ),
{
    match availability {
        Availability::Available => None,
        Availability::Captcha => {
            if credentials.cf_clearance.is_some() && credentials.user_agent.is_some() {
                Some(StartupError::CredentialsRejected)
            } else {
                Some(StartupError::CaptchaRequired)
            }
        },
        Availability::Unavailable => Some(StartupError::SiteUnavailable),
    }
}

/// How many workers download the given number of albums.
pub open spec fn worker_count(album_workers: usize, albums: usize) -> usize {
    if album_workers < albums {
        album_workers
    } else {
        albums
    }
}

/// How many workers download albums: as many as wished, but no more than
/// there are albums.
pub fn album_worker_count(album_workers: usize, albums: usize) -> (r: usize)
    ensures
        r <= album_workers,
        r <= albums,
        r == album_workers || r == albums,
        r == worker_count(album_workers, albums),
{
    if album_workers <= albums {
        album_workers
    } else {
        albums
    }
}

} // verus!
