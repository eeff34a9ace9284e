//! The requests that the downloader sends to the site, and what it makes of
//! the replies.
use crate::form::{encoded, lemma_encoded_plain, pair_texts, parse_with_params, query};
use crate::models::{
    Account, Availability, DownloadConfig, ResolveAlbumResult, Token, Track, TrackDownload,
    TrackDownloadRequest, TrackDownloadResult, Upload,
};
use crate::text::{contains, mentions};
use vstd::prelude::*;

verus! {

/// How often an album page is asked for.
pub const MAX_RETRIES: usize = 5;

/// The pause before a request is sent again, in seconds.
pub const RETRY_SECONDS: u64 = 5;

pub const OK: u16 = 200;

pub const FORBIDDEN: u16 = 403;

pub const NOT_FOUND: u16 = 404;

pub const TOO_MANY_REQUESTS: u16 = 429;

pub const INTERNAL_SERVER_ERROR: u16 = 500;

/// Whether a page is a Cloudflare challenge.
pub open spec fn is_challenge(html: Seq<char>) -> bool {
    ||| mentions(html, "challenge-platform"@)
    ||| mentions(html, "cf-chl-widget-"@)
    ||| mentions(html, "Checking your browser before accessing"@)
    ||| mentions(html, "__cf_chl_jschl_tk__"@)
}

/// Whether a page is the site's own, with its download form.
pub open spec fn is_site(html: Seq<char>) -> bool {
    ||| mentions(html, "Welcome to the world of Lucida"@)
    ||| mentions(html, "download-form"@)
}

/// What a reply to a request for the home page says about the site.
pub open spec fn availability(status: u16, html: Seq<char>) -> Availability {
    if status == OK {
        if is_challenge(html) {
            Availability::Captcha
        } else if is_site(html) {
            Availability::Available
        } else {
            Availability::Unavailable
        }
    } else if status == FORBIDDEN {
        Availability::Captcha
    } else {
        Availability::Unavailable
    }
}

/// Whether a page is a Cloudflare challenge.
pub fn detect_challenge(html: &str) -> (r: bool)
    ensures
        r == is_challenge(html@),
{
    contains(html, "challenge-platform") || contains(html, "cf-chl-widget-") || contains(
        html,
        "Checking your browser before accessing",
    ) || contains(html, "__cf_chl_jschl_tk__")
}

/// Whether a page is the site's own, with its download form.
pub fn detect_site(html: &str) -> (r: bool)
    ensures
        r == is_site(html@),
{
    contains(html, "Welcome to the world of Lucida") || contains(html, "download-form")
}

/// What a reply to a request for the home page says about the site. The body
/// counts only where the status is good.
pub fn check_availability(status: u16, html: &str) -> (r: Availability)
    ensures
        r == availability(status, html@),
{
    if status == OK {
        if detect_challenge(html) {
            Availability::Captcha
        } else if detect_site(html) {
            Availability::Available
        } else {
            Availability::Unavailable
        }
    } else if status == FORBIDDEN {
        Availability::Captcha
    } else {
        Availability::Unavailable
    }
}

/// The address that an album page is asked for at: the site's, with the
/// album's URL and the country as parameters.
pub open spec fn album_address(url: Seq<char>, country: Seq<char>) -> Seq<char> {
    "https://lucida.to/?url="@ + encoded(url) + "&country="@ + encoded(country)
}

/// The address that an album page is asked for at: the site's, with the
/// album's URL and the country as parameters.
pub fn album_page_address(url: &str, country: &str) -> (r: String)
    ensures
        r@ == album_address(url@, country@),
{
    let params: Vec<(&str, &str)> = vec![("url", url), ("country", country)];
    proof {
        let pairs = seq![("url"@, url@), ("country"@, country@)];
        assert(pair_texts(params@) =~= pairs);
        lemma_album_address(url@, country@);
    }
    parse_with_params("https://lucida.to/", &params).unwrap()
}

proof fn lemma_album_address(url: Seq<char>, country: Seq<char>)
    ensures
        "https://lucida.to/"@ + "?"@ + query(seq![("url"@, url), ("country"@, country)])
            == album_address(url, country),
{
    reveal_strlit("url");
    reveal_strlit("country");
    reveal_strlit("=");
    reveal_strlit("&");
    reveal_strlit("?");
    reveal_strlit("&country=");
    reveal_strlit("https://lucida.to/");
    reveal_strlit("https://lucida.to/?url=");
    lemma_encoded_plain("url"@);
    lemma_encoded_plain("country"@);
    let pairs = seq![("url"@, url), ("country"@, country)];
    assert(pairs.drop_last() =~= seq![("url"@, url)]);
    assert(query(pairs.drop_last()) == "url"@ + "="@ + encoded(url));
    assert("&country="@ =~= "&"@ + "country"@ + "="@);
    assert("https://lucida.to/?url="@ =~= "https://lucida.to/"@ + "?"@ + "url"@ + "="@);
    assert("https://lucida.to/"@ + "?"@ + query(pairs) =~= album_address(url, country));
}

/// What happens while an album page is asked for.
pub enum ResolveAlbumEvent {
    /// A reply came. `running` tells whether the downloader goes on.
    Response { status: u16, html: String, running: bool },
    /// The pause is over.
    Slept,
}

/// What is done next to get an album page.
pub enum ResolveAlbumAction {
    Send,
    Sleep(u64),
    Finish(ResolveAlbumResult),
}

/// The next attempt and action on the way to an album page. A good reply, a
/// refusal and a rate limit settle the matter at once. Another reply is
/// followed by a pause and a new attempt, while the downloader runs and
/// attempts are left.
pub open spec fn resolve_album_step(attempt: usize, event: ResolveAlbumEvent) -> (
    usize,
    ResolveAlbumAction,
) {
    match event {
        ResolveAlbumEvent::Response { status, html, running } => {
            let action = if status == OK {
                ResolveAlbumAction::Finish(
                    if is_challenge(html@) {
                        ResolveAlbumResult::Cloudflare
                    } else {
                        ResolveAlbumResult::Success(html)
                    },
                )
            } else if status == FORBIDDEN {
                ResolveAlbumAction::Finish(ResolveAlbumResult::Cloudflare)
            } else if status == TOO_MANY_REQUESTS || !running {
                ResolveAlbumAction::Finish(ResolveAlbumResult::Error)
            } else {
                ResolveAlbumAction::Sleep(RETRY_SECONDS)
            };
            (attempt, action)
        },
        ResolveAlbumEvent::Slept => {
            if attempt < MAX_RETRIES {
                ((attempt + 1) as usize, ResolveAlbumAction::Send)
            } else {
                (attempt, ResolveAlbumAction::Finish(ResolveAlbumResult::Error))
            }
        },
    }
}

/// Takes an event while an album page is asked for, and tells what to do
/// next. Attempts count from one.
pub fn resolve_album(attempt: usize, event: ResolveAlbumEvent) -> (r: (usize, ResolveAlbumAction))
    ensures
        r == resolve_album_step(attempt, event),
{
    match event {
        ResolveAlbumEvent::Response { status, html, running } => {
            let action = if status == OK {
                ResolveAlbumAction::Finish(
                    if detect_challenge(html.as_str()) {
                        ResolveAlbumResult::Cloudflare
                    } else {
                        ResolveAlbumResult::Success(html)
                    },
                )
            } else if status == FORBIDDEN {
                ResolveAlbumAction::Finish(ResolveAlbumResult::Cloudflare)
            } else if status == TOO_MANY_REQUESTS || !running {
                ResolveAlbumAction::Finish(ResolveAlbumResult::Error)
            } else {
                ResolveAlbumAction::Sleep(RETRY_SECONDS)
            };
            (attempt, action)
        },
        ResolveAlbumEvent::Slept => {
            if attempt < MAX_RETRIES {
                (attempt + 1, ResolveAlbumAction::Send)
            } else {
                (attempt, ResolveAlbumAction::Finish(ResolveAlbumResult::Error))
            }
        },
    }
}

/// A reply to a request for an album page, and whether the downloader was
/// still running when it came.
pub struct AlbumReply {
    pub status: u16,
    pub html: String,
    pub running: bool,
}

/// Whether a reply leads to another attempt.
pub open spec fn is_retried(reply: AlbumReply) -> bool {
    &&& reply.status != OK
    &&& reply.status != FORBIDDEN
    &&& reply.status != TOO_MANY_REQUESTS
    &&& reply.running
}

/// The outcome of asking for an album page, from the given attempt on, where
/// the given replies come in; none while the replies do not settle it.
pub open spec fn resolve_album_run(attempt: usize, replies: Seq<AlbumReply>) -> Option<
    ResolveAlbumResult,
>
    decreases replies.len(),
{
    if replies.len() == 0 {
        None
    } else {
        let reply = replies[0];
        let event = ResolveAlbumEvent::Response {
            status: reply.status,
            html: reply.html,
            running: reply.running,
        };
        match resolve_album_step(attempt, event).1 {
            ResolveAlbumAction::Finish(result) => Some(result),
            _ => match resolve_album_step(attempt, ResolveAlbumEvent::Slept) {
                (_, ResolveAlbumAction::Finish(result)) => Some(result),
                (next, _) => resolve_album_run(next, replies.skip(1)),
            },
        }
    }
}

/// Five replies settle the matter: the outcome of more is theirs.
pub proof fn law_resolve_album_is_bounded(replies: Seq<AlbumReply>)
    requires
        replies.len() >= MAX_RETRIES,
    ensures
        resolve_album_run(1, replies) is Some,
        resolve_album_run(1, replies) == resolve_album_run(1, replies.take(MAX_RETRIES as int)),
{
    lemma_resolve_album_is_bounded(1, replies, MAX_RETRIES as int);
}

proof fn lemma_resolve_album_is_bounded(attempt: usize, replies: Seq<AlbumReply>, n: int)
    requires
        1 <= attempt <= MAX_RETRIES,
        n == MAX_RETRIES - attempt + 1,
        replies.len() >= n,
    ensures
        resolve_album_run(attempt, replies) is Some,
        resolve_album_run(attempt, replies) == resolve_album_run(attempt, replies.take(n)),
    decreases n,
{
    if attempt < MAX_RETRIES {
        lemma_resolve_album_is_bounded((attempt + 1) as usize, replies.skip(1), n - 1);
        assert(replies.take(n).skip(1) =~= replies.skip(1).take(n - 1));
    }
}

/// Where all replies but the last lead to another attempt, the last decides:
/// a good reply without a challenge gives its page, a refusal or a challenge
/// gives `Cloudflare`, and a rate limit or the order to stop gives `Error`.
pub proof fn law_resolve_album_last_reply_decides(replies: Seq<AlbumReply>)
    requires
        0 < replies.len() <= MAX_RETRIES,
        forall|i: int| 0 <= i < replies.len() - 1 ==> is_retried(#[trigger] replies[i]),
    ensures
        ({
            let last = replies.last();
            resolve_album_run(1, replies) == if last.status == OK && !is_challenge(last.html@) {
                Some(ResolveAlbumResult::Success(last.html))
            } else if last.status == OK || last.status == FORBIDDEN {
                Some(ResolveAlbumResult::Cloudflare)
            } else if !is_retried(last) || replies.len() == MAX_RETRIES {
                Some(ResolveAlbumResult::Error)
            } else {
                None
            }
        }),
{
    lemma_resolve_album_last_reply_decides(1, replies);
}

proof fn lemma_resolve_album_last_reply_decides(attempt: usize, replies: Seq<AlbumReply>)
    requires
        1 <= attempt,
        0 < replies.len() <= MAX_RETRIES - attempt + 1,
        forall|i: int| 0 <= i < replies.len() - 1 ==> is_retried(#[trigger] replies[i]),
    ensures
        ({
            let last = replies.last();
            resolve_album_run(attempt, replies) == if last.status == OK && !is_challenge(
                last.html@,
            ) {
                Some(ResolveAlbumResult::Success(last.html))
            } else if last.status == OK || last.status == FORBIDDEN {
                Some(ResolveAlbumResult::Cloudflare)
            } else if !is_retried(last) || replies.len() == MAX_RETRIES - attempt + 1 {
                Some(ResolveAlbumResult::Error)
            } else {
                None
            }
        }),
    decreases replies.len(),
{
    if replies.len() > 1 {
        assert(is_retried(replies[0]));
        let rest = replies.skip(1);
        assert forall|i: int| 0 <= i < rest.len() - 1 implies is_retried(#[trigger] rest[i]) by {
            assert(rest[i] == replies[i + 1]);
        }
        lemma_resolve_album_last_reply_decides((attempt + 1) as usize, rest);
        assert(rest.last() == replies.last());
    } else {
        assert(replies.skip(1).len() == 0);
        assert(resolve_album_run((attempt + 1) as usize, replies.skip(1)) is None);
    }
}

/// Whether two optional strings hold the same text.
pub open spec fn same_option(a: Option<String>, b: Option<String>) -> bool {
    match (a, b) {
        (Some(a), Some(b)) => a@ == b@,
        (None, None) => true,
        _ => false,
    }
}

/// The address that tracks are requested at.
pub const TRACK_REQUEST_ADDRESS: &'static str =
    "https://lucida.to/api/load?url=%2Fapi%2Ffetch%2Fstream%2Fv2";

/// Whether a body asks for the given track under the given configuration.
pub open spec fn asks_for(
    request: TrackDownloadRequest,
    track: Track,
    token_expiry: u64,
    config: DownloadConfig,
) -> bool {
    &&& request.account.id@ == config.country@ && request.account.kind@ == "country"@
    &&& request.downscale@ == config.downscale@
    &&& request.metadata == config.metadata && request.private == config.private
    &&& request.handoff && !request.compat && !request.upload.enabled
    &&& request.token.expiry == token_expiry && request.token.primary@ == track.csrf@
    &&& same_option(request.token.secondary, track.csrf_fallback)
    &&& request.url@ == track.url@
}

/// The body of a request for a track: for the configured country, in the
/// configured format, with the track's own tokens.
pub fn track_download_request(track: &Track, token_expiry: u64, config: &DownloadConfig) -> (r:
    TrackDownloadRequest)
    ensures
        r.account.id@ == config.country@,
        r.account.kind@ == "country"@,
        !r.compat,
        r.downscale@ == config.downscale@,
        r.handoff,
        r.metadata == config.metadata,
        r.private == config.private,
        r.token.expiry == token_expiry,
        r.token.primary@ == track.csrf@,
        same_option(r.token.secondary, track.csrf_fallback),
        !r.upload.enabled,
        r.url@ == track.url@,
        asks_for(r, *track, token_expiry, *config),
{
    TrackDownloadRequest {
        account: Account { id: config.country.clone(), kind: "country".to_owned() },
        compat: false,
        downscale: config.downscale.clone(),
        handoff: true,
        metadata: config.metadata,
        private: config.private,
        token: Token {
            expiry: token_expiry,
            primary: track.csrf.clone(),
            secondary: match &track.csrf_fallback {
                Some(csrf) => Some(csrf.clone()),
                None => None,
            },
        },
        upload: Upload { enabled: false },
        url: track.url.clone(),
    }
}

/// What is done after a reply to a request for a track.
pub enum TrackRequestAction {
    /// The request is sent again after a pause of that many seconds.
    Sleep(u64),
    /// The site has accepted the request, or the downloader stops.
    Finish(Option<TrackDownload>),
}

/// What is done after a reply to a request for a track. Only a good reply
/// that accepts the request ends with a download. After any other the request
/// is repeated, until the downloader is told to stop.
pub open spec fn track_request_step(
    status: u16,
    body: Option<TrackDownloadResult>,
    running: bool,
) -> TrackRequestAction {
    match body {
        Some(TrackDownloadResult::Accepted(download)) if status == OK => TrackRequestAction::Finish(
            Some(download),
        ),
        _ => if running {
            TrackRequestAction::Sleep(RETRY_SECONDS)
        } else {
            TrackRequestAction::Finish(None)
        },
    }
}

/// Takes a reply to a request for a track, and tells what to do next. `body`
/// is the decoded body, where the status is good and the body can be decoded.
pub fn request_track_download(
    status: u16,
    body: Option<TrackDownloadResult>,
    running: bool,
) -> (r: TrackRequestAction)
    ensures
        r == track_request_step(status, body, running),
{
    if status == OK {
        if let Some(TrackDownloadResult::Accepted(download)) = body {
            return TrackRequestAction::Finish(Some(download));
        }
    }
    if running {
        TrackRequestAction::Sleep(RETRY_SECONDS)
    } else {
        TrackRequestAction::Finish(None)
    }
}

/// A reply to a request for a track, and whether the downloader was still
/// running when it came.
pub struct TrackReply {
    pub status: u16,
    pub body: Option<TrackDownloadResult>,
    pub running: bool,
}

/// Whether a reply accepts the request for a track.
pub open spec fn is_accepted(reply: TrackReply) -> bool {
    reply.status == OK && reply.body matches Some(TrackDownloadResult::Accepted(_))
}

/// The outcome of requesting a track, where the given replies come in; none
/// while they do not settle it.
pub open spec fn track_request_run(replies: Seq<TrackReply>) -> Option<Option<TrackDownload>>
    decreases replies.len(),
{
    if replies.len() == 0 {
        None
    } else {
        match track_request_step(replies[0].status, replies[0].body, replies[0].running) {
            TrackRequestAction::Finish(download) => Some(download),
            TrackRequestAction::Sleep(_) => track_request_run(replies.skip(1)),
        }
    }
}

/// A track is requested until a reply accepts it or the downloader was told to
/// stop: the first such reply decides, and an acceptance wins over the order
/// to stop.
pub proof fn law_track_request_ends_with_acceptance_or_stop(replies: Seq<TrackReply>, n: int)
    requires
        0 <= n < replies.len(),
        forall|i: int|
            0 <= i < n ==> !is_accepted(#[trigger] replies[i]) && replies[i].running,
        is_accepted(replies[n]) || !replies[n].running,
    ensures
        track_request_run(replies) == match replies[n].body {
            Some(TrackDownloadResult::Accepted(download)) if replies[n].status == OK => Some(
                Some(download),
            ),
            _ => Some(None),
        },
    decreases n,
{
    if n > 0 {
        assert(!is_accepted(replies[0]) && replies[0].running);
        let rest = replies.skip(1);
        assert forall|i: int| 0 <= i < n - 1 implies !is_accepted(#[trigger] rest[i])
            && rest[i].running by {
            assert(rest[i] == replies[i + 1]);
        }
        law_track_request_ends_with_acceptance_or_stop(rest, n - 1);
    }
}

/// Whether a server has lost a download for good.
pub open spec fn is_irrecoverable(status: u16) -> bool {
    status == NOT_FOUND || status == INTERNAL_SERVER_ERROR
}

/// What is done after a reply of the server that prepares a download.
pub enum ServerReplyAction {
    /// The body is read.
    Accept,
    /// The download is given up.
    GiveUp,
    /// The request is sent again after a pause of that many seconds.
    Sleep(u64),
}

/// What is done after a reply of the server that prepares a download.
pub open spec fn server_reply_step(status: u16) -> ServerReplyAction {
    if status == OK {
        ServerReplyAction::Accept
    } else if is_irrecoverable(status) {
        ServerReplyAction::GiveUp
    } else {
        ServerReplyAction::Sleep(RETRY_SECONDS)
    }
}

/// What is done after a reply of the server that prepares a download.
fn server_reply(status: u16) -> (r: ServerReplyAction)
    ensures
        r == server_reply_step(status),
{
    if status == OK {
        ServerReplyAction::Accept
    } else if status == NOT_FOUND || status == INTERNAL_SERVER_ERROR {
        ServerReplyAction::GiveUp
    } else {
        ServerReplyAction::Sleep(RETRY_SECONDS)
    }
}

/// The address where a server tells how far a download is.
pub open spec fn status_address(server: Seq<char>, handoff: Seq<char>) -> Seq<char> {
    "https://"@ + server + ".lucida.to/api/fetch/request/"@ + handoff
}

/// The address where a server tells how far a download is.
pub fn track_status_address(stream: &TrackDownload) -> (r: String)
    ensures
        r@ == status_address(stream.server@, stream.handoff@),
{
    "https://".to_owned().concat(stream.server.as_str()).concat(
        ".lucida.to/api/fetch/request/",
    ).concat(stream.handoff.as_str())
}

/// The address where a server hands out a finished download.
pub open spec fn audio_address(server: Seq<char>, handoff: Seq<char>) -> Seq<char> {
    status_address(server, handoff) + "/download"@
}

/// The address where a server hands out a finished download.
pub fn track_audio_address(stream: &TrackDownload) -> (r: String)
    ensures
        r@ == status_address(stream.server@, stream.handoff@) + "/download"@,
        r@ == audio_address(stream.server@, stream.handoff@),
{
    track_status_address(stream).concat("/download")
}

/// Takes the status of a reply about a download's progress, and tells what to
/// do next.
pub fn track_download_status(status: u16) -> (r: ServerReplyAction)
    ensures
        r == server_reply_step(status),
{
    server_reply(status)
}

/// Takes the status of a reply to a request for a track's audio, and tells
/// what to do next.
pub fn download_track(status: u16) -> (r: ServerReplyAction)
    ensures
        r == server_reply_step(status),
{
    server_reply(status)
}

/// What comes of asking a server, where replies of the given statuses come in:
/// the status of the reply whose body is read, or nothing where the download
/// is given up; none while the replies do not settle it.
pub open spec fn server_run(statuses: Seq<u16>) -> Option<Option<u16>>
    decreases statuses.len(),
{
    if statuses.len() == 0 {
        None
    } else {
        match server_reply_step(statuses[0]) {
            ServerReplyAction::Accept => Some(Some(statuses[0])),
            ServerReplyAction::GiveUp => Some(None),
            ServerReplyAction::Sleep(_) => server_run(statuses.skip(1)),
        }
    }
}

/// A server is asked until a reply is good or tells that the download is lost:
/// the first such reply decides.
pub proof fn law_server_is_asked_until_it_settles(statuses: Seq<u16>, n: int)
    requires
        0 <= n < statuses.len(),
        forall|i: int|
            0 <= i < n ==> (#[trigger] statuses[i]) != OK && !is_irrecoverable(statuses[i]),
        statuses[n] == OK || is_irrecoverable(statuses[n]),
    ensures
        server_run(statuses) == Some(
            if statuses[n] == OK {
                Some(OK)
            } else {
                None
            },
        ),
    decreases n,
{
    if n > 0 {
        assert(statuses[0] != OK && !is_irrecoverable(statuses[0]));
        let rest = statuses.skip(1);
        assert forall|i: int| 0 <= i < n - 1 implies (#[trigger] rest[i]) != OK
            && !is_irrecoverable(rest[i]) by {
            assert(rest[i] == statuses[i + 1]);
        }
        law_server_is_asked_until_it_settles(rest, n - 1);
    }
}

/// What is done after a reply to a request for an album cover.
#[derive(Clone, Copy, PartialEq, Eq, Structural, Debug)]
pub enum CoverReplyAction {
    /// The body is read.
    Accept,
    /// There is no cover, or the downloader stops.
    GiveUp,
    /// The request is sent again at once.
    Retry,
}

/// What is done after a reply to a request for an album cover.
pub open spec fn cover_reply_step(status: u16, running: bool) -> CoverReplyAction {
    if status == OK {
        CoverReplyAction::Accept
    } else if status == NOT_FOUND || !running {
        CoverReplyAction::GiveUp
    } else {
        CoverReplyAction::Retry
    }
}

/// Takes the status of a reply to a request for an album cover, and tells
/// what to do next.
pub fn download_album_cover(status: u16, running: bool) -> (r: CoverReplyAction)
    ensures
        r == cover_reply_step(status, running),
{
    if status == OK {
        CoverReplyAction::Accept
    } else if status == NOT_FOUND || !running {
        CoverReplyAction::GiveUp
    } else {
        CoverReplyAction::Retry
    }
}

/// A reply to a request for an album cover: its status, and whether the
/// downloader was still running when it came.
pub struct CoverReply {
    pub status: u16,
    pub running: bool,
}

/// Whether a cover was got, where the given replies come in; none while they do
/// not settle it.
pub open spec fn cover_reply_run(replies: Seq<CoverReply>) -> Option<bool>
    decreases replies.len(),
{
    if replies.len() == 0 {
        None
    } else {
        match cover_reply_step(replies[0].status, replies[0].running) {
            CoverReplyAction::Accept => Some(true),
            CoverReplyAction::GiveUp => Some(false),
            CoverReplyAction::Retry => cover_reply_run(replies.skip(1)),
        }
    }
}

/// A cover is asked for until a reply is good, tells that there is none, or
/// comes after the order to stop: the first such reply decides.
pub proof fn law_cover_is_asked_for_until_settled(replies: Seq<CoverReply>, n: int)
    requires
        0 <= n < replies.len(),
        forall|i: int|
            0 <= i < n ==> (#[trigger] replies[i]).status != OK && replies[i].status != NOT_FOUND
                && replies[i].running,
        replies[n].status == OK || replies[n].status == NOT_FOUND || !replies[n].running,
    ensures
        cover_reply_run(replies) == Some(replies[n].status == OK),
    decreases n,
{
    if n > 0 {
        assert(replies[0].status != OK && replies[0].status != NOT_FOUND && replies[0].running);
        let rest = replies.skip(1);
        assert forall|i: int| 0 <= i < n - 1 implies (#[trigger] rest[i]).status != OK
            && rest[i].status != NOT_FOUND && rest[i].running by {
            assert(rest[i] == replies[i + 1]);
        }
        law_cover_is_asked_for_until_settled(rest, n - 1);
    }
}

/// What the task that reads a body passes on after a read, and whether it
/// reads again.
pub open spec fn relay_step(read: Result<Option<Vec<u8>>, ()>) -> (
    Option<Result<Vec<u8>, ()>>,
    bool,
) {
    match read {
        Ok(Some(chunk)) => (Some(Ok(chunk)), true),
        Ok(None) => (None, false),
        Err(_) => (Some(Err(())), false),
    }
}

/// What the task that reads a body passes on after a read, and whether it
/// reads again: each chunk, then nothing at the end, or an error and no more.
pub fn relay_chunk(read: Result<Option<Vec<u8>>, ()>) -> (r: (Option<Result<Vec<u8>, ()>>, bool))
    ensures
        r == relay_step(read),
{
    match read {
        Ok(Some(chunk)) => (Some(Ok(chunk)), true),
        Ok(None) => (None, false),
        Err(()) => (Some(Err(())), false),
    }
}

/// All that is passed on where the given reads are made.
pub open spec fn relay_run(reads: Seq<Result<Option<Vec<u8>>, ()>>) -> Seq<Result<Vec<u8>, ()>>
    decreases reads.len(),
{
    if reads.len() == 0 {
        Seq::empty()
    } else {
        let (message, more) = relay_step(reads[0]);
        let sent = match message {
            Some(message) => seq![message],
            None => Seq::empty(),
        };
        if more {
            sent + relay_run(reads.skip(1))
        } else {
            sent
        }
    }
}

} // verus!
