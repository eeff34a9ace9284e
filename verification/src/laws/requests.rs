//! What the site's replies lead to.
use crate::form::{encoded, encoded_byte, encoded_bytes};
use crate::models::{
    Availability, DownloadConfig, ResolveAlbumResult, Track, TrackDownload, TrackDownloadRequest,
    TrackDownloadResult,
};
use crate::requests::{
    album_address, asks_for, audio_address, availability, cover_reply_step, relay_step,
    resolve_album_run, resolve_album_step, server_reply_step, status_address, track_request_step,
    AlbumReply, CoverReplyAction, ResolveAlbumAction, ResolveAlbumEvent, ServerReplyAction,
    TrackRequestAction, TRACK_REQUEST_ADDRESS,
};
use crate::text::mentions;
use vstd::prelude::*;

verus! {

/// A good home page with any of the four marks of a challenge asks for a
/// captcha, whatever else it holds; without them it tells that the site is
/// available exactly if it greets or holds the download form.
pub proof fn law_home_page_tells_the_sites_state(html: Seq<char>)
    ensures
        ({
            let challenged = mentions(html, "challenge-platform"@) || mentions(
                html,
                "cf-chl-widget-"@,
            ) || mentions(html, "Checking your browser before accessing"@) || mentions(
                html,
                "__cf_chl_jschl_tk__"@,
            );
            let own = mentions(html, "Welcome to the world of Lucida"@) || mentions(
                html,
                "download-form"@,
            );
            &&& availability(200, html) is Captcha <==> challenged
            &&& availability(200, html) is Available <==> !challenged && own
            &&& availability(200, html) is Unavailable <==> !challenged && !own
        }),
{
}

/// A refusal asks for a captcha, and any other reply than a good one tells that
/// the site is unavailable, whatever its body holds.
pub proof fn law_bad_reply_tells_the_sites_state(status: u16, html: Seq<char>)
    requires
        status != 200,
    ensures
        availability(status, html) is Captcha <==> status == 403,
        availability(status, html) is Unavailable <==> status != 403,
{
}

/// A good album page without any of the four marks of a challenge is handed on
/// as it is; with one of them the site is taken to be challenged.
pub proof fn law_good_album_page_is_handed_on(attempt: usize, html: String, running: bool)
    ensures
        ({
            let event = ResolveAlbumEvent::Response { status: 200, html, running };
            let challenged = mentions(html@, "challenge-platform"@) || mentions(
                html@,
                "cf-chl-widget-"@,
            ) || mentions(html@, "Checking your browser before accessing"@) || mentions(
                html@,
                "__cf_chl_jschl_tk__"@,
            );
            &&& !challenged ==> resolve_album_step(attempt, event) == (
                attempt,
                ResolveAlbumAction::Finish(ResolveAlbumResult::Success(html)),
            )
            &&& challenged ==> resolve_album_step(attempt, event) == (
                attempt,
                ResolveAlbumAction::Finish(ResolveAlbumResult::Cloudflare),
            )
        }),
{
}

/// Of the other replies to a request for an album page, a refusal tells of a
/// challenge and a rate limit of an error, at once; the rest is an error where
/// the downloader stops, and is else followed by a pause of five seconds.
pub proof fn law_bad_album_reply_is_refused_or_repeated(
    attempt: usize,
    status: u16,
    html: String,
    running: bool,
)
    requires
        status != 200,
    ensures
        ({
            let event = ResolveAlbumEvent::Response { status, html, running };
            let (next, action) = resolve_album_step(attempt, event);
            &&& next == attempt
            &&& status == 403 ==> action == ResolveAlbumAction::Finish(
                ResolveAlbumResult::Cloudflare,
            )
            &&& status == 429 ==> action == ResolveAlbumAction::Finish(ResolveAlbumResult::Error)
            &&& status != 403 && status != 429 && !running ==> action
                == ResolveAlbumAction::Finish(ResolveAlbumResult::Error)
            &&& status != 403 && status != 429 && running ==> action == ResolveAlbumAction::Sleep(5)
        }),
{
}

/// After a pause the album page is asked for once more, up to the fifth time.
pub proof fn law_album_page_is_asked_for_five_times(attempt: usize)
    ensures
        1 <= attempt <= 4 ==> resolve_album_step(attempt, ResolveAlbumEvent::Slept) == (
            (attempt + 1) as usize,
            ResolveAlbumAction::Send,
        ),
        attempt >= 5 ==> resolve_album_step(attempt, ResolveAlbumEvent::Slept).1
            == ResolveAlbumAction::Finish(ResolveAlbumResult::Error),
{
}

/// Where the first replies are neither good nor a refusal nor a rate limit and
/// the downloader goes on, a good reply within five attempts still gives its
/// page; five such replies give an error.
pub proof fn law_album_page_is_got_within_five_attempts(replies: Seq<AlbumReply>, n: int)
    requires
        0 <= n <= 5,
        n <= replies.len(),
        forall|i: int|
            0 <= i < n ==> (#[trigger] replies[i]).status != 200 && replies[i].status != 403
                && replies[i].status != 429 && replies[i].running,
    ensures
        n == 5 ==> resolve_album_run(1, replies) == Some(ResolveAlbumResult::Error),
        n < 5 && n < replies.len() && replies[n].status == 200 && !mentions(
            replies[n].html@,
            "challenge-platform"@,
        ) && !mentions(replies[n].html@, "cf-chl-widget-"@) && !mentions(
            replies[n].html@,
            "Checking your browser before accessing"@,
        ) && !mentions(replies[n].html@, "__cf_chl_jschl_tk__"@) ==> resolve_album_run(1, replies)
            == Some(ResolveAlbumResult::Success(replies[n].html)),
{
    lemma_album_page_is_got(1, replies, n);
}

proof fn lemma_album_page_is_got(attempt: usize, replies: Seq<AlbumReply>, n: int)
    requires
        1 <= attempt <= 5,
        0 <= n <= 6 - attempt,
        n <= replies.len(),
        forall|i: int|
            0 <= i < n ==> (#[trigger] replies[i]).status != 200 && replies[i].status != 403
                && replies[i].status != 429 && replies[i].running,
    ensures
        n == 6 - attempt ==> resolve_album_run(attempt, replies) == Some(ResolveAlbumResult::Error),
        n < 6 - attempt && n < replies.len() && replies[n].status == 200 && !mentions(
            replies[n].html@,
            "challenge-platform"@,
        ) && !mentions(replies[n].html@, "cf-chl-widget-"@) && !mentions(
            replies[n].html@,
            "Checking your browser before accessing"@,
        ) && !mentions(replies[n].html@, "__cf_chl_jschl_tk__"@) ==> resolve_album_run(
            attempt,
            replies,
        ) == Some(ResolveAlbumResult::Success(replies[n].html)),
    decreases n,
{
    if n > 0 {
        assert(replies[0].status != 200 && replies[0].running);
        if attempt < 5 {
            let rest = replies.skip(1);
            assert forall|i: int| 0 <= i < n - 1 implies (#[trigger] rest[i]).status != 200
                && rest[i].status != 403 && rest[i].status != 429 && rest[i].running by {
                assert(rest[i] == replies[i + 1]);
            }
            lemma_album_page_is_got((attempt + 1) as usize, rest, n - 1);
        }
    }
}

/// The request for an album page carries the album's URL and the country, in
/// that order, and nothing else.
pub proof fn law_album_page_is_asked_for_by_url_and_country(url: Seq<char>, country: Seq<char>)
    ensures
        album_address(url, country) == "https://lucida.to/?url="@ + encoded(url) + "&country="@
            + encoded(country),
{
}

/// The number that an upper-case hexadecimal digit stands for; none for another
/// character.
pub open spec fn hex_value(c: char) -> int {
    if '0' <= c <= '9' {
        c as int - '0' as int
    } else if 'A' <= c <= 'F' {
        c as int - 'A' as int + 10
    } else {
        -1
    }
}

/// Parameters are encoded byte by byte: letters, digits and the four marks `*`,
/// `-`, `.` and `_` stay, the space becomes a plus sign, and any other byte a
/// percent sign and the two digits of its number.
pub proof fn law_parameters_are_encoded_byte_by_byte(front: Seq<u8>, b: u8, back: Seq<u8>)
    ensures
        ({
            let code = encoded_byte(b);
            let c = b as char;
            let stays = ('a' <= c <= 'z') || ('A' <= c <= 'Z') || ('0' <= c <= '9') || c == '*' || c
                == '-' || c == '.' || c == '_';
            &&& encoded_bytes(front.push(b) + back) == encoded_bytes(front) + code + encoded_bytes(
                back,
            )
            &&& stays ==> code == seq![c]
            &&& c == ' ' ==> code == seq!['+']
            &&& !stays && c != ' ' ==> code.len() == 3 && code[0] == '%' && 0 <= hex_value(code[1])
                && 0 <= hex_value(code[2]) && 16 * hex_value(code[1]) + hex_value(code[2]) == b
        }),
    decreases front.len(),
{
    let all = front.push(b) + back;
    if front.len() == 0 {
        assert(all.skip(1) =~= back);
        assert(encoded_bytes(all) =~= encoded_bytes(front) + encoded_byte(b) + encoded_bytes(back));
    } else {
        law_parameters_are_encoded_byte_by_byte(front.skip(1), b, back);
        assert(all.skip(1) =~= front.skip(1).push(b) + back);
        assert(encoded_bytes(all) =~= encoded_bytes(front) + encoded_byte(b) + encoded_bytes(back));
    }
}

/// The body of a request for a track names the track and its tokens, the
/// country and the format; it asks for a handoff, and neither for an upload nor
/// for compatibility.
pub proof fn law_track_request_is_filled_in(
    request: TrackDownloadRequest,
    track: Track,
    token_expiry: u64,
    config: DownloadConfig,
)
    requires
        asks_for(request, track, token_expiry, config),
    ensures
        request.url@ == track.url@,
        request.token.primary@ == track.csrf@,
        request.token.expiry == token_expiry,
        request.token.secondary is Some <==> track.csrf_fallback is Some,
        track.csrf_fallback is Some ==> request.token.secondary->0@ == track.csrf_fallback->0@,
        request.account.id@ == config.country@,
        request.account.kind@ == "country"@,
        request.downscale@ == config.downscale@,
        request.metadata <==> config.metadata,
        request.private <==> config.private,
        request.handoff,
        !request.compat,
        !request.upload.enabled,
        TRACK_REQUEST_ADDRESS@ == "https://lucida.to/api/load?url=%2Fapi%2Ffetch%2Fstream%2Fv2"@,
{
}

/// A good reply that accepts a request for a track ends with that download,
/// even where the downloader stops. After any other reply, whatever its status
/// or body, the request is repeated after five seconds while the downloader
/// goes on, and dropped where it stops.
pub proof fn law_track_is_requested_until_accepted(
    status: u16,
    body: Option<TrackDownloadResult>,
    running: bool,
    download: TrackDownload,
)
    ensures
        track_request_step(200, Some(TrackDownloadResult::Accepted(download)), running)
            == TrackRequestAction::Finish(Some(download)),
        status != 200 || !(body matches Some(TrackDownloadResult::Accepted(_))) ==> {
            &&& track_request_step(status, body, true) == TrackRequestAction::Sleep(5)
            &&& track_request_step(status, body, false) == TrackRequestAction::Finish(None)
        },
{
}

/// A server's good reply is read; that something is not found or broken ends
/// the attempt; after any other reply it is asked again in five seconds.
pub proof fn law_server_replies_are_told_apart(status: u16)
    ensures
        server_reply_step(status) is Accept <==> status == 200,
        server_reply_step(status) is GiveUp <==> status == 404 || status == 500,
        status != 200 && status != 404 && status != 500 ==> server_reply_step(status)
            == ServerReplyAction::Sleep(5),
{
}

/// A server is asked at the host of its name, for the given handoff; the audio
/// is one step below.
pub proof fn law_server_is_asked_under_its_name(server: Seq<char>, handoff: Seq<char>)
    ensures
        status_address(server, handoff) == "https://"@ + server
            + ".lucida.to/api/fetch/request/"@ + handoff,
        audio_address(server, handoff) == "https://"@ + server
            + ".lucida.to/api/fetch/request/"@ + handoff + "/download"@,
{
}

/// A good reply to a request for a cover is read; that there is none, or the
/// order to stop, ends the matter; any other reply is followed by a new request
/// at once.
pub proof fn law_cover_replies_are_told_apart(status: u16, running: bool)
    ensures
        cover_reply_step(status, running) is Accept <==> status == 200,
        cover_reply_step(status, running) is GiveUp <==> status == 404 || (status != 200
            && !running),
        cover_reply_step(status, running) is Retry <==> status != 200 && status != 404 && running,
{
}

/// A read chunk is passed on as it is and followed by another read; the end of
/// the body passes nothing on, a failed read the failure, and neither is
/// followed by another read.
pub proof fn law_reads_are_passed_on(chunk: Vec<u8>)
    ensures
        relay_step(Ok(Some(chunk))) == (Some(Ok::<Vec<u8>, ()>(chunk)), true),
        relay_step(Ok(None)) == (None::<Result<Vec<u8>, ()>>, false),
        relay_step(Err(())) == (Some(Err::<Vec<u8>, ()>(())), false),
{
}

} // verus!
