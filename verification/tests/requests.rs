use lucida_downloader::models::{
    Availability, DownloadConfig, ResolveAlbumResult, Track, TrackDownload, TrackDownloadResult,
};
use lucida_downloader::requests::{
    album_page_address, check_availability, download_album_cover, download_track, relay_chunk,
    request_track_download, resolve_album, track_audio_address, track_download_request,
    track_download_status, track_status_address, CoverReplyAction, ResolveAlbumAction,
    ResolveAlbumEvent, ServerReplyAction, TrackRequestAction, MAX_RETRIES,
};

#[test]
fn home_page_tells_availability() {
    assert_eq!(check_availability(200, "<h1>Welcome to the world of Lucida</h1>"), Availability::Available);
    assert_eq!(check_availability(200, "<form id=\"download-form\">"), Availability::Available);
    assert_eq!(check_availability(200, "nothing"), Availability::Unavailable);
    assert_eq!(check_availability(403, "download-form"), Availability::Captcha);
    assert_eq!(check_availability(500, "download-form"), Availability::Unavailable);
}

#[test]
fn challenge_wins_over_the_site() {
    for marker in [
        "challenge-platform",
        "cf-chl-widget-",
        "Checking your browser before accessing",
        "__cf_chl_jschl_tk__",
    ] {
        let html = format!("download-form {marker}");
        assert_eq!(check_availability(200, &html), Availability::Captcha);
    }
}

#[test]
fn album_page_address_encodes_its_parameters() {
    assert_eq!(
        album_page_address("https://www.qobuz.com/album/a b&c", "US"),
        "https://lucida.to/?url=https%3A%2F%2Fwww.qobuz.com%2Falbum%2Fa+b%26c&country=US"
    );
    assert_eq!(album_page_address("", ""), "https://lucida.to/?url=&country=");
}

#[test]
fn album_page_address_encodes_every_byte_by_one_rule() {
    for c in ('\u{0}'..='\u{17f}').chain(['\u{2003}', '\u{d7ff}', '\u{e000}', '\u{1f3b5}', char::MAX]) {
        let mut value = String::new();
        for b in c.to_string().bytes() {
            if b.is_ascii_alphanumeric() || b"*-._".contains(&b) {
                value.push(char::from(b));
            } else if b == b' ' {
                value.push('+');
            } else {
                value.push_str(&format!("%{b:02X}"));
            }
        }
        assert_eq!(
            album_page_address(&format!("a{c}"), &format!("{c}z")),
            format!("https://lucida.to/?url=a{value}&country={value}z")
        );
    }
}

#[test]
fn parameters_stay_apart() {
    assert_eq!(
        album_page_address("x&country=DE#top", "US=1"),
        "https://lucida.to/?url=x%26country%3DDE%23top&country=US%3D1"
    );
}

fn reply(status: u16, html: &str, running: bool) -> ResolveAlbumEvent {
    ResolveAlbumEvent::Response { status, html: html.to_string(), running }
}

#[test]
fn good_album_reply_is_a_success() {
    let (attempt, action) = resolve_album(1, reply(200, "<html>", true));
    assert_eq!(attempt, 1);
    match action {
        ResolveAlbumAction::Finish(ResolveAlbumResult::Success(html)) => assert_eq!(html, "<html>"),
        _ => panic!(),
    }
}

#[test]
fn album_replies_that_settle_at_once() {
    assert!(matches!(
        resolve_album(2, reply(200, "challenge-platform", true)).1,
        ResolveAlbumAction::Finish(ResolveAlbumResult::Cloudflare)
    ));
    assert!(matches!(
        resolve_album(2, reply(403, "", true)).1,
        ResolveAlbumAction::Finish(ResolveAlbumResult::Cloudflare)
    ));
    assert!(matches!(
        resolve_album(2, reply(429, "", true)).1,
        ResolveAlbumAction::Finish(ResolveAlbumResult::Error)
    ));
    assert!(matches!(
        resolve_album(2, reply(502, "", false)).1,
        ResolveAlbumAction::Finish(ResolveAlbumResult::Error)
    ));
}

#[test]
fn album_page_is_asked_for_five_times() {
    let mut attempt = 1;
    let mut requests = 0;
    loop {
        requests += 1;
        let (next, action) = resolve_album(attempt, reply(502, "", true));
        assert_eq!(next, attempt);
        assert!(matches!(action, ResolveAlbumAction::Sleep(5)));
        match resolve_album(attempt, ResolveAlbumEvent::Slept) {
            (next, ResolveAlbumAction::Send) => attempt = next,
            (_, ResolveAlbumAction::Finish(ResolveAlbumResult::Error)) => break,
            _ => panic!(),
        }
    }
    assert_eq!(requests, MAX_RETRIES);
}

fn accepted() -> TrackDownload {
    TrackDownload { server: "hund".to_string(), handoff: "abc".to_string() }
}

#[test]
fn track_request_body_is_filled_in() {
    let track = Track {
        title: "Title".to_string(),
        url: "https://play.qobuz.com/track/1".to_string(),
        csrf: "one".to_string(),
        csrf_fallback: Some("two".to_string()),
        has_producers: true,
    };
    let config = DownloadConfig {
        country: "US".to_string(),
        metadata: true,
        private: false,
        downscale: "flac".to_string(),
    };
    let request = track_download_request(&track, 7, &config);
    assert_eq!(request.account.id, "US");
    assert_eq!(request.account.kind, "country");
    assert!(!request.compat && request.handoff && request.metadata && !request.private);
    assert_eq!(request.downscale, "flac");
    assert_eq!(request.token.expiry, 7);
    assert_eq!(request.token.primary, "one");
    assert_eq!(request.token.secondary.as_deref(), Some("two"));
    assert!(!request.upload.enabled);
    assert_eq!(request.url, "https://play.qobuz.com/track/1");
}

#[test]
fn track_request_ends_with_acceptance() {
    match request_track_download(200, Some(TrackDownloadResult::Accepted(accepted())), false) {
        TrackRequestAction::Finish(Some(download)) => assert_eq!(download.handoff, "abc"),
        _ => panic!(),
    }
}

#[test]
fn track_request_is_repeated_until_stopped() {
    let refused = || Some(TrackDownloadResult::Refused { error: "busy".to_string() });
    assert!(matches!(request_track_download(200, refused(), true), TrackRequestAction::Sleep(5)));
    assert!(matches!(request_track_download(200, None, true), TrackRequestAction::Sleep(5)));
    assert!(matches!(request_track_download(503, None, true), TrackRequestAction::Sleep(5)));
    assert!(matches!(request_track_download(200, refused(), false), TrackRequestAction::Finish(None)));
    assert!(matches!(request_track_download(200, None, false), TrackRequestAction::Finish(None)));
    assert!(matches!(request_track_download(503, None, false), TrackRequestAction::Finish(None)));
}

#[test]
fn track_addresses_name_server_and_handoff() {
    assert_eq!(
        track_status_address(&accepted()),
        "https://hund.lucida.to/api/fetch/request/abc"
    );
    assert_eq!(
        track_audio_address(&accepted()),
        "https://hund.lucida.to/api/fetch/request/abc/download"
    );
}

#[test]
fn lost_downloads_are_given_up() {
    for step in [track_download_status, download_track] {
        assert!(matches!(step(200), ServerReplyAction::Accept));
        assert!(matches!(step(404), ServerReplyAction::GiveUp));
        assert!(matches!(step(500), ServerReplyAction::GiveUp));
        assert!(matches!(step(502), ServerReplyAction::Sleep(5)));
    }
}

#[test]
fn cover_replies() {
    assert_eq!(download_album_cover(200, false), CoverReplyAction::Accept);
    assert_eq!(download_album_cover(404, true), CoverReplyAction::GiveUp);
    assert_eq!(download_album_cover(503, true), CoverReplyAction::Retry);
    assert_eq!(download_album_cover(503, false), CoverReplyAction::GiveUp);
}

#[test]
fn chunks_are_relayed_until_the_end_or_an_error() {
    assert_eq!(relay_chunk(Ok(Some(vec![1, 2]))), (Some(Ok(vec![1, 2])), true));
    assert_eq!(relay_chunk(Ok(None)), (None, false));
    assert_eq!(relay_chunk(Err(())), (Some(Err(())), false));
}

#[test]
fn server_is_asked_until_it_settles() {
    let ends = |statuses: &[u16]| {
        statuses
            .iter()
            .position(|status| !matches!(track_download_status(*status), ServerReplyAction::Sleep(5)))
    };
    assert_eq!(ends(&[503, 429, 200, 404]), Some(2));
    assert_eq!(ends(&[502, 500, 200]), Some(1));
    assert_eq!(ends(&[503, 502]), None);
}

#[test]
fn cover_is_asked_for_until_settled() {
    let settled = |replies: &[(u16, bool)]| {
        replies
            .iter()
            .map(|(status, running)| download_album_cover(*status, *running))
            .find(|action| *action != CoverReplyAction::Retry)
    };
    assert_eq!(settled(&[(500, true), (200, false)]), Some(CoverReplyAction::Accept));
    assert_eq!(settled(&[(500, true), (404, true)]), Some(CoverReplyAction::GiveUp));
    assert_eq!(settled(&[(500, true), (500, false)]), Some(CoverReplyAction::GiveUp));
}
