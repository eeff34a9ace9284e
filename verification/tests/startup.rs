use lucida_downloader::models::Availability;
use lucida_downloader::startup::{
    add_detected, album_worker_count, collect_urls, detect_artist_page, expand_urls,
    needs_detection, startup_error, Credentials, StartupError,
};
use lucida_downloader::stats::FormatStats;
use lucida_downloader::text::{split_words, trimmed};

fn strings(items: &[&str]) -> Vec<String> {
    items.iter().map(|item| item.to_string()).collect()
}

#[test]
fn urls_are_queued_in_reverse_without_blank_lines() {
    assert_eq!(
        collect_urls(strings(&["a", "b"]), strings(&["c", "", " \t", " d ", "\u{3000}"])),
        vec![" d ", "c", "b", "a"]
    );
    assert!(collect_urls(Vec::new(), strings(&[" "])).is_empty());
}

#[test]
fn artist_pages_are_known_by_their_address() {
    assert!(detect_artist_page("https://www.qobuz.com/us-en/interpreter/x/1"));
    assert!(detect_artist_page("https://tidal.com/artist/1"));
    assert!(!detect_artist_page("https://www.qobuz.com/album/x"));
}

#[test]
fn queue_gives_albums_in_the_given_order() {
    let urls = collect_urls(strings(&["one", "https://x/artist/y", "two"]), Vec::new());
    let albums: Vec<Vec<String>> = urls
        .iter()
        .map(|url| if detect_artist_page(url) { strings(&["p", "q"]) } else { strings(&["z"]) })
        .collect();
    let mut queue = expand_urls(&urls, &albums);
    let mut order = Vec::new();
    while let Some(url) = queue.pop() {
        order.push(url);
    }
    assert_eq!(order, vec!["one", "p", "q", "two"]);
}

fn credentials(cookie: Option<&str>, agent: Option<&str>) -> Credentials {
    Credentials {
        cf_clearance: cookie.map(String::from),
        user_agent: agent.map(String::from),
    }
}

#[test]
fn browser_is_searched_only_for_what_is_missing() {
    assert!(needs_detection(true, false, &credentials(None, Some("ua"))));
    assert!(needs_detection(true, false, &credentials(Some("c"), None)));
    assert!(!needs_detection(true, false, &credentials(Some("c"), Some("ua"))));
    assert!(!needs_detection(true, true, &credentials(None, None)));
    assert!(!needs_detection(false, false, &credentials(None, None)));
}

#[test]
fn detected_credentials_fill_in_what_is_missing() {
    let detected = || Some(("found".to_string(), "agent".to_string()));
    let both = add_detected(credentials(None, None), detected()).unwrap();
    assert_eq!(both.cf_clearance.as_deref(), Some("found"));
    assert_eq!(both.user_agent.as_deref(), Some("agent"));
    let kept = add_detected(credentials(Some("given"), None), detected()).unwrap();
    assert_eq!(kept.cf_clearance.as_deref(), Some("given"));
    assert_eq!(kept.user_agent.as_deref(), Some("agent"));
    let alone = add_detected(credentials(None, Some("ua")), None).unwrap();
    assert_eq!(alone.cf_clearance, None);
    assert_eq!(alone.user_agent.as_deref(), Some("ua"));
    assert!(add_detected(credentials(None, None), None).is_none());
}

#[test]
fn startup_errors() {
    let given = credentials(Some("c"), Some("ua"));
    let partial = credentials(Some("c"), None);
    assert_eq!(startup_error(Availability::Available, &given), None);
    assert_eq!(
        startup_error(Availability::Captcha, &given),
        Some(StartupError::CredentialsRejected)
    );
    assert_eq!(
        startup_error(Availability::Captcha, &partial),
        Some(StartupError::CaptchaRequired)
    );
    assert_eq!(
        startup_error(Availability::Unavailable, &given),
        Some(StartupError::SiteUnavailable)
    );
}

#[test]
fn no_more_workers_than_albums() {
    assert_eq!(album_worker_count(4, 2), 2);
    assert_eq!(album_worker_count(1, 2), 1);
}

#[test]
fn formats_are_counted_and_sorted() {
    let mut stats = FormatStats::new();
    for format in ["mp3", "flac", "mp3", "bin", "m4a", "mp3", "flac"] {
        stats.record(format);
    }
    let expected: Vec<(String, usize)> = vec![
        ("bin".to_string(), 1),
        ("flac".to_string(), 2),
        ("m4a".to_string(), 1),
        ("mp3".to_string(), 3),
    ];
    assert_eq!(stats.summary(), &expected);
    assert!(FormatStats::new().summary().is_empty());
}

#[test]
fn trimming_and_words_follow_the_standard_library() {
    for text in ["", " ", "a", "  a b\t\nc ", "\u{a0}x\u{2003}y\u{3000}", "one  two"] {
        assert_eq!(trimmed(text), text.trim());
        let words: Vec<&str> = text.split_whitespace().collect();
        assert_eq!(split_words(text), words);
    }
}

#[test]
fn white_space_is_that_of_the_unicode_database() {
    for c in '\u{0}'..=char::MAX {
        let listed = matches!(
            c,
            '\u{9}'..='\u{d}'
                | '\u{20}'
                | '\u{85}'
                | '\u{a0}'
                | '\u{1680}'
                | '\u{2000}'..='\u{200a}'
                | '\u{2028}'
                | '\u{2029}'
                | '\u{202f}'
                | '\u{205f}'
                | '\u{3000}'
        );
        assert_eq!(trimmed(c.encode_utf8(&mut [0; 4])).is_empty(), listed);
    }
}
