use lucida_downloader::downloaders::{
    download_album, download_album_cover, download_track, file_extension, find_page_error,
    full_cover_address, has_full_cover, is_available, receive_track, request_and_download_track,
    resolve_album, start_cover, take_chunk, wants_cover, Album, AlbumOptions, AlbumPageAction, AlbumPageEvent,
    AudioAction, AudioEvent, ChunkAction, CoverAction, CoverEvent, TrackChoice,
};
use lucida_downloader::models::{AlbumYear, ResolveAlbumResult, Service, SkipConfig};
use lucida_downloader::requests::relay_chunk;
use lucida_downloader::text_utils::{file_stem, parse_enclosed_value};

fn fetched(html: &str, running: bool) -> AlbumPageEvent {
    AlbumPageEvent::Fetched { result: ResolveAlbumResult::Success(html.to_string()), running }
}

const DATA_PAGE: &str =
    "x,{\"type\":\"data\",\"data\":{info:1},\"uses\":{\"url\":1}}];\n,\"uses\":{\"url\":1}}];\n";

#[test]
fn album_data_is_taken_from_between_its_markers() {
    match resolve_album(fetched(DATA_PAGE, true)) {
        AlbumPageAction::Decode(data) => assert_eq!(data, "{info:1}"),
        _ => panic!(),
    }
    assert!(matches!(resolve_album(fetched("nothing", true)), AlbumPageAction::Malformed));
}

#[test]
fn album_page_with_an_error_is_asked_for_again() {
    for error in [
        "An error occured trying to process your request.",
        "Message: \"Cannot contact any valid server\"",
        "An error occurred. Had an issue getting that item, try again.",
    ] {
        let html = format!("{DATA_PAGE}{error}");
        assert_eq!(find_page_error(&html), Some(error));
        assert!(matches!(resolve_album(fetched(&html, true)), AlbumPageAction::Sleep(5)));
        assert!(matches!(resolve_album(fetched(&html, false)), AlbumPageAction::Stop));
    }
    assert_eq!(find_page_error(DATA_PAGE), None);
}

#[test]
fn album_without_a_page_is_dropped() {
    for result in [ResolveAlbumResult::Cloudflare, ResolveAlbumResult::Error] {
        let event = AlbumPageEvent::Fetched { result, running: true };
        assert!(matches!(resolve_album(event), AlbumPageAction::Stop));
    }
}

#[test]
fn undecodable_album_is_asked_for_again() {
    assert!(matches!(
        resolve_album(AlbumPageEvent::Rejected { running: true }),
        AlbumPageAction::Sleep(5)
    ));
    assert!(matches!(
        resolve_album(AlbumPageEvent::Rejected { running: false }),
        AlbumPageAction::Stop
    ));
    assert!(matches!(resolve_album(AlbumPageEvent::Slept), AlbumPageAction::Fetch));
}

#[test]
fn enclosed_value_needs_both_markers() {
    assert_eq!(parse_enclosed_value("<", ">", "a<b>c>").as_deref(), Some("b"));
    assert_eq!(parse_enclosed_value("<", ">", "a>b<c"), None);
    assert_eq!(parse_enclosed_value("<", ">", "ab"), None);
}

fn album(tracks: &[&str]) -> Album {
    Album {
        artist_directory: "Artist".to_string(),
        title: "Title?".to_string(),
        title_directory: "Title_".to_string(),
        release_year: "1999".to_string(),
        track_count: tracks.len() as u32,
        track_titles: tracks.iter().map(|track| track.to_string()).collect(),
    }
}

fn options() -> AlbumOptions {
    AlbumOptions {
        group_singles: false,
        album_year: None,
        flatten_directories: false,
        track_workers: 4,
        skip: SkipConfig { tracks: false, cover: false },
    }
}

#[test]
fn album_goes_to_artist_and_title() {
    let plan = download_album(&album(&["a", "b"]), &options());
    assert_eq!(plan.directories, vec!["Artist", "Title_"]);
    assert!(!plan.is_grouped_single);
    assert_eq!(plan.track_workers, 2);
}

#[test]
fn album_directory_carries_the_year() {
    let mut appended = options();
    appended.album_year = Some(AlbumYear::Append);
    assert_eq!(
        download_album(&album(&["a"]), &appended).directories,
        vec!["Artist", "Title_ (1999)"]
    );
    let mut prepended = options();
    prepended.album_year = Some(AlbumYear::Prepend);
    prepended.flatten_directories = true;
    assert_eq!(
        download_album(&album(&["a"]), &prepended).directories,
        vec!["Artist - (1999) Title_"]
    );
}

#[test]
fn single_is_grouped_only_under_its_own_title() {
    let mut grouped = options();
    grouped.group_singles = true;
    grouped.album_year = Some(AlbumYear::Append);
    let plan = download_album(&album(&["Title?"]), &grouped);
    assert!(plan.is_grouped_single);
    assert_eq!(plan.directories, vec!["Artist", "Singles"]);
    assert!(!download_album(&album(&["Other"]), &grouped).is_grouped_single);
    assert!(!download_album(&album(&["Title?", "Title?"]), &grouped).is_grouped_single);
    assert!(!download_album(&album(&["Title?"]), &options()).is_grouped_single);
}

#[test]
fn skipped_tracks_need_no_workers() {
    let mut skipping = options();
    skipping.skip.tracks = true;
    assert_eq!(download_album(&album(&["a"]), &skipping).track_workers, 0);
    let mut few = options();
    few.track_workers = 1;
    assert_eq!(download_album(&album(&["a", "b"]), &few).track_workers, 1);
}

#[test]
fn cover_is_wanted_unless_skipped_grouped_or_stopped() {
    let skip = |cover| SkipConfig { tracks: false, cover };
    assert!(wants_cover(skip(false), false, true));
    assert!(!wants_cover(skip(true), false, true));
    assert!(!wants_cover(skip(false), true, true));
    assert!(!wants_cover(skip(false), false, false));
}

#[test]
fn track_choices() {
    let files = vec!["01. Song.flac".to_string(), "02. Other.mp3.part".to_string()];
    let choose = |service, producers, force, stem| {
        request_and_download_track(service, producers, force, stem, &files)
    };
    assert_eq!(choose(Service::Qobuz, false, true, "03. New"), TrackChoice::Unavailable);
    assert_eq!(choose(Service::Tidal, false, false, "03. New"), TrackChoice::Download);
    assert_eq!(choose(Service::Qobuz, true, false, "01. Song"), TrackChoice::AlreadyDownloaded);
    assert_eq!(choose(Service::Qobuz, true, true, "01. Song"), TrackChoice::Download);
    assert_eq!(choose(Service::Qobuz, true, false, "02. Other"), TrackChoice::Download);
    assert!(is_available(Service::Soundcloud, false));
    assert!(!is_available(Service::Qobuz, false));
}

#[test]
fn stems_are_those_of_the_standard_library() {
    for name in ["a.flac", "a.b.c", ".hidden", ".hidden.x", "plain", "dot.", "01. A. B.mp3"] {
        assert_eq!(
            file_stem(name),
            std::path::Path::new(name).file_stem().unwrap().to_str().unwrap()
        );
    }
}

#[test]
fn extension_follows_the_media_type() {
    assert_eq!(file_extension("audio/flac", "mp3-320"), "flac");
    assert_eq!(file_extension("audio/mpeg; charset=x", "flac"), "mp3");
    for mime_type in ["audio/mp4", "audio/m4a", "audio/x-m4a"] {
        assert_eq!(file_extension(mime_type, "flac"), "m4a");
    }
}

#[test]
fn extension_falls_back_to_the_requested_format() {
    assert_eq!(file_extension("audio/ogg", "m4a-aac-320"), "m4a");
    assert_eq!(file_extension("", "mp3-320"), "mp3");
    assert_eq!(file_extension(";audio/flac", "mp3"), "mp3");
    for downscale in ["original", "flac", "lossless"] {
        assert_eq!(file_extension("x", downscale), "flac");
    }
    assert_eq!(file_extension("x", "opus"), "bin");
}

#[test]
fn finished_track_is_found_again_and_a_part_is_not() {
    let file = download_track("audio/flac", "original", "01. A.B");
    assert_eq!(file.extension, "flac");
    assert_eq!(file.name, "01. A.B.flac");
    assert_eq!(file.part_name, "01. A.B.flac.part");
    let there = vec![file.name];
    let part = vec![file.part_name];
    assert_eq!(
        request_and_download_track(Service::Tidal, true, false, "01. A.B", &there),
        TrackChoice::AlreadyDownloaded
    );
    assert_eq!(
        request_and_download_track(Service::Tidal, true, false, "01. A.B", &part),
        TrackChoice::Download
    );
}

fn write_body(reads: Vec<Result<Option<Vec<u8>>, ()>>) -> (Vec<u8>, bool) {
    let mut messages = Vec::new();
    for read in reads {
        let (message, more) = relay_chunk(read);
        messages.extend(message);
        if !more {
            break;
        }
    }
    let mut written = Vec::new();
    let mut messages = messages.into_iter();
    loop {
        match take_chunk(messages.next()) {
            ChunkAction::Write(chunk) => written.extend(chunk),
            ChunkAction::Fail => return (written, false),
            ChunkAction::Finish => return (written, true),
        }
    }
}

#[test]
fn whole_body_is_written() {
    assert_eq!(
        write_body(vec![Ok(Some(vec![1, 2])), Ok(Some(vec![])), Ok(Some(vec![3])), Ok(None)]),
        (vec![1, 2, 3], true)
    );
}

#[test]
fn failed_read_fails_the_download() {
    assert_eq!(write_body(vec![Ok(Some(vec![1])), Err(()), Ok(None)]), (vec![1], false));
}

#[test]
fn cover_addresses_are_full_size() {
    assert_eq!(
        full_cover_address(Service::Qobuz, "https://static.qobuz.com/images/a_b_600.jpg"),
        "https://static.qobuz.com/images/a_b_org.jpg"
    );
    assert!(!has_full_cover(Service::Qobuz, "https://x/a.jpg"));
    assert!(!has_full_cover(Service::Qobuz, "https://x/a_600.png"));
    assert!(!has_full_cover(Service::Qobuz, "jpg"));
    assert!(has_full_cover(Service::Qobuz, "a_600.jpg"));
    assert!(has_full_cover(Service::Tidal, "jpg"));
    assert_eq!(full_cover_address(Service::Tidal, "https://x/a.png"), "https://x/a.png");
    assert_eq!(full_cover_address(Service::Soundcloud, "y"), "y");
}

#[test]
fn cover_that_is_there_is_left_alone() {
    assert!(matches!(start_cover(false, true), CoverAction::Stop));
    assert!(matches!(start_cover(true, true), CoverAction::Request));
    assert!(matches!(start_cover(false, false), CoverAction::Request));
}

#[test]
fn cover_download_steps() {
    let received = |message, running| download_album_cover(CoverEvent::Received { message, running });
    assert!(matches!(
        download_album_cover(CoverEvent::Requested { opened: false }),
        CoverAction::Stop
    ));
    assert!(matches!(
        download_album_cover(CoverEvent::Requested { opened: true }),
        CoverAction::Create
    ));
    match received(Some(Ok(vec![9])), false) {
        CoverAction::Write(chunk) => assert_eq!(chunk, vec![9]),
        _ => panic!(),
    }
    assert!(matches!(received(Some(Err(())), true), CoverAction::Request));
    assert!(matches!(received(Some(Err(())), false), CoverAction::Stop));
    assert!(matches!(received(None, false), CoverAction::Finish));
}

#[test]
fn cover_that_broke_off_is_written_anew() {
    let mut file: Vec<u8> = Vec::new();
    let mut finished = false;
    let events = vec![
        CoverEvent::Requested { opened: true },
        CoverEvent::Received { message: Some(Ok(vec![9, 9])), running: true },
        CoverEvent::Received { message: Some(Err(())), running: true },
        CoverEvent::Requested { opened: true },
        CoverEvent::Received { message: Some(Ok(vec![1, 2])), running: true },
        CoverEvent::Received { message: Some(Ok(vec![3])), running: true },
        CoverEvent::Received { message: None, running: false },
    ];
    for event in events {
        match download_album_cover(event) {
            CoverAction::Create => file.clear(),
            CoverAction::Write(chunk) => file.extend(chunk),
            CoverAction::Finish => finished = true,
            CoverAction::Request => assert_eq!(file, vec![9, 9]),
            CoverAction::Stop => panic!(),
        }
    }
    assert!(finished);
    assert_eq!(file, vec![1, 2, 3]);
}

#[test]
fn first_usable_page_resolves_the_album() {
    let mut fetches = 0;
    let pages = ["Message: \"Cannot contact any valid server\"", DATA_PAGE];
    let data = loop {
        match resolve_album(fetched(pages[fetches], true)) {
            AlbumPageAction::Sleep(_) => {
                fetches += 1;
                assert!(matches!(resolve_album(AlbumPageEvent::Slept), AlbumPageAction::Fetch));
            }
            AlbumPageAction::Decode(data) => break data,
            _ => panic!(),
        }
    };
    assert_eq!(fetches, 1);
    assert_eq!(data, "{info:1}");
}

#[test]
fn finished_track_is_one_whole_body() {
    let mut part: Vec<u8> = Vec::new();
    let mut finished: Vec<Vec<u8>> = Vec::new();
    let mut failures = 0;
    let events = vec![
        AudioEvent::Requested { opened: false },
        AudioEvent::Requested { opened: true },
        AudioEvent::Received { message: Some(Ok(vec![9])) },
        AudioEvent::Received { message: Some(Err(())) },
        AudioEvent::Requested { opened: true },
        AudioEvent::Received { message: Some(Ok(vec![1])) },
        AudioEvent::Received { message: Some(Ok(vec![2, 3])) },
        AudioEvent::Received { message: None },
    ];
    for event in events {
        match receive_track(event) {
            AudioAction::Create => part.clear(),
            AudioAction::Write(chunk) => part.extend(chunk),
            AudioAction::Fail => {
                failures += 1;
                assert!(finished.is_empty());
            }
            AudioAction::Finish => finished.push(part.clone()),
        }
    }
    assert_eq!(failures, 2);
    assert_eq!(finished, vec![vec![1, 2, 3]]);
}
