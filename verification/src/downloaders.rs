//! What is downloaded of an album, where it goes, and under which names.
use crate::models::{AlbumYear, ResolveAlbumResult, Service, SkipConfig};
use crate::requests::{relay_run, RETRY_SECONDS};
use crate::stats::counted;
use crate::text::{
    chars_of, contains, ends, lemma_rfind, mentions, rfind, same_text, search_last, string_of, texts,
};
use crate::text_utils::{
    enclosed_value, file_stem, lemma_stem_of_name, parse_enclosed_value, stem, with_extension,
};
use vstd::prelude::*;
use vstd::slice::slice_subrange;

verus! {

/// The message of the first of the site's known errors that a page shows.
pub open spec fn page_error(html: Seq<char>) -> Option<Seq<char>> {
    if mentions(html, "An error occured trying to process your request."@) {
        Some("An error occured trying to process your request."@)
    } else if mentions(html, "Message: \"Cannot contact any valid server\""@) {
        Some("Message: \"Cannot contact any valid server\""@)
    } else if mentions(html, "An error occurred. Had an issue getting that item, try again."@) {
        Some("An error occurred. Had an issue getting that item, try again."@)
    } else {
        None
    }
}

/// The message of the first of the site's known errors that a page shows.
pub fn find_page_error(html: &str) -> (r: Option<&'static str>)
    ensures
        match r {
            Some(error) => page_error(html@) == Some(error@),
            None => page_error(html@) is None,
        },
{
    if contains(html, "An error occured trying to process your request.") {
        Some("An error occured trying to process your request.")
    } else if contains(html, "Message: \"Cannot contact any valid server\"") {
        Some("Message: \"Cannot contact any valid server\"")
    } else if contains(html, "An error occurred. Had an issue getting that item, try again.") {
        Some("An error occurred. Had an issue getting that item, try again.")
    } else {
        None
    }
}

/// The album data that a page holds, if its markers are there.
pub open spec fn page_data(html: Seq<char>) -> Option<Seq<char>> {
    enclosed_value(",{\"type\":\"data\",\"data\":"@, ",\"uses\":{\"url\":1}}];\n"@, html)
}

/// What happens while an album is resolved. `running` tells whether the
/// downloader goes on.
pub enum AlbumPageEvent {
    /// The request for the page has ended.
    Fetched { result: ResolveAlbumResult, running: bool },
    /// The album data could not be decoded.
    Rejected { running: bool },
    /// The pause is over.
    Slept,
}

/// What is done next to resolve an album.
pub enum AlbumPageAction {
    /// The page is asked for.
    Fetch,
    /// The album data is decoded; where that works, the album is resolved.
    Decode(String),
    Sleep(u64),
    /// The page does not hold the markers of the album data.
    Malformed,
    Stop,
}

/// What an action to resolve an album is, with the text that it carries.
pub enum AlbumPageStep {
    Fetch,
    Decode(Seq<char>),
    Sleep(u64),
    Malformed,
    Stop,
}

impl View for AlbumPageAction {
    type V = AlbumPageStep;

    open spec fn view(&self) -> AlbumPageStep {
        match *self {
            AlbumPageAction::Fetch => AlbumPageStep::Fetch,
            AlbumPageAction::Decode(data) => AlbumPageStep::Decode(data@),
            AlbumPageAction::Sleep(seconds) => AlbumPageStep::Sleep(seconds),
            AlbumPageAction::Malformed => AlbumPageStep::Malformed,
            AlbumPageAction::Stop => AlbumPageStep::Stop,
        }
    }
}

/// A pause before the page is asked for again, or the end where the
/// downloader stops.
pub open spec fn pause_or_stop(running: bool) -> AlbumPageStep {
    if running {
        AlbumPageStep::Sleep(RETRY_SECONDS)
    } else {
        AlbumPageStep::Stop
    }
}

/// What is done next to resolve an album. A page that shows an error, or
/// whose data cannot be decoded, is asked for again while the downloader
/// runs; a failed request ends the matter.
pub open spec fn album_page_step(event: AlbumPageEvent) -> AlbumPageStep {
    match event {
        AlbumPageEvent::Fetched { result: ResolveAlbumResult::Success(html), running } => {
            if page_error(html@) is Some {
                pause_or_stop(running)
            } else {
                match page_data(html@) {
                    Some(data) => AlbumPageStep::Decode(data),
                    None => AlbumPageStep::Malformed,
                }
            }
        },
        AlbumPageEvent::Fetched { .. } => AlbumPageStep::Stop,
        AlbumPageEvent::Rejected { running } => pause_or_stop(running),
        AlbumPageEvent::Slept => AlbumPageStep::Fetch,
    }
}

/// Takes an event while an album is resolved, and tells what to do next.
pub fn resolve_album(event: AlbumPageEvent) -> (r: AlbumPageAction)
    ensures
        r@ == album_page_step(event),
{
    let running: bool = match event {
        AlbumPageEvent::Fetched { result: ResolveAlbumResult::Success(html), running } => {
            if find_page_error(html.as_str()).is_none() {
                return match parse_enclosed_value(
                    ",{\"type\":\"data\",\"data\":",
                    ",\"uses\":{\"url\":1}}];\n",
                    html.as_str(),
                ) {
                    Some(data) => AlbumPageAction::Decode(data),
                    None => AlbumPageAction::Malformed,
                };
            }
            running
        },
        AlbumPageEvent::Fetched { .. } => {
            return AlbumPageAction::Stop;
        },
        AlbumPageEvent::Rejected { running } => running,
        AlbumPageEvent::Slept => {
            return AlbumPageAction::Fetch;
        },
    };
    if running {
        AlbumPageAction::Sleep(RETRY_SECONDS)
    } else {
        AlbumPageAction::Stop
    }
}

/// An album is dropped only where its page could not be had, or where the
/// downloader was told to stop.
pub proof fn law_album_is_dropped_only_when_refused_or_stopped(event: AlbumPageEvent)
    requires
        album_page_step(event) is Stop,
    ensures
        match event {
            AlbumPageEvent::Fetched { result, running } => !(result is Success) || !running,
            AlbumPageEvent::Rejected { running } => !running,
            AlbumPageEvent::Slept => false,
        },
{
}

/// A page that shows one of the site's errors is never decoded.
pub proof fn law_error_page_is_not_decoded(html: String, running: bool)
    requires
        page_error(html@) is Some,
    ensures
        ({
            let result = ResolveAlbumResult::Success(html);
            !(album_page_step(AlbumPageEvent::Fetched { result, running }) is Decode)
        }),
{
}

/// One round of resolving an album: what the request for its page gave, whether
/// the data of that page can be decoded, and whether the downloader goes on.
pub struct AlbumRound {
    pub result: ResolveAlbumResult,
    pub decodes: bool,
    pub running: bool,
}

/// What comes of a round.
pub open spec fn album_round(round: AlbumRound) -> AlbumPageStep {
    let fetched = AlbumPageEvent::Fetched { result: round.result, running: round.running };
    match album_page_step(fetched) {
        AlbumPageStep::Decode(data) => if round.decodes {
            AlbumPageStep::Decode(data)
        } else {
            album_page_step(AlbumPageEvent::Rejected { running: round.running })
        },
        step => step,
    }
}

/// Whether a round is followed by another: its page shows an error or cannot
/// be decoded, and the downloader goes on.
pub open spec fn is_repeated(round: AlbumRound) -> bool {
    &&& round.running
    &&& round.result matches ResolveAlbumResult::Success(html) && (page_error(html@) is Some || (
    page_data(html@) is Some && !round.decodes))
}

/// The end of resolving an album, where the given rounds are made; none while
/// they do not settle it.
pub open spec fn album_page_run(rounds: Seq<AlbumRound>) -> Option<AlbumPageStep>
    decreases rounds.len(),
{
    if rounds.len() == 0 {
        None
    } else {
        match album_round(rounds[0]) {
            AlbumPageStep::Sleep(_) => match album_page_step(AlbumPageEvent::Slept) {
                AlbumPageStep::Fetch => album_page_run(rounds.skip(1)),
                step => Some(step),
            },
            step => Some(step),
        }
    }
}

/// A page is asked for as long as it shows an error or cannot be decoded: the
/// first round of another kind decides. A page that can be decoded gives its
/// album data, a page without such data is malformed, and otherwise the album
/// is dropped.
pub proof fn law_album_is_resolved_by_the_first_usable_page(rounds: Seq<AlbumRound>, n: int)
    requires
        0 <= n < rounds.len(),
        forall|i: int| 0 <= i < n ==> is_repeated(#[trigger] rounds[i]),
        !is_repeated(rounds[n]),
    ensures
        album_page_run(rounds) == match rounds[n].result {
            ResolveAlbumResult::Success(html) if page_error(html@) is None => match page_data(
                html@,
            ) {
                Some(data) if rounds[n].decodes => Some(AlbumPageStep::Decode(data)),
                Some(_) => Some(AlbumPageStep::Stop),
                None => Some(AlbumPageStep::Malformed),
            },
            _ => Some(AlbumPageStep::Stop),
        },
    decreases n,
{
    if n > 0 {
        assert(is_repeated(rounds[0]));
        let rest = rounds.skip(1);
        assert forall|i: int| 0 <= i < n - 1 implies is_repeated(#[trigger] rest[i]) by {
            assert(rest[i] == rounds[i + 1]);
        }
        law_album_is_resolved_by_the_first_usable_page(rest, n - 1);
    }
}

/// An album, as far as its place on disk depends on it. The artist's and the
/// album's directory are their names made fit for a file name.
pub struct Album {
    pub artist_directory: String,
    pub title: String,
    pub title_directory: String,
    pub release_year: String,
    pub track_count: u32,
    pub track_titles: Vec<String>,
}

/// How albums are laid out and how many tracks are fetched at once.
#[derive(Clone, Copy)]
pub struct AlbumOptions {
    pub group_singles: bool,
    pub album_year: Option<AlbumYear>,
    pub flatten_directories: bool,
    pub track_workers: usize,
    pub skip: SkipConfig,
}

/// What is done for an album.
pub struct AlbumPlan {
    /// Whether the album is a single that goes to the artist's singles.
    pub is_grouped_single: bool,
    /// The directories below the output directory, outermost first.
    pub directories: Vec<String>,
    /// How many workers fetch tracks; none where tracks are skipped.
    pub track_workers: usize,
}

/// Whether an album is a single that goes to the artist's singles: singles
/// are grouped, it counts one track, and every track bears its title.
pub open spec fn is_grouped_single(album: Album, options: AlbumOptions) -> bool {
    &&& options.group_singles
    &&& album.track_count == 1
    &&& forall|i: int|
        0 <= i < album.track_titles@.len() ==> (#[trigger] album.track_titles@[i])@ == album.title@
}

/// The name of an album's own directory.
pub open spec fn album_directory(album: Album, options: AlbumOptions) -> Seq<char> {
    if is_grouped_single(album, options) {
        "Singles"@
    } else {
        match options.album_year {
            Some(AlbumYear::Append) => album.title_directory@ + " ("@ + album.release_year@ + ")"@,
            Some(AlbumYear::Prepend) => "("@ + album.release_year@ + ") "@ + album.title_directory@,
            None => album.title_directory@,
        }
    }
}

/// The directories of an album below the output directory: the artist's and
/// the album's, or one that bears both names.
pub open spec fn album_directories(album: Album, options: AlbumOptions) -> Seq<Seq<char>> {
    if options.flatten_directories {
        seq![album.artist_directory@ + " - "@ + album_directory(album, options)]
    } else {
        seq![album.artist_directory@, album_directory(album, options)]
    }
}

/// The smaller of two counts.
pub open spec fn smaller(a: usize, b: usize) -> usize {
    if a <= b {
        a
    } else {
        b
    }
}

/// How many workers fetch the given number of tracks.
pub open spec fn track_worker_count(options: AlbumOptions, tracks: usize) -> usize {
    if options.skip.tracks {
        0
    } else {
        smaller(options.track_workers, tracks)
    }
}

/// Whether every title of the list is the given one.
fn all_titled(titles: &Vec<String>, title: &str) -> (r: bool)
    ensures
        r == forall|i: int| 0 <= i < titles@.len() ==> (#[trigger] titles@[i])@ == title@,
{
    let mut i: usize = 0;
    while i < titles.len()
        invariant
            i <= titles.len(),
            forall|j: int| 0 <= j < i ==> (#[trigger] titles@[j])@ == title@,
        decreases titles.len() - i,
    {
        if !same_text(titles[i].as_str(), title) {
            return false;
        }
        i += 1;
    }
    true
}

/// What is done for an album: where it goes, and how many workers fetch its
/// tracks.
pub fn download_album(album: &Album, options: &AlbumOptions) -> (r: AlbumPlan)
    ensures
        r.is_grouped_single == is_grouped_single(*album, *options),
        texts(r.directories@) == album_directories(*album, *options),
        r.track_workers == if options.skip.tracks {
            0
        } else {
            smaller(options.track_workers, album.track_titles@.len() as usize)
        },
        r.track_workers == track_worker_count(*options, album.track_titles@.len() as usize),
{
    let is_grouped_single: bool = options.group_singles && album.track_count == 1 && all_titled(
        &album.track_titles,
        album.title.as_str(),
    );
    let directory: String = if is_grouped_single {
        "Singles".to_owned()
    } else {
        match options.album_year {
            Some(AlbumYear::Append) => album.title_directory.clone().concat(" (").concat(
                album.release_year.as_str(),
            ).concat(")"),
            Some(AlbumYear::Prepend) => "(".to_owned().concat(album.release_year.as_str()).concat(
                ") ",
            ).concat(album.title_directory.as_str()),
            None => album.title_directory.clone(),
        }
    };
    let artist: String = album.artist_directory.clone();
    let directories: Vec<String> = if options.flatten_directories {
        vec![artist.concat(" - ").concat(directory.as_str())]
    } else {
        vec![artist, directory]
    };
    assert(texts(directories@) =~= album_directories(*album, *options));
    let tracks: usize = album.track_titles.len();
    let track_workers: usize = if options.skip.tracks {
        0
    } else if options.track_workers <= tracks {
        options.track_workers
    } else {
        tracks
    };
    AlbumPlan { is_grouped_single, directories, track_workers }
}

/// Whether an album's cover is downloaded after its tracks.
pub open spec fn is_cover_wanted(skip: SkipConfig, is_grouped_single: bool, running: bool) -> bool {
    !skip.cover && !is_grouped_single && running
}

/// Whether an album's cover is downloaded after its tracks: not where covers
/// are skipped, nor for a grouped single, nor once the downloader stops.
pub fn wants_cover(skip: SkipConfig, is_grouped_single: bool, running: bool) -> (r: bool)
    ensures
        r == (!skip.cover && !is_grouped_single && running),
        r == is_cover_wanted(skip, is_grouped_single, running),
{
    !(skip.cover || is_grouped_single || !running)
}

/// What is done about a track.
#[derive(Clone, Copy, PartialEq, Eq, Structural, Debug)]
pub enum TrackChoice {
    /// The track cannot be downloaded yet.
    Unavailable,
    /// A file of the track is there.
    AlreadyDownloaded,
    Download,
}

/// Whether a file of that stem is among the files of a directory.
pub open spec fn has_stem(files: Seq<Seq<char>>, file_stem: Seq<char>) -> bool {
    exists|i: int| 0 <= i < files.len() && stem(#[trigger] files[i]) == file_stem
}

/// Whether a track can be downloaded at all.
pub open spec fn is_out(service: Service, has_producers: bool) -> bool {
    !(service is Qobuz) || has_producers
}

/// What is done about a track, where the album's directory holds files of the
/// given names.
pub open spec fn track_choice(
    service: Service,
    has_producers: bool,
    force_download: bool,
    track_stem: Seq<char>,
    files: Seq<Seq<char>>,
) -> TrackChoice {
    if !is_out(service, has_producers) {
        TrackChoice::Unavailable
    } else if force_download || !has_stem(files, track_stem) {
        TrackChoice::Download
    } else {
        TrackChoice::AlreadyDownloaded
    }
}

/// Whether a track can be downloaded at all. A track of Qobuz without
/// producers is not out yet.
pub fn is_available(service: Service, has_producers: bool) -> (r: bool)
    ensures
        r == !(service is Qobuz && !has_producers),
        r == is_out(service, has_producers),
{
    match service {
        Service::Qobuz => has_producers,
        _ => true,
    }
}

/// Whether a file of that stem is among the files of a directory.
fn lists_stem(files: &Vec<String>, wanted: &str) -> (r: bool)
    ensures
        r == has_stem(texts(files@), wanted@),
{
    let mut i: usize = 0;
    while i < files.len()
        invariant
            i <= files.len(),
            forall|j: int| 0 <= j < i ==> stem(#[trigger] texts(files@)[j]) != wanted@,
        decreases files.len() - i,
    {
        let found: String = file_stem(files[i].as_str());
        assert(texts(files@)[i as int] == files@[i as int]@);
        if same_text(found.as_str(), wanted) {
            return true;
        }
        i += 1;
    }
    false
}

/// What is done about a track. `files` are the names of the files in the
/// album's directory; where a download is forced, they do not matter.
pub fn request_and_download_track(
    service: Service,
    has_producers: bool,
    force_download: bool,
    track_stem: &str,
    files: &Vec<String>,
) -> (r: TrackChoice)
    ensures
        r == if service is Qobuz && !has_producers {
            TrackChoice::Unavailable
        } else if !force_download && has_stem(texts(files@), track_stem@) {
            TrackChoice::AlreadyDownloaded
        } else {
            TrackChoice::Download
        },
        r == track_choice(service, has_producers, force_download, track_stem@, texts(files@)),
{
    if !is_available(service, has_producers) {
        return TrackChoice::Unavailable;
    }
    if !force_download && lists_stem(files, track_stem) {
        return TrackChoice::AlreadyDownloaded;
    }
    TrackChoice::Download
}

/// The media type without its parameters.
pub open spec fn media_type(mime_type: Seq<char>) -> Seq<char>
    decreases mime_type.len(),
{
    if mime_type.len() == 0 || mime_type[0] == ';' {
        Seq::empty()
    } else {
        seq![mime_type[0]] + media_type(mime_type.skip(1))
    }
}

/// The extension of a file of the given media type. Where the type is not
/// known, the requested format tells.
pub open spec fn extension(mime_type: Seq<char>, downscale: Seq<char>) -> Seq<char> {
    let media = media_type(mime_type);
    if media == "audio/flac"@ {
        "flac"@
    } else if media == "audio/mpeg"@ {
        "mp3"@
    } else if media == "audio/mp4"@ || media == "audio/m4a"@ || media == "audio/x-m4a"@ {
        "m4a"@
    } else if downscale == "m4a-aac-320"@ {
        "m4a"@
    } else if downscale == "mp3-320"@ || downscale == "mp3"@ {
        "mp3"@
    } else if downscale == "original"@ || downscale == "flac"@ || downscale == "lossless"@ {
        "flac"@
    } else {
        "bin"@
    }
}

/// The media type without its parameters.
fn strip_parameters(mime_type: &str) -> (r: String)
    ensures
        r@ == media_type(mime_type@),
{
    let chars: Vec<char> = chars_of(mime_type);
    let mut n: usize = 0;
    assert(chars@.skip(0) =~= chars@);
    assert(chars@.take(0) + media_type(chars@) =~= media_type(chars@));
    while n < chars.len() && chars[n] != ';'
        invariant
            n <= chars.len(),
            chars@.take(n as int) + media_type(chars@.skip(n as int)) == media_type(mime_type@),
        decreases chars.len() - n,
    {
        let ghost rest = chars@.skip(n as int);
        assert(rest.skip(1) =~= chars@.skip(n + 1));
        assert(chars@.take(n as int) + (seq![rest[0]] + media_type(rest.skip(1))) =~= chars@.take(
            n + 1,
        ) + media_type(rest.skip(1)));
        n += 1;
    }
    assert(chars@.take(n as int) + Seq::<char>::empty() =~= chars@.subrange(0, n as int));
    string_of(slice_subrange(chars.as_slice(), 0, n))
}

/// The extension of a file of the given media type. Where the type is not
/// known, the requested format tells.
pub fn file_extension(mime_type: &str, downscale: &str) -> (r: &'static str)
    ensures
        r@ == extension(mime_type@, downscale@),
{
    let media: String = strip_parameters(mime_type);
    let media: &str = media.as_str();
    if same_text(media, "audio/flac") {
        "flac"
    } else if same_text(media, "audio/mpeg") {
        "mp3"
    } else if same_text(media, "audio/mp4") || same_text(media, "audio/m4a") || same_text(
        media,
        "audio/x-m4a",
    ) {
        "m4a"
    } else if same_text(downscale, "m4a-aac-320") {
        "m4a"
    } else if same_text(downscale, "mp3-320") || same_text(downscale, "mp3") {
        "mp3"
    } else if same_text(downscale, "original") || same_text(downscale, "flac") || same_text(
        downscale,
        "lossless",
    ) {
        "flac"
    } else {
        "bin"
    }
}

/// The names of the file that a track is written to.
pub struct TrackFile {
    pub extension: &'static str,
    /// The name of the finished file.
    pub name: String,
    /// The name that it has while it is written.
    pub part_name: String,
}

/// The name of a track's file, and the one that it has while it is written.
pub open spec fn track_file_names(
    mime_type: Seq<char>,
    downscale: Seq<char>,
    track_stem: Seq<char>,
) -> (Seq<char>, Seq<char>) {
    let name = with_extension(track_stem, extension(mime_type, downscale));
    (name, with_extension(name, "part"@))
}

/// The names of the file that a track is written to.
pub fn download_track(mime_type: &str, downscale: &str, track_stem: &str) -> (r: TrackFile)
    ensures
        r.extension@ == extension(mime_type@, downscale@),
        r.name@ == with_extension(track_stem@, r.extension@),
        r.part_name@ == with_extension(r.name@, "part"@),
        (r.name@, r.part_name@) == track_file_names(mime_type@, downscale@, track_stem@),
{
    let extension: &'static str = file_extension(mime_type, downscale);
    let name: String = track_stem.to_owned().concat(".").concat(extension);
    let part_name: String = name.clone().concat(".part");
    proof {
        reveal_strlit(".");
        reveal_strlit("part");
        reveal_strlit(".part");
        assert(".part"@ =~= "."@ + "part"@);
        assert(name@ + ".part"@ =~= name@ + "."@ + "part"@);
    }
    TrackFile { extension, name, part_name }
}

/// No extension holds a dot.
proof fn lemma_extension_has_no_dot(mime_type: Seq<char>, downscale: Seq<char>)
    ensures
        !extension(mime_type, downscale).contains('.'),
{
    reveal_strlit("flac");
    reveal_strlit("mp3");
    reveal_strlit("m4a");
    reveal_strlit("bin");
}

/// A finished track is found by its stem the next time.
pub proof fn law_finished_track_is_recognised(
    files: Seq<Seq<char>>,
    track_stem: Seq<char>,
    mime_type: Seq<char>,
    downscale: Seq<char>,
)
    requires
        track_stem.len() > 0,
        files.contains(with_extension(track_stem, extension(mime_type, downscale))),
    ensures
        has_stem(files, track_stem),
{
    let name = with_extension(track_stem, extension(mime_type, downscale));
    lemma_extension_has_no_dot(mime_type, downscale);
    lemma_stem_of_name(track_stem, extension(mime_type, downscale));
    let i = choose|i: int| 0 <= i < files.len() && files[i] == name;
    assert(stem(files[i]) == track_stem);
}

/// A track that is still being written does not pass for a finished one.
pub proof fn law_unfinished_track_is_not_recognised(
    track_stem: Seq<char>,
    mime_type: Seq<char>,
    downscale: Seq<char>,
)
    ensures
        ({
            let name = with_extension(track_stem, extension(mime_type, downscale));
            !has_stem(seq![with_extension(name, "part"@)], track_stem)
        }),
{
    reveal_strlit(".");
    reveal_strlit("part");
    let name = with_extension(track_stem, extension(mime_type, downscale));
    lemma_stem_of_name(name, "part"@);
    let files = seq![with_extension(name, "part"@)];
    assert(files[0] == with_extension(name, "part"@));
    assert(name.len() > track_stem.len());
}

/// What is done with what comes in of a body.
pub enum ChunkAction {
    /// The bytes are written to the file.
    Write(Vec<u8>),
    /// The download has failed.
    Fail,
    /// The body has ended.
    Finish,
}

/// What is done with what comes in of a body.
pub open spec fn chunk_step(message: Option<Result<Vec<u8>, ()>>) -> ChunkAction {
    match message {
        Some(Ok(chunk)) => ChunkAction::Write(chunk),
        Some(Err(_)) => ChunkAction::Fail,
        None => ChunkAction::Finish,
    }
}

/// Tells what to do with what comes in of a body. Nothing comes in after its
/// end.
pub fn take_chunk(message: Option<Result<Vec<u8>, ()>>) -> (r: ChunkAction)
    ensures
        r == chunk_step(message),
{
    match message {
        Some(Ok(chunk)) => ChunkAction::Write(chunk),
        Some(Err(())) => ChunkAction::Fail,
        None => ChunkAction::Finish,
    }
}

/// The bytes that are written where the given messages come in, and whether
/// the body was taken to its end.
pub open spec fn chunks_run(messages: Seq<Result<Vec<u8>, ()>>) -> (Seq<u8>, bool)
    decreases messages.len(),
{
    if messages.len() == 0 {
        (Seq::empty(), chunk_step(None) is Finish)
    } else {
        match chunk_step(Some(messages[0])) {
            ChunkAction::Write(chunk) => {
                let (bytes, complete) = chunks_run(messages.skip(1));
                (chunk@ + bytes, complete)
            },
            _ => (Seq::empty(), false),
        }
    }
}

/// The bytes of the given chunks.
pub open spec fn joined(chunks: Seq<Vec<u8>>) -> Seq<u8>
    decreases chunks.len(),
{
    if chunks.len() == 0 {
        Seq::empty()
    } else {
        chunks[0]@ + joined(chunks.skip(1))
    }
}

/// A body whose reads give chunks and then its end is written whole.
pub proof fn law_whole_body_is_written(chunks: Seq<Vec<u8>>)
    ensures
        ({
            let reads = Seq::new(
                chunks.len(),
                |i: int| Ok::<Option<Vec<u8>>, ()>(Some(chunks[i])),
            ).push(Ok(None));
            chunks_run(relay_run(reads)) == (joined(chunks), true)
        }),
    decreases chunks.len(),
{
    let reads = Seq::new(
        chunks.len(),
        |i: int| Ok::<Option<Vec<u8>>, ()>(Some(chunks[i])),
    ).push(Ok(None));
    if chunks.len() > 0 {
        let rest = chunks.skip(1);
        law_whole_body_is_written(rest);
        assert(reads.skip(1) =~= Seq::new(
            rest.len(),
            |i: int| Ok::<Option<Vec<u8>>, ()>(Some(rest[i])),
        ).push(Ok(None)));
        let sent = relay_run(reads);
        assert(sent.skip(1) =~= relay_run(reads.skip(1)));
        assert(sent[0] == Ok::<Vec<u8>, ()>(chunks[0]));
    } else {
        assert(relay_run(reads) =~= Seq::<Result<Vec<u8>, ()>>::empty());
        assert(chunks_run(relay_run(reads)).0 =~= joined(chunks));
    }
}

/// A body of which a read fails is not taken for a whole one.
pub proof fn law_failed_read_fails_the_download(reads: Seq<Result<Option<Vec<u8>>, ()>>, n: int)
    requires
        0 <= n < reads.len(),
        reads[n] is Err,
        forall|i: int| 0 <= i < n ==> (#[trigger] reads[i]) != Ok::<Option<Vec<u8>>, ()>(None),
    ensures
        !chunks_run(relay_run(reads)).1,
    decreases reads.len(),
{
    let sent = relay_run(reads);
    if n > 0 && reads[0] is Ok {
        assert(reads[0] != Ok::<Option<Vec<u8>>, ()>(None));
        let rest = reads.skip(1);
        assert forall|i: int| 0 <= i < n - 1 implies (#[trigger] rest[i]) != Ok::<
            Option<Vec<u8>>,
            (),
        >(None) by {
            assert(rest[i] == reads[i + 1]);
        }
        law_failed_read_fails_the_download(rest, n - 1);
        assert(sent.skip(1) =~= relay_run(rest));
        assert(sent[0] is Ok);
    } else {
        assert(sent[0] is Err);
    }
}

/// What happens while a track's audio is fetched.
pub enum AudioEvent {
    /// The request has ended; `opened` tells whether a body follows.
    Requested { opened: bool },
    /// Something came in of the body.
    Received { message: Option<Result<Vec<u8>, ()>> },
}

/// What is done next for a track's audio.
pub enum AudioAction {
    /// A new part file is opened, and the body awaited.
    Create,
    /// The bytes are written to the part file.
    Write(Vec<u8>),
    /// The attempt has failed; the part file is left as it is.
    Fail,
    /// The part file is given its final name, and its format counted.
    Finish,
}

/// What is done next for a track's audio.
pub open spec fn audio_step(event: AudioEvent) -> AudioAction {
    match event {
        AudioEvent::Requested { opened } => if opened {
            AudioAction::Create
        } else {
            AudioAction::Fail
        },
        AudioEvent::Received { message } => match chunk_step(message) {
            ChunkAction::Write(chunk) => AudioAction::Write(chunk),
            ChunkAction::Fail => AudioAction::Fail,
            ChunkAction::Finish => AudioAction::Finish,
        },
    }
}

/// Takes an event while a track's audio is fetched, and tells what to do next.
pub fn receive_track(event: AudioEvent) -> (r: AudioAction)
    ensures
        r == audio_step(event),
{
    match event {
        AudioEvent::Requested { opened } => if opened {
            AudioAction::Create
        } else {
            AudioAction::Fail
        },
        AudioEvent::Received { message } => match take_chunk(message) {
            ChunkAction::Write(chunk) => AudioAction::Write(chunk),
            ChunkAction::Fail => AudioAction::Fail,
            ChunkAction::Finish => AudioAction::Finish,
        },
    }
}

/// An attempt to fetch a track's audio: the media type that the server gave,
/// the format that was requested, and what happened.
pub struct AudioAttempt {
    pub mime_type: Seq<char>,
    pub downscale: Seq<char>,
    pub events: Seq<AudioEvent>,
}

/// The files of an album by their names, and the counts of downloaded formats.
pub struct AlbumFiles {
    pub files: Map<Seq<char>, Seq<u8>>,
    pub counts: Map<Seq<char>, usize>,
}

/// The name that an attempt gives the finished track.
pub open spec fn track_name(track_stem: Seq<char>, attempt: AudioAttempt) -> Seq<char> {
    with_extension(track_stem, extension(attempt.mime_type, attempt.downscale))
}

/// An album's files after an event of an attempt at the given name, which is
/// counted under the given format where it succeeds.
pub open spec fn audio_files_step(
    album: AlbumFiles,
    name: Seq<char>,
    format: Seq<char>,
    event: AudioEvent,
) -> AlbumFiles {
    let part = with_extension(name, "part"@);
    match audio_step(event) {
        AudioAction::Create => AlbumFiles {
            files: album.files.insert(part, Seq::empty()),
            ..album
        },
        AudioAction::Write(chunk) => AlbumFiles {
            files: album.files.insert(part, album.files[part] + chunk@),
            ..album
        },
        AudioAction::Fail => album,
        AudioAction::Finish => AlbumFiles {
            files: album.files.remove(part).insert(name, album.files[part]),
            counts: counted(album.counts, format),
        },
    }
}

/// An album's files after the given events of an attempt.
pub open spec fn audio_files_run(
    album: AlbumFiles,
    name: Seq<char>,
    format: Seq<char>,
    events: Seq<AudioEvent>,
) -> AlbumFiles
    decreases events.len(),
{
    if events.len() == 0 {
        album
    } else {
        audio_files_step(
            audio_files_run(album, name, format, events.drop_last()),
            name,
            format,
            events.last(),
        )
    }
}

/// An album's files after an attempt at a track.
pub open spec fn attempt_run(
    album: AlbumFiles,
    track_stem: Seq<char>,
    attempt: AudioAttempt,
) -> AlbumFiles {
    audio_files_run(
        album,
        track_name(track_stem, attempt),
        extension(attempt.mime_type, attempt.downscale),
        attempt.events,
    )
}

/// An album's files after the given attempts at a track.
pub open spec fn attempts_run(
    album: AlbumFiles,
    track_stem: Seq<char>,
    attempts: Seq<AudioAttempt>,
) -> AlbumFiles
    decreases attempts.len(),
{
    if attempts.len() == 0 {
        album
    } else {
        attempt_run(
            attempts_run(album, track_stem, attempts.drop_last()),
            track_stem,
            attempts.last(),
        )
    }
}

/// Whether an attempt never came to the end of the body.
pub open spec fn is_broken(attempt: AudioAttempt) -> bool {
    forall|i: int|
        0 <= i < attempt.events.len() ==> !(audio_step(#[trigger] attempt.events[i]) is Finish)
}

/// Whether two states of an album agree on the counts and on all files that
/// are not parts.
pub open spec fn same_finished(a: AlbumFiles, b: AlbumFiles) -> bool {
    &&& a.counts == b.counts
    &&& forall|name: Seq<char>|
        #![trigger a.files.contains_key(name)]
        #![trigger b.files.contains_key(name)]
        !ends(name, ".part"@) ==> a.files.contains_key(name) == b.files.contains_key(name)
            && a.files[name] == b.files[name]
}

/// The name of a part file tells that it is one.
proof fn lemma_part_name(name: Seq<char>)
    ensures
        ends(with_extension(name, "part"@), ".part"@),
        with_extension(name, "part"@) != name,
{
    reveal_strlit(".");
    reveal_strlit("part");
    reveal_strlit(".part");
    let part = with_extension(name, "part"@);
    assert(part.subrange(part.len() - 5, part.len() as int) =~= ".part"@);
    assert(part.len() == name.len() + 5);
}

/// Events of which none is the end of the body touch only the part file.
proof fn lemma_broken_events(
    album: AlbumFiles,
    name: Seq<char>,
    format: Seq<char>,
    events: Seq<AudioEvent>,
)
    requires
        forall|i: int| 0 <= i < events.len() ==> !(audio_step(#[trigger] events[i]) is Finish),
    ensures
        same_finished(album, audio_files_run(album, name, format, events)),
    decreases events.len(),
{
    if events.len() > 0 {
        let front = events.drop_last();
        assert forall|i: int| 0 <= i < front.len() implies !(audio_step(
            #[trigger] front[i],
        ) is Finish) by {
            assert(front[i] == events[i]);
        }
        lemma_broken_events(album, name, format, front);
        lemma_part_name(name);
        assert(!(audio_step(events[events.len() - 1]) is Finish));
    }
}

/// Attempts that never come to the end of the body, however many, finish
/// nothing: all files but parts stay as they were, and nothing is counted.
pub proof fn law_broken_attempts_finish_nothing(
    album: AlbumFiles,
    track_stem: Seq<char>,
    attempts: Seq<AudioAttempt>,
)
    requires
        forall|i: int| 0 <= i < attempts.len() ==> is_broken(#[trigger] attempts[i]),
    ensures
        same_finished(album, attempts_run(album, track_stem, attempts)),
    decreases attempts.len(),
{
    if attempts.len() > 0 {
        let front = attempts.drop_last();
        let last = attempts.last();
        assert forall|i: int| 0 <= i < front.len() implies is_broken(#[trigger] front[i]) by {
            assert(front[i] == attempts[i]);
        }
        law_broken_attempts_finish_nothing(album, track_stem, front);
        assert(is_broken(attempts[attempts.len() - 1]));
        lemma_broken_events(
            attempts_run(album, track_stem, front),
            track_name(track_stem, last),
            extension(last.mime_type, last.downscale),
            last.events,
        );
    }
}

/// The events of a body up to its end, where it comes in the given chunks.
pub open spec fn audio_events(chunks: Seq<Vec<u8>>) -> Seq<AudioEvent> {
    seq![AudioEvent::Requested { opened: true }] + Seq::new(
        chunks.len(),
        |i: int| AudioEvent::Received { message: Some(Ok(chunks[i])) },
    )
}

/// While a body comes in, the part file holds the bytes so far.
proof fn lemma_audio_events(
    album: AlbumFiles,
    name: Seq<char>,
    format: Seq<char>,
    chunks: Seq<Vec<u8>>,
)
    ensures
        ({
            let after = audio_files_run(album, name, format, audio_events(chunks));
            let part = with_extension(name, "part"@);
            &&& after.files == album.files.insert(part, joined(chunks))
            &&& after.counts == album.counts
        }),
    decreases chunks.len(),
{
    let part = with_extension(name, "part"@);
    let events = audio_events(chunks);
    let after = audio_files_run(album, name, format, events);
    if chunks.len() == 0 {
        assert(events =~= seq![AudioEvent::Requested { opened: true }]);
        assert(events.drop_last() =~= Seq::<AudioEvent>::empty());
        assert(audio_files_run(album, name, format, events.drop_last()) == album);
        assert(events.last() == AudioEvent::Requested { opened: true });
        assert(joined(chunks) =~= Seq::<u8>::empty());
        assert(after.files =~= album.files.insert(part, joined(chunks)));
    } else {
        let front = chunks.drop_last();
        lemma_audio_events(album, name, format, front);
        lemma_joined_push(front, chunks.last());
        assert(front.push(chunks.last()) =~= chunks);
        assert(events.drop_last() =~= audio_events(front));
        assert(events.last() == AudioEvent::Received { message: Some(Ok(chunks.last())) });
        assert(after.files =~= album.files.insert(part, joined(chunks)));
    }
}

/// However many attempts were broken off before, the file of a finished track
/// holds the one body that came in whole and nothing else; its part file is
/// gone, its format is counted once, and no other finished file has changed.
pub proof fn law_finished_track_is_one_whole_body(
    album: AlbumFiles,
    track_stem: Seq<char>,
    attempts: Seq<AudioAttempt>,
    chunks: Seq<Vec<u8>>,
    mime_type: Seq<char>,
    downscale: Seq<char>,
)
    requires
        forall|i: int| 0 <= i < attempts.len() ==> is_broken(#[trigger] attempts[i]),
    ensures
        ({
            let end = AudioEvent::Received { message: None };
            let events = audio_events(chunks).push(end);
            let whole = AudioAttempt { mime_type, downscale, events };
            let name = track_name(track_stem, whole);
            let after = attempts_run(album, track_stem, attempts.push(whole));
            &&& after.files.contains_key(name)
            &&& after.files[name] == joined(chunks)
            &&& !after.files.contains_key(with_extension(name, "part"@))
            &&& after.counts == counted(album.counts, extension(mime_type, downscale))
            &&& forall|other: Seq<char>|
                !ends(other, ".part"@) && other != name ==> (
                #[trigger] after.files.contains_key(other)) == album.files.contains_key(other)
                    && after.files[other] == album.files[other]
        }),
{
    let end = AudioEvent::Received { message: None };
    let events = audio_events(chunks).push(end);
    let whole = AudioAttempt { mime_type, downscale, events };
    let name = track_name(track_stem, whole);
    let format = extension(mime_type, downscale);
    let before = attempts_run(album, track_stem, attempts);
    law_broken_attempts_finish_nothing(album, track_stem, attempts);
    assert(attempts.push(whole).drop_last() =~= attempts);
    lemma_audio_events(before, name, format, chunks);
    assert(events.drop_last() =~= audio_events(chunks));
    lemma_part_name(name);
    let after = attempts_run(album, track_stem, attempts.push(whole));
    assert forall|other: Seq<char>| !ends(other, ".part"@) && other != name implies (
    #[trigger] after.files.contains_key(other)) == album.files.contains_key(other)
        && after.files[other] == album.files[other] by {
        assert(before.files.contains_key(other) == album.files.contains_key(other));
    }
}

/// The address of an album's cover in full size. Qobuz numbers its sizes at
/// the end of the address, after the last underscore.
pub open spec fn cover_address(service: Service, url: Seq<char>) -> Option<Seq<char>> {
    match service {
        Service::Qobuz => if ends(url, ".jpg"@) {
            match rfind(url.take(url.len() - 4), '_') {
                Some(i) => Some(url.take(i + 1) + "org.jpg"@),
                None => None,
            }
        } else {
            None
        },
        _ => Some(url),
    }
}

/// Whether the address of a cover leads to one in full size: always, but for an
/// address on Qobuz that is not of the known form.
pub fn has_full_cover(service: Service, url: &str) -> (r: bool)
    ensures
        r == cover_address(service, url@) is Some,
{
    find_full_cover(service, url).is_some()
}

/// The address of an album's cover in full size. An address on Qobuz has to be
/// of the known form.
pub fn full_cover_address(service: Service, url: &str) -> (r: String)
    requires
        cover_address(service, url@) is Some,
    ensures
        cover_address(service, url@) == Some(r@),
{
    find_full_cover(service, url).unwrap()
}

/// The address of an album's cover in full size, if there is one.
fn find_full_cover(service: Service, url: &str) -> (r: Option<String>)
    ensures
        match r {
            Some(address) => cover_address(service, url@) == Some(address@),
            None => cover_address(service, url@) is None,
        },
{
    match service {
        Service::Qobuz => {
            let chars: Vec<char> = chars_of(url);
            let size: usize = chars.len();
            proof {
                reveal_strlit(".jpg");
            }
            if size < 4 {
                return None;
            }
            let suffix: String = string_of(slice_subrange(chars.as_slice(), size - 4, size));
            if !same_text(suffix.as_str(), ".jpg") {
                return None;
            }
            let front: &[char] = slice_subrange(chars.as_slice(), 0, size - 4);
            assert(front@ =~= url@.take(url@.len() - 4));
            proof {
                lemma_rfind(front@, '_');
            }
            match search_last(front, '_') {
                Some(i) => {
                    assert(url@.take(i + 1) =~= chars@.subrange(0, i + 1));
                    Some(string_of(slice_subrange(chars.as_slice(), 0, i + 1)).concat("org.jpg"))
                },
                None => None,
            }
        },
        Service::Tidal | Service::Soundcloud => Some(url.to_owned()),
    }
}

/// What happens while an album cover is downloaded. `running` tells whether
/// the downloader goes on.
pub enum CoverEvent {
    /// The request has ended; `opened` tells whether a body follows.
    Requested { opened: bool },
    /// Something came in of the body.
    Received { message: Option<Result<Vec<u8>, ()>>, running: bool },
}

/// What is done next for an album cover.
pub enum CoverAction {
    /// The cover is asked for, from the start.
    Request,
    /// A new part file is opened, and the body awaited.
    Create,
    /// The bytes are written to the part file.
    Write(Vec<u8>),
    /// The part file is flushed and given its final name.
    Finish,
    Stop,
}

/// What is done first about an album cover.
pub open spec fn first_cover_action(force_download: bool, present: bool) -> CoverAction {
    if force_download || !present {
        CoverAction::Request
    } else {
        CoverAction::Stop
    }
}

/// What is done first about an album cover: it is asked for unless it is there
/// already and no download is forced.
pub fn start_cover(force_download: bool, present: bool) -> (r: CoverAction)
    ensures
        r == if !force_download && present {
            CoverAction::Stop
        } else {
            CoverAction::Request
        },
        r == first_cover_action(force_download, present),
{
    if !force_download && present {
        CoverAction::Stop
    } else {
        CoverAction::Request
    }
}

/// What is done next for an album cover.
pub open spec fn cover_step(event: CoverEvent) -> CoverAction {
    match event {
        CoverEvent::Requested { opened } => if opened {
            CoverAction::Create
        } else {
            CoverAction::Stop
        },
        CoverEvent::Received { message, running } => match chunk_step(message) {
            ChunkAction::Write(chunk) => CoverAction::Write(chunk),
            ChunkAction::Fail => if running {
                CoverAction::Request
            } else {
                CoverAction::Stop
            },
            ChunkAction::Finish => CoverAction::Finish,
        },
    }
}

/// Takes an event of an album cover's download, and tells what to do next. A
/// body that breaks off is asked for again while the downloader runs.
pub fn download_album_cover(event: CoverEvent) -> (r: CoverAction)
    ensures
        r == cover_step(event),
{
    match event {
        CoverEvent::Requested { opened } => if opened {
            CoverAction::Create
        } else {
            CoverAction::Stop
        },
        CoverEvent::Received { message, running } => match take_chunk(message) {
            ChunkAction::Write(chunk) => CoverAction::Write(chunk),
            ChunkAction::Fail => if running {
                CoverAction::Request
            } else {
                CoverAction::Stop
            },
            ChunkAction::Finish => CoverAction::Finish,
        },
    }
}

/// What the part file of a cover holds after an event, and what is done next.
pub open spec fn cover_file_step(file: Seq<u8>, event: CoverEvent) -> (Seq<u8>, CoverAction) {
    let action = cover_step(event);
    match action {
        CoverAction::Create => (Seq::empty(), action),
        CoverAction::Write(chunk) => (file + chunk@, action),
        _ => (file, action),
    }
}

/// What the part file of a cover holds after the given events, and what is
/// done after the last of them.
pub open spec fn cover_run(file: Seq<u8>, events: Seq<CoverEvent>) -> (Seq<u8>, CoverAction)
    decreases events.len(),
{
    if events.len() == 0 {
        (file, CoverAction::Request)
    } else {
        cover_file_step(cover_run(file, events.drop_last()).0, events.last())
    }
}

/// The events of a body that comes in whole, in the given chunks.
pub open spec fn whole_body(chunks: Seq<Vec<u8>>, running: bool) -> Seq<CoverEvent> {
    Seq::new(
        chunks.len(),
        |i: int| CoverEvent::Received { message: Some(Ok(chunks[i])), running },
    )
}

/// Whatever an earlier attempt has left in the part file, the cover that is
/// given its final name is the one body that came in whole.
pub proof fn law_finished_cover_is_one_whole_body(
    file: Seq<u8>,
    chunks: Seq<Vec<u8>>,
    running: bool,
)
    ensures
        ({
            let opened = seq![CoverEvent::Requested { opened: true }];
            let end = CoverEvent::Received { message: None, running };
            cover_run(file, (opened + whole_body(chunks, running)).push(end)) == (
                joined(chunks),
                CoverAction::Finish,
            )
        }),
{
    let opened = seq![CoverEvent::Requested { opened: true }];
    let end = CoverEvent::Received { message: None, running };
    let events = opened + whole_body(chunks, running);
    lemma_cover_body(file, chunks, running);
    assert(events.push(end).drop_last() =~= events);
}

/// While a body comes in, the part file holds the bytes so far.
proof fn lemma_cover_body(file: Seq<u8>, chunks: Seq<Vec<u8>>, running: bool)
    ensures
        cover_run(
            file,
            seq![CoverEvent::Requested { opened: true }] + whole_body(chunks, running),
        ).0 == joined(chunks),
    decreases chunks.len(),
{
    let opened = seq![CoverEvent::Requested { opened: true }];
    let events = opened + whole_body(chunks, running);
    if chunks.len() == 0 {
        assert(events =~= opened);
        assert(opened.drop_last() =~= Seq::<CoverEvent>::empty());
        assert(cover_run(file, events).0 =~= joined(chunks));
    } else {
        let front = chunks.drop_last();
        lemma_cover_body(file, front, running);
        lemma_joined_push(front, chunks.last());
        assert(front.push(chunks.last()) =~= chunks);
        assert(events.drop_last() =~= opened + whole_body(front, running));
    }
}

/// One more chunk adds its bytes at the end.
proof fn lemma_joined_push(chunks: Seq<Vec<u8>>, last: Vec<u8>)
    ensures
        joined(chunks.push(last)) == joined(chunks) + last@,
    decreases chunks.len(),
{
    let all = chunks.push(last);
    if chunks.len() == 0 {
        assert(all.skip(1) =~= chunks);
        assert(joined(all) =~= last@ + joined(chunks));
        assert(joined(chunks) =~= Seq::<u8>::empty());
        assert(joined(all) =~= joined(chunks) + last@);
    } else {
        lemma_joined_push(chunks.skip(1), last);
        assert(all.skip(1) =~= chunks.skip(1).push(last));
        assert(joined(all) =~= joined(chunks) + last@);
    }
}

} // verus!
