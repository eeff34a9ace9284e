//! What is downloaded of an album, and how its files are named.
use crate::downloaders::{
    album_directories, album_page_step, audio_step, chunk_step, cover_address, cover_step,
    extension, first_cover_action, has_stem, is_cover_wanted, is_grouped_single, media_type,
    page_data, page_error, track_choice, track_file_names, track_worker_count, Album, AlbumOptions,
    AlbumPageEvent, AlbumPageStep, AudioAction, AudioEvent, ChunkAction, CoverAction, CoverEvent,
    TrackChoice,
};
use crate::laws::text::{
    law_enclosed_value_is_enclosed, law_enclosed_value_stands_between_the_markers,
    law_last_place_is_the_last, law_stem_stands_before_the_last_dot,
};
use crate::models::{AlbumYear, ResolveAlbumResult, Service, SkipConfig};
use crate::text::{ends, find, mentions, rfind};
use crate::text_utils::stem;
use vstd::prelude::*;

verus! {

/// A page shows an error exactly if it mentions one of the site's three
/// messages; of several, the first in this order is told.
pub proof fn law_page_error_is_one_of_three(html: Seq<char>)
    ensures
        ({
            let processing = "An error occured trying to process your request."@;
            let servers = "Message: \"Cannot contact any valid server\""@;
            let item = "An error occurred. Had an issue getting that item, try again."@;
            &&& mentions(html, processing) ==> page_error(html) == Some(processing)
            &&& !mentions(html, processing) && mentions(html, servers) ==> page_error(html) == Some(
                servers,
            )
            &&& !mentions(html, processing) && !mentions(html, servers) && mentions(html, item)
                ==> page_error(html) == Some(item)
            &&& !mentions(html, processing) && !mentions(html, servers) && !mentions(html, item)
                ==> page_error(html) is None
        }),
{
}

/// The album data of a page is what stands between the first mark of its
/// beginning and the next mark of its end.
pub proof fn law_album_data_stands_between_its_marks(
    before: Seq<char>,
    data: Seq<char>,
    after: Seq<char>,
)
    requires
        ({
            let start = ",{\"type\":\"data\",\"data\":"@;
            let end = ",\"uses\":{\"url\":1}}];\n"@;
            &&& find(before + start + data + end + after, start) == Some(before.len() as int)
            &&& find(data + end + after, end) == Some(data.len() as int)
        }),
    ensures
        page_data(
            before + ",{\"type\":\"data\",\"data\":"@ + data + ",\"uses\":{\"url\":1}}];\n"@ + after,
        ) == Some(data),
{
    law_enclosed_value_stands_between_the_markers(
        ",{\"type\":\"data\",\"data\":"@,
        ",\"uses\":{\"url\":1}}];\n"@,
        before,
        data,
        after,
    );
}

/// A page without both marks has no album data.
pub proof fn law_page_without_marks_has_no_album_data(html: Seq<char>)
    ensures
        !mentions(html, ",{\"type\":\"data\",\"data\":"@) ==> page_data(html) is None,
        !mentions(html, ",\"uses\":{\"url\":1}}];\n"@) ==> page_data(html) is None,
{
    let start = ",{\"type\":\"data\",\"data\":"@;
    let end = ",\"uses\":{\"url\":1}}];\n"@;
    law_enclosed_value_is_enclosed(start, end, html);
    if page_data(html) is Some {
        let i = find(html, start)->0;
        let data = page_data(html)->0;
        let before = html.take(i) + start + data;
        let j = i + start.len() + data.len();
        let after = html.skip(j + end.len());
        crate::laws::text::law_occurrence_splits_the_text(before, end, after);
        assert(html == before + end + after);
        crate::laws::text::law_occurrence_splits_the_text(html.take(i), start, data + end + after);
        assert(html =~= html.take(i) + start + (data + end + after));
    }
}

/// A page without an error is decoded where it holds album data, and malformed
/// where it does not, whether or not the downloader stops.
pub proof fn law_page_without_error_is_decoded(html: String, running: bool, data: Seq<char>)
    requires
        !mentions(html@, "An error occured trying to process your request."@),
        !mentions(html@, "Message: \"Cannot contact any valid server\""@),
        !mentions(html@, "An error occurred. Had an issue getting that item, try again."@),
    ensures
        ({
            let result = ResolveAlbumResult::Success(html);
            let step = album_page_step(AlbumPageEvent::Fetched { result, running });
            &&& page_data(html@) == Some(data) ==> step == AlbumPageStep::Decode(data)
            &&& page_data(html@) is None ==> step is Malformed
        }),
{
}

/// A page with an error, and data that cannot be decoded, are asked for again
/// after five seconds while the downloader goes on, and given up where it
/// stops; after the pause the page is asked for.
pub proof fn law_unusable_page_is_asked_for_again(html: String)
    requires
        mentions(html@, "An error occured trying to process your request."@) || mentions(
            html@,
            "Message: \"Cannot contact any valid server\""@,
        ) || mentions(html@, "An error occurred. Had an issue getting that item, try again."@),
    ensures
        ({
            let result = ResolveAlbumResult::Success(html);
            &&& album_page_step(AlbumPageEvent::Fetched { result, running: true })
                == AlbumPageStep::Sleep(5)
            &&& album_page_step(AlbumPageEvent::Fetched { result, running: false }) is Stop
        }),
        album_page_step(AlbumPageEvent::Rejected { running: true }) == AlbumPageStep::Sleep(5),
        album_page_step(AlbumPageEvent::Rejected { running: false }) is Stop,
        album_page_step(AlbumPageEvent::Slept) is Fetch,
{
}

/// An album whose page could not be had is given up.
pub proof fn law_unavailable_page_is_given_up(running: bool)
    ensures
        album_page_step(
            AlbumPageEvent::Fetched { result: ResolveAlbumResult::Cloudflare, running },
        ) is Stop,
        album_page_step(
            AlbumPageEvent::Fetched { result: ResolveAlbumResult::Error, running },
        ) is Stop,
{
}

/// An album goes to the artist's singles exactly if singles are grouped, it
/// counts one track, and no track bears another title than its own.
pub proof fn law_singles_bear_their_own_title(album: Album, options: AlbumOptions)
    ensures
        is_grouped_single(album, options) ==> options.group_singles && album.track_count == 1,
        is_grouped_single(album, options) ==> forall|i: int|
            0 <= i < album.track_titles@.len() ==> (#[trigger] album.track_titles@[i])@
                == album.title@,
        options.group_singles && album.track_count == 1 && !is_grouped_single(album, options)
            ==> exists|i: int|
            0 <= i < album.track_titles@.len() && (#[trigger] album.track_titles@[i])@
                != album.title@,
{
}

/// An album lies below its artist, in a directory of its own; flattened, in one
/// directory of both names. Singles share a directory, and the year stands in
/// brackets after or before the title.
pub proof fn law_album_lies_below_its_artist(album: Album, options: AlbumOptions)
    ensures
        ({
            let own = if options.group_singles && album.track_count == 1 && forall|i: int|
                0 <= i < album.track_titles@.len() ==> (#[trigger] album.track_titles@[i])@
                    == album.title@ {
                "Singles"@
            } else if options.album_year == Some(AlbumYear::Append) {
                album.title_directory@ + " ("@ + album.release_year@ + ")"@
            } else if options.album_year == Some(AlbumYear::Prepend) {
                "("@ + album.release_year@ + ") "@ + album.title_directory@
            } else {
                album.title_directory@
            };
            let artist = album.artist_directory@;
            &&& !options.flatten_directories ==> album_directories(album, options) == seq![
                artist,
                own,
            ]
            &&& options.flatten_directories ==> album_directories(album, options) == seq![
                artist + " - "@ + own,
            ]
        }),
{
}

/// There are as many workers as wished, but no more than tracks, and none where
/// tracks are skipped.
pub proof fn law_tracks_have_enough_workers(options: AlbumOptions, tracks: usize)
    ensures
        ({
            let n = track_worker_count(options, tracks);
            &&& n <= options.track_workers && n <= tracks
            &&& options.skip.tracks ==> n == 0
            &&& !options.skip.tracks ==> n == options.track_workers || n == tracks
        }),
{
}

/// A cover is downloaded unless covers are skipped, the album is a grouped
/// single, or the downloader stops; skipped tracks do not matter.
pub proof fn law_cover_follows_unless_unwanted(skip: SkipConfig, grouped: bool, running: bool)
    ensures
        is_cover_wanted(skip, grouped, running) ==> running,
        skip.cover || grouped ==> !is_cover_wanted(skip, grouped, running),
        !skip.cover && !grouped ==> is_cover_wanted(skip, grouped, true),
{
}

/// A directory holds a file of a stem exactly if one of its names is that stem,
/// with no dot but at its beginning, or is the stem followed by a dot and an
/// extension without one.
pub proof fn law_files_are_known_by_their_stems(files: Seq<Seq<char>>, track_stem: Seq<char>)
    ensures
        has_stem(files, track_stem) <==> exists|i: int|
            0 <= i < files.len() && is_file_of(#[trigger] files[i], track_stem),
{
    assert forall|i: int| 0 <= i < files.len() implies (stem(#[trigger] files[i]) == track_stem
        <==> is_file_of(files[i], track_stem)) by {
        law_stem_stands_before_the_last_dot(files[i], track_stem);
    }
    if has_stem(files, track_stem) {
        let i = choose|i: int| 0 <= i < files.len() && stem(#[trigger] files[i]) == track_stem;
        assert(is_file_of(files[i], track_stem));
    }
    if exists|i: int| 0 <= i < files.len() && is_file_of(#[trigger] files[i], track_stem) {
        let i = choose|i: int| 0 <= i < files.len() && is_file_of(#[trigger] files[i], track_stem);
        assert(stem(files[i]) == track_stem);
    }
}

/// Whether a name is the given stem, or the stem, a dot and an extension.
pub open spec fn is_file_of(name: Seq<char>, track_stem: Seq<char>) -> bool {
    ||| name == track_stem && forall|k: int| 1 <= k < name.len() ==> name[k] != '.'
    ||| track_stem.len() > 0 && exists|ext: Seq<char>|
        !ext.contains('.') && name == #[trigger] (track_stem + seq!['.'] + ext)
}

/// A track of Qobuz without producers is not downloaded, and no other track is
/// unavailable. An available track is skipped exactly if no download is forced
/// and one of the files is its own; other tracks' files never make it skipped.
pub proof fn law_track_is_skipped_for_its_own_file_alone(
    service: Service,
    has_producers: bool,
    force_download: bool,
    track_stem: Seq<char>,
    files: Seq<Seq<char>>,
)
    ensures
        ({
            let choice = track_choice(service, has_producers, force_download, track_stem, files);
            let there = exists|i: int|
                0 <= i < files.len() && is_file_of(#[trigger] files[i], track_stem);
            let out = service != Service::Qobuz || has_producers;
            &&& choice is Unavailable <==> !out
            &&& choice is AlreadyDownloaded <==> out && !force_download && there
            &&& choice is Download <==> out && (force_download || !there)
        }),
{
    law_files_are_known_by_their_stems(files, track_stem);
}

/// The media type is what stands before the first semicolon, or all of it.
pub proof fn law_parameters_follow_a_semicolon(media: Seq<char>, parameters: Seq<char>)
    requires
        !media.contains(';'),
    ensures
        media_type(media) == media,
        media_type(media + (seq![';'] + parameters)) == media,
    decreases media.len(),
{
    let all = media + (seq![';'] + parameters);
    if media.len() == 0 {
        assert(all[0] == ';');
        assert(media_type(media) =~= media);
        assert(media_type(all) =~= media);
    } else {
        let rest = media.skip(1);
        assert(media.contains(media[0]));
        assert(!rest.contains(';')) by {
            if rest.contains(';') {
                let k = choose|k: int| 0 <= k < rest.len() && rest[k] == ';';
                assert(media[k + 1] == ';');
            }
        }
        law_parameters_follow_a_semicolon(rest, parameters);
        assert(all.skip(1) =~= rest + (seq![';'] + parameters));
        assert(all[0] == media[0]);
        assert(seq![media[0]] + rest =~= media);
    }
}

/// Whether a type is the given one, with or without parameters.
pub open spec fn is_media(mime_type: Seq<char>, media: Seq<char>) -> bool {
    mime_type == media || exists|parameters: Seq<char>|
        mime_type == #[trigger] (media + (seq![';'] + parameters))
}

/// The five known media types are different texts without a semicolon.
proof fn lemma_media_types_differ()
    ensures
        !"audio/flac"@.contains(';'),
        !"audio/mpeg"@.contains(';'),
        !"audio/mp4"@.contains(';'),
        !"audio/m4a"@.contains(';'),
        !"audio/x-m4a"@.contains(';'),
        "audio/flac"@ != "audio/mpeg"@,
        "audio/flac"@ != "audio/mp4"@,
        "audio/flac"@ != "audio/m4a"@,
        "audio/flac"@ != "audio/x-m4a"@,
        "audio/mpeg"@ != "audio/mp4"@,
        "audio/mpeg"@ != "audio/m4a"@,
        "audio/mpeg"@ != "audio/x-m4a"@,
{
    reveal_strlit("audio/flac");
    reveal_strlit("audio/mpeg");
    reveal_strlit("audio/mp4");
    reveal_strlit("audio/m4a");
    reveal_strlit("audio/x-m4a");
    assert("audio/flac"@[6] == 'f' && "audio/mpeg"@[6] == 'm');
    assert("audio/flac"@.len() == 10 && "audio/mpeg"@.len() == 10 && "audio/mp4"@.len() == 9
        && "audio/m4a"@.len() == 9 && "audio/x-m4a"@.len() == 11);
}

/// A known media type names the extension, whatever format was requested.
pub proof fn law_known_media_type_decides_alone(mime_type: Seq<char>, downscale: Seq<char>)
    ensures
        is_media(mime_type, "audio/flac"@) ==> extension(mime_type, downscale) == "flac"@,
        is_media(mime_type, "audio/mpeg"@) ==> extension(mime_type, downscale) == "mp3"@,
        is_media(mime_type, "audio/mp4"@) ==> extension(mime_type, downscale) == "m4a"@,
        is_media(mime_type, "audio/m4a"@) ==> extension(mime_type, downscale) == "m4a"@,
        is_media(mime_type, "audio/x-m4a"@) ==> extension(mime_type, downscale) == "m4a"@,
{
    lemma_media_types_differ();
    lemma_is_media(mime_type, "audio/flac"@);
    lemma_is_media(mime_type, "audio/mpeg"@);
    lemma_is_media(mime_type, "audio/mp4"@);
    lemma_is_media(mime_type, "audio/m4a"@);
    lemma_is_media(mime_type, "audio/x-m4a"@);
}

/// A type is the given one exactly if it is so without its parameters.
proof fn lemma_is_media(mime_type: Seq<char>, media: Seq<char>)
    requires
        !media.contains(';'),
    ensures
        is_media(mime_type, media) <==> media_type(mime_type) == media,
{
    if is_media(mime_type, media) {
        if mime_type == media {
            law_parameters_follow_a_semicolon(media, Seq::empty());
        } else {
            let parameters = choose|parameters: Seq<char>|
                mime_type == #[trigger] (media + (seq![';'] + parameters));
            law_parameters_follow_a_semicolon(media, parameters);
        }
    }
    if media_type(mime_type) == media {
        if mime_type.contains(';') {
            let (front, parameters) = lemma_first_semicolon(mime_type);
            law_parameters_follow_a_semicolon(front, parameters);
            assert(mime_type == media + (seq![';'] + parameters));
        } else {
            law_parameters_follow_a_semicolon(mime_type, Seq::empty());
        }
    }
}

proof fn lemma_first_semicolon(text: Seq<char>) -> (r: (Seq<char>, Seq<char>))
    requires
        text.contains(';'),
    ensures
        !r.0.contains(';'),
        text == r.0 + (seq![';'] + r.1),
    decreases text.len(),
{
    if text[0] == ';' {
        assert(text =~= Seq::<char>::empty() + (seq![';'] + text.skip(1)));
        (Seq::empty(), text.skip(1))
    } else {
        let rest = text.skip(1);
        assert(rest.contains(';')) by {
            let k = choose|k: int| 0 <= k < text.len() && text[k] == ';';
            assert(rest[k - 1] == ';');
        }
        let (front, after) = lemma_first_semicolon(rest);
        let all = seq![text[0]] + front;
        assert(!all.contains(';')) by {
            if all.contains(';') {
                let k = choose|k: int| 0 <= k < all.len() && all[k] == ';';
                assert(front[k - 1] == ';');
            }
        }
        assert(text =~= seq![text[0]] + rest);
        assert(text =~= all + (seq![';'] + after));
        (all, after)
    }
}

/// Where the media type is not known, the requested format names the extension:
/// AAC is `m4a`, MP3 is `mp3`, the lossless formats are `flac`, and any other
/// is `bin`.
pub proof fn law_unknown_media_type_leaves_the_format(mime_type: Seq<char>, downscale: Seq<char>)
    requires
        !is_media(mime_type, "audio/flac"@),
        !is_media(mime_type, "audio/mpeg"@),
        !is_media(mime_type, "audio/mp4"@),
        !is_media(mime_type, "audio/m4a"@),
        !is_media(mime_type, "audio/x-m4a"@),
    ensures
        extension(mime_type, "m4a-aac-320"@) == "m4a"@,
        extension(mime_type, "mp3-320"@) == "mp3"@,
        extension(mime_type, "mp3"@) == "mp3"@,
        extension(mime_type, "original"@) == "flac"@,
        extension(mime_type, "flac"@) == "flac"@,
        extension(mime_type, "lossless"@) == "flac"@,
        downscale != "m4a-aac-320"@ && downscale != "mp3-320"@ && downscale != "mp3"@ && downscale
            != "original"@ && downscale != "flac"@ && downscale != "lossless"@ ==> extension(
            mime_type,
            downscale,
        ) == "bin"@,
{
    lemma_media_types_differ();
    lemma_is_media(mime_type, "audio/flac"@);
    lemma_is_media(mime_type, "audio/mpeg"@);
    lemma_is_media(mime_type, "audio/mp4"@);
    lemma_is_media(mime_type, "audio/m4a"@);
    lemma_is_media(mime_type, "audio/x-m4a"@);
    reveal_strlit("m4a-aac-320");
    reveal_strlit("mp3-320");
    reveal_strlit("mp3");
    reveal_strlit("original");
    reveal_strlit("flac");
    reveal_strlit("lossless");
    assert("m4a-aac-320"@.len() == 11 && "mp3-320"@.len() == 7 && "mp3"@.len() == 3
        && "original"@.len() == 8 && "flac"@.len() == 4 && "lossless"@.len() == 8);
}

/// A track's file is its stem, a dot and the extension; while it is written,
/// `.part` follows.
pub proof fn law_track_file_bears_its_stem(
    mime_type: Seq<char>,
    downscale: Seq<char>,
    track_stem: Seq<char>,
)
    ensures
        track_file_names(mime_type, downscale, track_stem).0 == track_stem + seq!['.'] + extension(
            mime_type,
            downscale,
        ),
        track_file_names(mime_type, downscale, track_stem).1 == track_stem + seq!['.'] + extension(
            mime_type,
            downscale,
        ) + ".part"@,
{
    reveal_strlit(".");
    reveal_strlit("part");
    reveal_strlit(".part");
    let name = track_stem + seq!['.'] + extension(mime_type, downscale);
    assert("."@ =~= seq!['.']);
    assert(name + "."@ + "part"@ =~= name + ".part"@);
}

/// What comes in of a body is written as it is; a failure fails the download,
/// and the end finishes it.
pub proof fn law_body_is_taken_as_it_comes(chunk: Vec<u8>)
    ensures
        chunk_step(Some(Ok(chunk))) == ChunkAction::Write(chunk),
        chunk_step(Some(Err(()))) is Fail,
        chunk_step(None) is Finish,
{
}

/// A track's file is begun anew once a body is there, takes what comes in, and
/// is finished by the end of the body alone; without a body, and on a failure,
/// the attempt fails.
pub proof fn law_track_audio_is_taken_as_it_comes(chunk: Vec<u8>)
    ensures
        audio_step(AudioEvent::Requested { opened: true }) is Create,
        audio_step(AudioEvent::Requested { opened: false }) is Fail,
        audio_step(AudioEvent::Received { message: Some(Ok(chunk)) }) == AudioAction::Write(chunk),
        audio_step(AudioEvent::Received { message: Some(Err(())) }) is Fail,
        audio_step(AudioEvent::Received { message: None }) is Finish,
{
}

/// A cover that is there is left alone unless a download is forced; any other
/// is asked for.
pub proof fn law_present_cover_is_left_alone(force_download: bool, present: bool)
    ensures
        first_cover_action(force_download, present) is Stop <==> present && !force_download,
        first_cover_action(force_download, present) is Request <==> !present || force_download,
{
}

/// A cover's file is begun anew once a body is there, takes what comes in, and
/// is finished by the end of the body. A cover that cannot be had is dropped; a
/// body that breaks off is asked for again while the downloader goes on.
pub proof fn law_cover_is_taken_as_it_comes(chunk: Vec<u8>, running: bool)
    ensures
        cover_step(CoverEvent::Requested { opened: true }) is Create,
        cover_step(CoverEvent::Requested { opened: false }) is Stop,
        cover_step(CoverEvent::Received { message: Some(Ok(chunk)), running })
            == CoverAction::Write(chunk),
        cover_step(CoverEvent::Received { message: Some(Err(())), running: true }) is Request,
        cover_step(CoverEvent::Received { message: Some(Err(())), running: false }) is Stop,
        cover_step(CoverEvent::Received { message: None, running }) is Finish,
{
}

/// The size of a cover on Qobuz stands between the last underscore and `.jpg`,
/// and is replaced by `org`.
pub proof fn law_cover_on_qobuz_is_asked_for_in_full_size(front: Seq<char>, size: Seq<char>)
    requires
        !size.contains('_'),
    ensures
        cover_address(Service::Qobuz, front.push('_') + size + ".jpg"@) == Some(
            front + "_org.jpg"@,
        ),
{
    let url = front.push('_') + size + ".jpg"@;
    let short = front.push('_') + size;
    let n = front.len() as int;
    assert(".jpg"@.len() == 4) by {
        reveal_strlit(".jpg");
    }
    assert(ends(url, ".jpg"@)) by {
        assert(url.subrange(url.len() - 4, url.len() as int) =~= ".jpg"@);
    }
    assert(url.take(url.len() - 4) == short) by {
        assert(url.take(url.len() - 4) =~= short);
    }
    assert(rfind(short, '_') == Some(n)) by {
        assert(short.skip(n + 1) =~= size);
        assert(short[n] == '_');
        law_last_place_is_the_last(short, '_', n);
    }
    assert(url.take(n + 1) + "org.jpg"@ == front + "_org.jpg"@) by {
        reveal_strlit("org.jpg");
        reveal_strlit("_org.jpg");
        assert(url.take(n + 1) =~= front.push('_'));
        assert("_org.jpg"@ =~= seq!['_'] + "org.jpg"@);
        assert(front.push('_') + "org.jpg"@ =~= front + (seq!['_'] + "org.jpg"@));
    }
}

/// Only an address on Qobuz that does not end in `.jpg`, or has no underscore
/// before that, leads to no cover; other services' addresses stay.
pub proof fn law_other_covers_are_asked_for_as_they_are(url: Seq<char>)
    ensures
        cover_address(Service::Tidal, url) == Some(url),
        cover_address(Service::Soundcloud, url) == Some(url),
        cover_address(Service::Qobuz, url) is None <==> !ends(url, ".jpg"@) || !url.take(
            url.len() - 4,
        ).contains('_'),
{
    if ends(url, ".jpg"@) {
        reveal_strlit(".jpg");
        law_last_place_is_the_last(url.take(url.len() - 4), '_', 0);
    }
}

} // verus!
