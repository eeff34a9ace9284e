use lucida_downloader::models::{TrackDownload, TrackDownloadStatus};
use lucida_downloader::track_job::{
    new_track_job, request_track_download, TrackJob, TrackJobAction, TrackJobEvent, TrackPhase,
};

const SECOND: u128 = 1_000_000_000;

fn download(handoff: &str) -> TrackDownload {
    TrackDownload { server: "s".to_string(), handoff: handoff.to_string() }
}

fn polled(status: &str, message: &str, seconds: u128, running: bool) -> TrackJobEvent {
    TrackJobEvent::Polled {
        status: Some(TrackDownloadStatus {
            status: status.to_string(),
            message: message.to_string(),
        }),
        now: seconds * SECOND,
        running,
    }
}

fn polling(downscale: &str) -> TrackJob {
    let (job, action) = new_track_job(downscale.to_string());
    assert_eq!(action, TrackJobAction::Request);
    let (job, action) = request_track_download(job, TrackJobEvent::Requested(Some(download("h"))));
    assert_eq!(action, TrackJobAction::Poll);
    job
}

#[test]
fn request_that_comes_to_nothing_stops() {
    let (job, _) = new_track_job("flac".to_string());
    assert_eq!(
        request_track_download(job, TrackJobEvent::Requested(None)).1,
        TrackJobAction::Stop
    );
}

#[test]
fn completed_track_is_fetched_and_done() {
    let job = polling("flac");
    let (job, action) = request_track_download(job, polled("working", "1%", 0, true));
    assert_eq!(action, TrackJobAction::Sleep(1));
    let (job, action) = request_track_download(job, TrackJobEvent::Slept);
    assert_eq!(action, TrackJobAction::Poll);
    let (job, action) = request_track_download(job, polled("completed", "", 1, true));
    assert_eq!(action, TrackJobAction::Download);
    match &job.phase {
        TrackPhase::Downloading { download } => assert_eq!(download.handoff, "h"),
        _ => panic!(),
    }
    let (job, action) =
        request_track_download(job, TrackJobEvent::Downloaded { complete: true, running: true });
    assert_eq!(action, TrackJobAction::Stop);
    assert_eq!(job.downscale, "flac");
}

#[test]
fn failed_conversion_falls_back_to_the_original_format() {
    let job = polling("mp3-320");
    let (job, action) = request_track_download(job, polled("error", "x", 0, false));
    assert_eq!(action, TrackJobAction::Request);
    assert_eq!(job.downscale, "original");
    assert!(matches!(job.phase, TrackPhase::Requesting));
    let (job, _) = request_track_download(job, TrackJobEvent::Requested(Some(download("i"))));
    let (job, action) = request_track_download(job, polled("error", "x", 0, true));
    assert_eq!(action, TrackJobAction::Request);
    assert_eq!(job.downscale, "original");
}

#[test]
fn lost_download_starts_over_or_stops() {
    let lost = |running| TrackJobEvent::Polled { status: None, now: 0, running };
    let (job, action) = request_track_download(polling("flac"), lost(true));
    assert_eq!(action, TrackJobAction::Request);
    assert_eq!(job.downscale, "flac");
    assert_eq!(request_track_download(polling("flac"), lost(false)).1, TrackJobAction::Stop);
}

#[test]
fn stuck_download_starts_over_after_half_a_minute() {
    let (job, _) = request_track_download(polling("flac"), polled("working", "50%", 10, true));
    let (job, action) = request_track_download(job, polled("working", "50%", 39, true));
    assert_eq!(action, TrackJobAction::Sleep(1));
    let (_, action) = request_track_download(job, polled("working", "50%", 40, true));
    assert_eq!(action, TrackJobAction::Request);

    let (job, _) = request_track_download(polling("flac"), polled("working", "50%", 10, true));
    assert_eq!(
        request_track_download(job, polled("working", "50%", 40, false)).1,
        TrackJobAction::Stop
    );
}

#[test]
fn new_progress_sets_the_clock_again() {
    let (job, _) = request_track_download(polling("flac"), polled("working", "50%", 10, true));
    let (job, _) = request_track_download(job, polled("working", "51%", 39, true));
    let (job, action) = request_track_download(job, polled("working", "51%", 45, true));
    assert_eq!(action, TrackJobAction::Sleep(1));
    match &job.phase {
        TrackPhase::Polling { last: Some(last), .. } => {
            assert_eq!(last.message, "51%");
            assert_eq!(last.since, 39 * SECOND);
        }
        _ => panic!(),
    }
}

#[test]
fn broken_audio_starts_over_or_stops() {
    let fetching = || request_track_download(polling("flac"), polled("completed", "", 0, true)).0;
    let broken = |running| TrackJobEvent::Downloaded { complete: false, running };
    assert_eq!(request_track_download(fetching(), broken(true)).1, TrackJobAction::Request);
    assert_eq!(request_track_download(fetching(), broken(false)).1, TrackJobAction::Stop);
}

#[test]
fn unexpected_event_changes_nothing() {
    let (job, action) = request_track_download(
        polling("flac"),
        TrackJobEvent::Downloaded { complete: true, running: true },
    );
    assert_eq!(action, TrackJobAction::Poll);
    assert!(matches!(job.phase, TrackPhase::Polling { .. }));
}
