//! The life of one track's download: request, wait, fetch, and start over
//! where something goes wrong.
use crate::models::{TrackDownload, TrackDownloadStatus};
use crate::text::same_text;
use vstd::prelude::*;

verus! {

/// The format that tracks are requested in once a conversion has failed.
pub const ORIGINAL: &'static str = "original";

/// The pause between two looks at a download's progress, in seconds.
pub const POLL_SECONDS: u64 = 1;

/// How long a download may show the same progress, in nanoseconds.
pub const STUCK_NANOSECONDS: u128 = 30_000_000_000;

/// The progress that a download showed last, and since when.
pub struct LastStatus {
    pub status: String,
    pub message: String,
    /// Nanoseconds on a clock that only goes forward.
    pub since: u128,
}

/// Where a track's download stands.
pub enum TrackPhase {
    /// The site is asked for the track.
    Requesting,
    /// A server prepares the download.
    Polling { download: TrackDownload, last: Option<LastStatus> },
    /// The prepared audio is fetched.
    Downloading { download: TrackDownload },
}

/// A track's download. `downscale` is the format that it is requested in.
pub struct TrackJob {
    pub downscale: String,
    pub phase: TrackPhase,
}

/// The state of a track's download.
pub struct TrackJobState {
    pub downscale: Seq<char>,
    pub phase: TrackPhase,
}

impl View for TrackJob {
    type V = TrackJobState;

    open spec fn view(&self) -> TrackJobState {
        TrackJobState { downscale: self.downscale@, phase: self.phase }
    }
}

/// What happens to a track's download. `running` tells whether the downloader
/// goes on, `now` what the clock shows.
pub enum TrackJobEvent {
    /// The request was accepted, or came to nothing.
    Requested(Option<TrackDownload>),
    /// The server told its progress, or has lost the download.
    Polled { status: Option<TrackDownloadStatus>, now: u128, running: bool },
    /// The pause is over.
    Slept,
    /// The audio is there, or could not be fetched.
    Downloaded { complete: bool, running: bool },
}

/// What is done next for a track's download.
#[derive(Clone, Copy, PartialEq, Eq, Structural, Debug)]
pub enum TrackJobAction {
    Request,
    Poll,
    Sleep(u64),
    Download,
    Stop,
}

/// The work that a phase waits for.
pub open spec fn pending(phase: TrackPhase) -> TrackJobAction {
    match phase {
        TrackPhase::Requesting => TrackJobAction::Request,
        TrackPhase::Polling { .. } => TrackJobAction::Poll,
        TrackPhase::Downloading { .. } => TrackJobAction::Download,
    }
}

/// Whether a server shows the progress that it showed last.
pub open spec fn is_unchanged(last: Option<LastStatus>, status: TrackDownloadStatus) -> bool {
    match last {
        Some(last) => last.status@ == status.status@ && last.message@ == status.message@,
        None => false,
    }
}

/// Whether a download has shown the same progress for too long.
pub open spec fn is_stuck(
    last: Option<LastStatus>,
    status: TrackDownloadStatus,
    now: u128,
) -> bool {
    is_unchanged(last, status) && now - last->0.since >= STUCK_NANOSECONDS
}

/// Starting over in the given format, or stopping where the downloader does.
pub open spec fn start_over(state: TrackJobState, downscale: Seq<char>, running: bool) -> (
    TrackJobState,
    TrackJobAction,
) {
    if running {
        (TrackJobState { downscale, phase: TrackPhase::Requesting }, TrackJobAction::Request)
    } else {
        (state, TrackJobAction::Stop)
    }
}

/// The next state and action of a track's download. An event that the phase
/// does not wait for changes nothing.
pub open spec fn track_job_step(state: TrackJobState, event: TrackJobEvent) -> (
    TrackJobState,
    TrackJobAction,
) {
    match (state.phase, event) {
        (TrackPhase::Requesting, TrackJobEvent::Requested(None)) => (state, TrackJobAction::Stop),
        (TrackPhase::Requesting, TrackJobEvent::Requested(Some(download))) => {
            let phase = TrackPhase::Polling { download, last: None };
            (TrackJobState { phase, ..state }, TrackJobAction::Poll)
        },
        (
            TrackPhase::Polling { .. },
            TrackJobEvent::Polled { status: None, running, .. },
        ) => start_over(state, state.downscale, running),
        (
            TrackPhase::Polling { download, last },
            TrackJobEvent::Polled { status: Some(status), now, running },
        ) => {
            if is_stuck(last, status, now) {
                start_over(state, state.downscale, running)
            } else if status.status@ == "completed"@ {
                let phase = TrackPhase::Downloading { download };
                (TrackJobState { phase, ..state }, TrackJobAction::Download)
            } else if status.status@ == "error"@ {
                start_over(state, ORIGINAL@, true)
            } else {
                let shown = LastStatus {
                    status: status.status,
                    message: status.message,
                    since: now,
                };
                let last = if is_unchanged(last, status) {
                    last
                } else {
                    Some(shown)
                };
                let phase = TrackPhase::Polling { download, last };
                (TrackJobState { phase, ..state }, TrackJobAction::Sleep(POLL_SECONDS))
            }
        },
        (
            TrackPhase::Downloading { .. },
            TrackJobEvent::Downloaded { complete, running },
        ) => if complete {
            (state, TrackJobAction::Stop)
        } else {
            start_over(state, state.downscale, running)
        },
        _ => (state, pending(state.phase)),
    }
}

/// The state that a download begins in, and what is done first.
pub open spec fn first_track_step(downscale: Seq<char>) -> (TrackJobState, TrackJobAction) {
    (TrackJobState { downscale, phase: TrackPhase::Requesting }, TrackJobAction::Request)
}

/// A new download, to be requested in the given format.
pub fn new_track_job(downscale: String) -> (r: (TrackJob, TrackJobAction))
    ensures
        r.0@.downscale == downscale@,
        r.0@.phase is Requesting,
        r.1 is Request,
        (r.0@, r.1) == first_track_step(downscale@),
{
    (TrackJob { downscale, phase: TrackPhase::Requesting }, TrackJobAction::Request)
}

/// Starts over in the given format, or stops where the downloader does.
fn restart(job: TrackJob, running: bool) -> (r: (TrackJob, TrackJobAction))
    ensures
        (r.0@, r.1) == start_over(job@, job@.downscale, running),
{
    if running {
        (
            TrackJob { downscale: job.downscale, phase: TrackPhase::Requesting },
            TrackJobAction::Request,
        )
    } else {
        (job, TrackJobAction::Stop)
    }
}

/// Whether a server shows the progress that it showed last.
fn unchanged(last: &Option<LastStatus>, status: &TrackDownloadStatus) -> (r: bool)
    ensures
        r == is_unchanged(*last, *status),
{
    match last {
        Some(last) => same_text(last.status.as_str(), status.status.as_str()) && same_text(
            last.message.as_str(),
            status.message.as_str(),
        ),
        None => false,
    }
}

/// Takes an event of a track's download, and tells what to do next.
pub fn request_track_download(job: TrackJob, event: TrackJobEvent) -> (r: (
    TrackJob,
    TrackJobAction,
))
    ensures
        (r.0@, r.1) == track_job_step(job@, event),
{
    match (job.phase, event) {
        (TrackPhase::Requesting, TrackJobEvent::Requested(None)) => (
            TrackJob { downscale: job.downscale, phase: TrackPhase::Requesting },
            TrackJobAction::Stop,
        ),
        (TrackPhase::Requesting, TrackJobEvent::Requested(Some(download))) => {
            let phase = TrackPhase::Polling { download, last: None };
            (TrackJob { downscale: job.downscale, phase }, TrackJobAction::Poll)
        },
        (
            TrackPhase::Polling { download, last },
            TrackJobEvent::Polled { status, now, running },
        ) => {
            let status: TrackDownloadStatus = match status {
                Some(status) => status,
                None => {
                    let phase = TrackPhase::Polling { download, last };
                    return restart(TrackJob { downscale: job.downscale, phase }, running);
                },
            };
            let same: bool = unchanged(&last, &status);
            let stuck: bool = match &last {
                Some(last) => same && now >= last.since && now - last.since >= STUCK_NANOSECONDS,
                None => false,
            };
            if stuck {
                let phase = TrackPhase::Polling { download, last };
                restart(TrackJob { downscale: job.downscale, phase }, running)
            } else if same_text(status.status.as_str(), "completed") {
                let phase = TrackPhase::Downloading { download };
                (TrackJob { downscale: job.downscale, phase }, TrackJobAction::Download)
            } else if same_text(status.status.as_str(), "error") {
                (
                    TrackJob { downscale: ORIGINAL.to_owned(), phase: TrackPhase::Requesting },
                    TrackJobAction::Request,
                )
            } else {
                let last: Option<LastStatus> = if same {
                    last
                } else {
                    Some(
                        LastStatus { status: status.status, message: status.message, since: now },
                    )
                };
                let phase = TrackPhase::Polling { download, last };
                (
                    TrackJob { downscale: job.downscale, phase },
                    TrackJobAction::Sleep(POLL_SECONDS),
                )
            }
        },
        (TrackPhase::Downloading { download }, TrackJobEvent::Downloaded { complete, running }) => {
            let job = TrackJob {
                downscale: job.downscale,
                phase: TrackPhase::Downloading { download },
            };
            if complete {
                (job, TrackJobAction::Stop)
            } else {
                restart(job, running)
            }
        },
        (phase, _) => {
            let action = match &phase {
                TrackPhase::Requesting => TrackJobAction::Request,
                TrackPhase::Polling { .. } => TrackJobAction::Poll,
                TrackPhase::Downloading { .. } => TrackJobAction::Download,
            };
            (TrackJob { downscale: job.downscale, phase }, action)
        },
    }
}

/// The state of a track's download after the given events.
pub open spec fn track_job_run(state: TrackJobState, events: Seq<TrackJobEvent>) -> TrackJobState
    decreases events.len(),
{
    if events.len() == 0 {
        state
    } else {
        track_job_step(track_job_run(state, events.drop_last()), events.last()).0
    }
}

/// Whatever happens, a track is requested in the configured format or in the
/// original one.
pub proof fn law_format_is_configured_or_original(
    start: TrackJobState,
    events: Seq<TrackJobEvent>,
)
    ensures
        track_job_run(start, events).downscale == start.downscale || track_job_run(
            start,
            events,
        ).downscale == ORIGINAL@,
    decreases events.len(),
{
    if events.len() > 0 {
        law_format_is_configured_or_original(start, events.drop_last());
    }
}

/// A track that is requested in the original format stays with it.
pub proof fn law_original_format_stays(start: TrackJobState, events: Seq<TrackJobEvent>)
    requires
        start.downscale == ORIGINAL@,
    ensures
        track_job_run(start, events).downscale == ORIGINAL@,
{
    law_format_is_configured_or_original(start, events);
}

/// The format changes only where the server reports an error, and the track
/// is then requested again.
pub proof fn law_format_changes_only_on_error(state: TrackJobState, event: TrackJobEvent)
    requires
        track_job_step(state, event).0.downscale != state.downscale,
    ensures
        event matches TrackJobEvent::Polled { status: Some(status), .. } && status.status@
            == "error"@,
        track_job_step(state, event).0.downscale == ORIGINAL@,
        track_job_step(state, event).1 is Request,
{
}

/// A track is dropped only once its audio is there, once its request came to
/// nothing, or once the downloader was told to stop.
pub proof fn law_track_is_dropped_only_when_done_or_stopped(
    state: TrackJobState,
    event: TrackJobEvent,
)
    requires
        track_job_step(state, event).1 is Stop,
    ensures
        match event {
            TrackJobEvent::Requested(download) => download is None,
            TrackJobEvent::Polled { running, .. } => !running,
            TrackJobEvent::Slept => false,
            TrackJobEvent::Downloaded { complete, running } => complete || !running,
        },
{
}

/// Audio is fetched only from the server that was polled, once that server
/// has reported completion.
pub proof fn law_only_completed_downloads_are_fetched(state: TrackJobState, event: TrackJobEvent)
    requires
        track_job_step(state, event).1 is Download,
        !(state.phase is Downloading),
    ensures
        event matches TrackJobEvent::Polled { status: Some(status), .. } && status.status@
            == "completed"@,
        state.phase matches TrackPhase::Polling { download, .. } && track_job_step(
            state,
            event,
        ).0.phase == (TrackPhase::Downloading { download }),
{
}

/// A download that shows the same progress for half a minute is not polled
/// again: it starts over, or stops with the downloader.
pub proof fn law_stuck_download_starts_over(
    state: TrackJobState,
    status: TrackDownloadStatus,
    now: u128,
    running: bool,
)
    requires
        state.phase matches TrackPhase::Polling { last, .. } && is_stuck(last, status, now),
    ensures
        ({
            let event = TrackJobEvent::Polled { status: Some(status), now, running };
            track_job_step(state, event).1 == if running {
                TrackJobAction::Request
            } else {
                TrackJobAction::Stop
            }
        }),
{
}

} // verus!
