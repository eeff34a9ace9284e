//! What becomes of a track, from the request to the finished file.
use crate::models::{TrackDownload, TrackDownloadStatus};
use crate::track_job::{
    first_track_step, track_job_run, track_job_step, LastStatus, TrackJobAction, TrackJobEvent,
    TrackJobState, TrackPhase,
};
use vstd::prelude::*;

verus! {

/// Whether a download has shown the given progress, word for word, for at least
/// the given number of nanoseconds.
pub open spec fn has_shown(
    last: Option<LastStatus>,
    status: TrackDownloadStatus,
    now: u128,
    nanoseconds: int,
) -> bool {
    &&& last is Some
    &&& last->0.status@ == status.status@
    &&& last->0.message@ == status.message@
    &&& now - last->0.since >= nanoseconds
}

/// The state of a download that a server prepares.
pub open spec fn waiting(
    downscale: Seq<char>,
    download: TrackDownload,
    last: Option<LastStatus>,
) -> TrackJobState {
    TrackJobState { downscale, phase: TrackPhase::Polling { download, last } }
}

/// The server's progress at a time.
pub open spec fn progress(status: TrackDownloadStatus, now: u128, running: bool) -> TrackJobEvent {
    TrackJobEvent::Polled { status: Some(status), now, running }
}

/// A download begins with a request in the configured format.
pub proof fn law_track_is_requested_first(downscale: Seq<char>)
    ensures
        first_track_step(downscale).0.downscale == downscale,
        first_track_step(downscale).0.phase is Requesting,
        first_track_step(downscale).1 is Request,
{
}

/// An accepted request is followed by a look at the progress of that download,
/// of which nothing is known yet; a request that came to nothing ends the
/// matter.
pub proof fn law_accepted_track_is_polled(downscale: Seq<char>, download: TrackDownload)
    ensures
        ({
            let state = TrackJobState { downscale, phase: TrackPhase::Requesting };
            &&& track_job_step(state, TrackJobEvent::Requested(Some(download))) == (
                waiting(downscale, download, None),
                TrackJobAction::Poll,
            )
            &&& track_job_step(state, TrackJobEvent::Requested(None)).1 is Stop
        }),
{
}

/// A completed download that is not stuck is fetched, from the server that was
/// polled, whatever the message says and whether or not the downloader stops.
pub proof fn law_completed_track_is_fetched(
    downscale: Seq<char>,
    download: TrackDownload,
    last: Option<LastStatus>,
    status: TrackDownloadStatus,
    now: u128,
    running: bool,
)
    requires
        status.status@ == "completed"@,
        !has_shown(last, status, now, 30_000_000_000),
    ensures
        track_job_step(waiting(downscale, download, last), progress(status, now, running)) == (
            TrackJobState { downscale, phase: TrackPhase::Downloading { download } },
            TrackJobAction::Download,
        ),
{
}

/// A download that the server could not prepare is requested again at once, in
/// the original format.
pub proof fn law_failed_track_is_requested_in_the_original_format(
    downscale: Seq<char>,
    download: TrackDownload,
    last: Option<LastStatus>,
    status: TrackDownloadStatus,
    now: u128,
    running: bool,
)
    requires
        status.status@ == "error"@,
        !has_shown(last, status, now, 30_000_000_000),
    ensures
        track_job_step(waiting(downscale, download, last), progress(status, now, running)) == (
            TrackJobState { downscale: "original"@, phase: TrackPhase::Requesting },
            TrackJobAction::Request,
        ),
{
    reveal_strlit("error");
    reveal_strlit("completed");
    assert("error"@.len() == 5 && "completed"@.len() == 9);
}

/// Any other progress that is not stuck is looked at again after a second. New
/// progress sets the clock; progress that was shown before leaves it.
pub proof fn law_unfinished_track_is_polled_again(
    downscale: Seq<char>,
    download: TrackDownload,
    last: Option<LastStatus>,
    status: TrackDownloadStatus,
    now: u128,
    running: bool,
)
    requires
        status.status@ != "completed"@,
        status.status@ != "error"@,
        !has_shown(last, status, now, 30_000_000_000),
    ensures
        ({
            let (state, action) = track_job_step(
                waiting(downscale, download, last),
                progress(status, now, running),
            );
            let again = last is Some && last->0.status@ == status.status@ && last->0.message@
                == status.message@;
            &&& action == TrackJobAction::Sleep(1)
            &&& state.downscale == downscale
            &&& state.phase matches TrackPhase::Polling { download: polled, last: shown }
                && polled == download && shown is Some && shown->0.status@ == status.status@
                && shown->0.message@ == status.message@ && shown->0.since == if again {
                last->0.since
            } else {
                now
            }
        }),
{
}

/// Progress that has not changed for thirty seconds is not waited for any
/// longer, completed or not: the track is requested anew in the same format
/// or, where the downloader stops, dropped.
pub proof fn law_stuck_track_is_requested_anew(
    downscale: Seq<char>,
    download: TrackDownload,
    last: Option<LastStatus>,
    status: TrackDownloadStatus,
    now: u128,
)
    requires
        has_shown(last, status, now, 30_000_000_000),
    ensures
        track_job_step(waiting(downscale, download, last), progress(status, now, true)) == (
            TrackJobState { downscale, phase: TrackPhase::Requesting },
            TrackJobAction::Request,
        ),
        track_job_step(waiting(downscale, download, last), progress(status, now, false)).1 is Stop,
{
}

/// A download that the server has lost is requested anew in the same format
/// or, where the downloader stops, dropped.
pub proof fn law_lost_track_is_requested_anew(
    downscale: Seq<char>,
    download: TrackDownload,
    last: Option<LastStatus>,
    now: u128,
)
    ensures
        ({
            let state = waiting(downscale, download, last);
            &&& track_job_step(
                state,
                TrackJobEvent::Polled { status: None, now, running: true },
            ) == (
                TrackJobState { downscale, phase: TrackPhase::Requesting },
                TrackJobAction::Request,
            )
            &&& track_job_step(
                state,
                TrackJobEvent::Polled { status: None, now, running: false },
            ).1 is Stop
        }),
{
}

/// Audio that is there ends the matter; audio that could not be fetched is
/// requested anew in the same format or, where the downloader stops, dropped.
pub proof fn law_unfetched_track_is_requested_anew(
    downscale: Seq<char>,
    download: TrackDownload,
    running: bool,
)
    ensures
        ({
            let state = TrackJobState { downscale, phase: TrackPhase::Downloading { download } };
            let done = TrackJobEvent::Downloaded { complete: true, running };
            let broken = TrackJobEvent::Downloaded { complete: false, running };
            &&& track_job_step(state, done).1 is Stop
            &&& running ==> track_job_step(state, broken) == (
                TrackJobState { downscale, phase: TrackPhase::Requesting },
                TrackJobAction::Request,
            )
            &&& !running ==> track_job_step(state, broken).1 is Stop
        }),
{
}

/// After a pause the download is looked at again, and nothing else has changed.
pub proof fn law_pause_changes_nothing(
    downscale: Seq<char>,
    download: TrackDownload,
    last: Option<LastStatus>,
)
    ensures
        track_job_step(waiting(downscale, download, last), TrackJobEvent::Slept) == (
            waiting(downscale, download, last),
            TrackJobAction::Poll,
        ),
{
}

/// The polls at the given times, all of which show the same progress.
pub open spec fn same_progress(status: TrackDownloadStatus, times: Seq<u128>) -> Seq<
    TrackJobEvent,
> {
    times.map_values(|now: u128| progress(status, now, true))
}

/// However often a download is looked at, the thirty seconds run from the time
/// when its progress was first shown: polls before that are waited out, and
/// the first poll after it has the track requested anew.
pub proof fn law_patience_runs_from_the_first_sight(
    downscale: Seq<char>,
    download: TrackDownload,
    status: TrackDownloadStatus,
    first: u128,
    times: Seq<u128>,
    late: u128,
)
    requires
        status.status@ != "completed"@,
        status.status@ != "error"@,
        forall|i: int|
            0 <= i < times.len() ==> first <= #[trigger] times[i] < first + 30_000_000_000,
        late >= first + 30_000_000_000,
    ensures
        ({
            let start = waiting(downscale, download, None);
            let early = seq![progress(status, first, true)] + same_progress(status, times);
            let before = track_job_run(start, early);
            let after = track_job_run(start, early.push(progress(status, late, true)));
            &&& before.phase matches TrackPhase::Polling { download: polled, .. } && polled
                == download
            &&& after == (TrackJobState { downscale, phase: TrackPhase::Requesting })
        }),
{
    let start = waiting(downscale, download, None);
    let early = seq![progress(status, first, true)] + same_progress(status, times);
    lemma_patience(downscale, download, status, first, times);
    let last = progress(status, late, true);
    assert(early.push(last).drop_last() =~= early);
}

proof fn lemma_patience(
    downscale: Seq<char>,
    download: TrackDownload,
    status: TrackDownloadStatus,
    first: u128,
    times: Seq<u128>,
)
    requires
        status.status@ != "completed"@,
        status.status@ != "error"@,
        forall|i: int|
            0 <= i < times.len() ==> first <= #[trigger] times[i] < first + 30_000_000_000,
    ensures
        ({
            let early = seq![progress(status, first, true)] + same_progress(status, times);
            let state = track_job_run(waiting(downscale, download, None), early);
            &&& state.downscale == downscale
            &&& state.phase matches TrackPhase::Polling { download: polled, last } && polled
                == download && last is Some && last->0.status@ == status.status@
                && last->0.message@ == status.message@ && last->0.since == first
        }),
    decreases times.len(),
{
    let start = waiting(downscale, download, None);
    let early = seq![progress(status, first, true)] + same_progress(status, times);
    if times.len() == 0 {
        assert(early =~= seq![progress(status, first, true)]);
        assert(early.drop_last() =~= Seq::<TrackJobEvent>::empty());
        assert(track_job_run(start, early.drop_last()) == start);
        law_unfinished_track_is_polled_again(downscale, download, None, status, first, true);
        assert(early.last() == progress(status, first, true));
    } else {
        let front = times.drop_last();
        assert forall|i: int| 0 <= i < front.len() implies first <= #[trigger] front[i] < first
            + 30_000_000_000 by {
            assert(front[i] == times[i]);
        }
        lemma_patience(downscale, download, status, first, front);
        let fewer = seq![progress(status, first, true)] + same_progress(status, front);
        assert(early.drop_last() =~= fewer);
        let now = times[times.len() - 1];
        assert(early.last() == progress(status, now, true));
        let state = track_job_run(start, fewer);
        let last = state.phase->last;
        assert(state == waiting(downscale, download, last));
        law_unfinished_track_is_polled_again(downscale, download, last, status, now, true);
    }
}

} // verus!
