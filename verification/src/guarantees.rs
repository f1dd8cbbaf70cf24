//! What holds of every run of the step executor.
//!
//! A run is given by the executor it starts from and the events that it is
//! told, one after the other.

use vstd::prelude::*;
use crate::download::{all_downloaded, lemma_missing_ids, missing_ids, ChapterStatus, DownloaderState};
use crate::error::StepError;
use crate::executor::{
    failure_message, no_response_data, EffectView, Event, ExecutorView, Phase,
};
use crate::job::Export;
use crate::step::{ExportState, ExportStep};

verus! {

/// The executor after the first `n` events of a run.
pub open spec fn state_at(start: ExecutorView, events: Seq<Event>, n: int) -> ExecutorView
    decreases n,
{
    if n <= 0 {
        start
    } else {
        state_at(start, events, n - 1).next(events[n - 1]).0
    }
}

/// What the executor asks for when it is told the event at position `i` of a run.
pub open spec fn effect_at(start: ExecutorView, events: Seq<Event>, i: int) -> EffectView {
    state_at(start, events, i).next(events[i]).1
}

/// Whether each event of a run answers what the executor waited for when it came.
pub open spec fn answers(start: ExecutorView, events: Seq<Event>) -> bool {
    forall|i: int| 0 <= i < events.len() ==> state_at(start, events, i).accepts(#[trigger] events[i])
}

/// One event never takes a job back. The executor stays well formed. Once
/// the job is loaded, the step it has reached stays or moves forward, the
/// step that runs does not stand before the step that ran, and the state of
/// the job stays, or moves from in progress to completed or to failed. What
/// is stored is the state and the step that the job has then.
pub proof fn lemma_next_moves_forward(s: ExecutorView, event: Event)
    requires
        s.well_formed(),
        s.accepts(event),
    ensures
        s.next(event).0.well_formed(),
        s.next(event).0.phase != Phase::Loading,
        s.next(event).0.id == s.id,
        s.phase != Phase::Loading ==> s.step.index() <= s.next(event).0.step.index(),
        s.phase != Phase::Loading ==> s.running.index() <= s.next(event).0.running.index(),
        s.next(event).0.running.index() <= s.next(event).0.step.index(),
        s.phase != Phase::Loading ==> s.next(event).0.state == s.state || (s.state
            == ExportState::InProgress && (s.next(event).0.state == ExportState::Completed
            || s.next(event).0.state == ExportState::Failed)),
        s.next(event).1 matches EffectView::Save { id, state, step, progress } ==> id == s.id
            && state == s.next(event).0.state && step == s.next(event).0.step && progress
            == s.next(event).0.progress,
{
    reveal(ExecutorView::next);
    s.running.lemma_successor_advances();
}

/// Along a run the executor stays well formed.
pub proof fn lemma_run_well_formed(start: ExecutorView, events: Seq<Event>, n: int)
    requires
        start.well_formed(),
        answers(start, events),
        0 <= n <= events.len(),
    ensures
        state_at(start, events, n).well_formed(),
        n > 0 ==> state_at(start, events, n).phase != Phase::Loading,
        state_at(start, events, n).id == start.id,
    decreases n,
{
    if n > 0 {
        lemma_run_well_formed(start, events, n - 1);
        assert(state_at(start, events, n - 1).accepts(events[n - 1]));
        lemma_next_moves_forward(state_at(start, events, n - 1), events[n - 1]);
    }
}

/// Once the job is loaded, the step that it has reached never goes back in a run.
pub proof fn lemma_reached_steps_ascend(start: ExecutorView, events: Seq<Event>, i: int, j: int)
    requires
        start.well_formed(),
        answers(start, events),
        0 < i <= j <= events.len(),
    ensures
        state_at(start, events, i).step.index() <= state_at(start, events, j).step.index(),
        state_at(start, events, i).running.index() <= state_at(start, events, j).running.index(),
    decreases j - i,
{
    if i < j {
        lemma_reached_steps_ascend(start, events, i, j - 1);
        lemma_run_well_formed(start, events, j - 1);
        assert(state_at(start, events, j - 1).accepts(events[j - 1]));
        lemma_next_moves_forward(state_at(start, events, j - 1), events[j - 1]);
    }
}

/// The steps that a run stores never go back: of two steps stored in the
/// course of a run, the later one does not stand before the earlier one in
/// the sequence of steps.
pub proof fn lemma_stored_steps_ascend(start: ExecutorView, events: Seq<Event>, i: int, j: int)
    requires
        start.well_formed(),
        answers(start, events),
        0 <= i <= j < events.len(),
    ensures
        effect_at(start, events, i).stored_step() matches Some(first) ==> (effect_at(
            start,
            events,
            j,
        ).stored_step() matches Some(second) ==> first.index() <= second.index()),
{
    lemma_run_well_formed(start, events, i);
    lemma_run_well_formed(start, events, j);
    assert(state_at(start, events, i).accepts(events[i]));
    assert(state_at(start, events, j).accepts(events[j]));
    lemma_next_moves_forward(state_at(start, events, i), events[i]);
    lemma_next_moves_forward(state_at(start, events, j), events[j]);
    lemma_reached_steps_ascend(start, events, i + 1, j + 1);
}

/// The state of a job never goes back in a run: once the job is loaded its
/// state stays, or moves from in progress to completed or to failed.
pub proof fn lemma_state_never_reverses(start: ExecutorView, events: Seq<Event>, n: int)
    requires
        start.well_formed(),
        answers(start, events),
        0 < n < events.len(),
    ensures
        state_at(start, events, n + 1).state == state_at(start, events, n).state || (state_at(
            start,
            events,
            n,
        ).state == ExportState::InProgress && (state_at(start, events, n + 1).state
            == ExportState::Completed || state_at(start, events, n + 1).state
            == ExportState::Failed)),
{
    lemma_run_well_formed(start, events, n);
    assert(state_at(start, events, n).accepts(events[n]));
    lemma_next_moves_forward(state_at(start, events, n), events[n]);
}

/// A run on a job that is already completed ends at once: the job is loaded
/// and nothing else is asked for, neither of the store, nor of the event
/// log, nor of the remote service.
pub proof fn lemma_completed_job_is_left_alone(id: i64, poll_seconds: u64, job: Export)
    requires
        job.state == ExportState::Completed,
    ensures
        ExecutorView::initial(id, poll_seconds).next(Event::JobLoaded(Ok(Some(job)))).1 == (
        EffectView::Finish { failure: None }),
        ExecutorView::initial(id, poll_seconds).next(Event::JobLoaded(Ok(Some(job)))).0.phase
            == Phase::Finished,
        ExecutorView::initial(id, poll_seconds).next(Event::JobLoaded(Ok(Some(job)))).0.state
            == ExportState::Completed,
{
    reveal(ExecutorView::next);
}

/// The remote service is told to download only in answer to its report that
/// some chapter is not downloaded, and it is told to download exactly the
/// chapters that the report names as missing.
pub proof fn lemma_download_only_for_missing(s: ExecutorView, event: Event)
    requires
        s.well_formed(),
        s.accepts(event),
        s.next(event).1 is TriggerDownload,
    ensures
        s.phase == Phase::Checking,
        event matches Event::Checked(Ok(Some(statuses))) && !all_downloaded(statuses@) && s.next(
            event,
        ).1 == (EffectView::TriggerDownload { missing: missing_ids(statuses@) }),
{
    reveal(ExecutorView::next);
    if let Event::Checked(Ok(Some(statuses))) = event {
        lemma_missing_ids(statuses@);
    }
}

/// Where the remote service reports every chapter as downloaded, the
/// download step is done with that report: the job moves on to the fetching
/// of assets, and the service is not told to download anything.
pub proof fn lemma_downloaded_chapters_skip_download(
    s: ExecutorView,
    statuses: Vec<ChapterStatus>,
)
    requires
        s.well_formed(),
        s.phase == Phase::Checking,
        all_downloaded(statuses@),
    ensures
        s.next(Event::Checked(Ok(Some(statuses)))).1 == (EffectView::Save {
            id: s.id,
            state: ExportState::InProgress,
            step: ExportStep::FetchingFromSuwayomi,
            progress: s.progress,
        }),
        s.next(Event::Checked(Ok(Some(statuses)))).0.phase == Phase::Saving,
{
    reveal(ExecutorView::next);
    lemma_missing_ids(statuses@);
}

/// Where the downloader has stopped when it is first asked, it is asked
/// once: after the download was triggered the executor asks, and on the
/// answer it stores the next step without a pause or a second question.
pub proof fn lemma_stopped_downloader_is_asked_once(s: ExecutorView)
    requires
        s.well_formed(),
        s.phase == Phase::Triggering,
    ensures
        s.next(Event::Triggered(Ok(()))).1 == EffectView::PollProgress,
        s.next(Event::Triggered(Ok(()))).0.next(
            Event::Polled(Ok(Some(DownloaderState::Stopped))),
        ).1 == (EffectView::Save {
            id: s.id,
            state: ExportState::InProgress,
            step: ExportStep::FetchingFromSuwayomi,
            progress: s.progress,
        }),
        s.next(Event::Triggered(Ok(()))).0.next(
            Event::Polled(Ok(Some(DownloaderState::Stopped))),
        ).0.phase == Phase::Saving,
{
    reveal(ExecutorView::next);
}

/// The downloader is asked again only after a pause, and a pause is taken
/// only on the answer that the downloader has not stopped.
pub proof fn lemma_polling_continues_only_while_started(s: ExecutorView, event: Event)
    requires
        s.well_formed(),
        s.accepts(event),
    ensures
        s.next(event).1 is Wait ==> s.phase == Phase::Polling && event matches Event::Polled(
            Ok(Some(DownloaderState::Started)),
        ),
        s.next(event).1 is PollProgress ==> (s.phase == Phase::Waiting || (s.phase
            == Phase::Triggering && event matches Event::Triggered(Ok(_)))),
{
    reveal(ExecutorView::next);
}

/// The download step is done only on word that it is: the job moves on from
/// the download step only when the remote service reported every chapter as
/// downloaded, or said that its downloader has stopped.
pub proof fn lemma_download_ends_well_only_when_stopped(s: ExecutorView, event: Event)
    requires
        s.well_formed(),
        s.accepts(event),
        s.phase == Phase::Checking || s.phase == Phase::Triggering || s.phase == Phase::Polling
            || s.phase == Phase::Waiting,
        s.next(event).0.phase == Phase::Saving,
    ensures
        s.phase == Phase::Checking || s.phase == Phase::Polling,
        s.phase == Phase::Checking ==> (event matches Event::Checked(Ok(Some(statuses)))
            && all_downloaded(statuses@)),
        s.phase == Phase::Polling ==> (event matches Event::Polled(
            Ok(Some(DownloaderState::Stopped)),
        )),
        s.next(event).0.step == ExportStep::FetchingFromSuwayomi,
{
    reveal(ExecutorView::next);
    if let Event::Checked(Ok(Some(statuses))) = event {
        lemma_missing_ids(statuses@);
    }
}

/// An answer about the downloader that says neither that it runs nor that
/// it has stopped fails the download step: where the service has no data,
/// and where it could not be asked, the job is stored as failed at the
/// download step, and the downloader is not asked again.
pub proof fn lemma_unanswered_poll_fails_the_step(s: ExecutorView, event: Event)
    requires
        s.well_formed(),
        s.phase == Phase::Polling,
        event matches Event::Polled(Ok(None)) || event matches Event::Polled(Err(_)),
    ensures
        s.next(event).1 == (EffectView::Save {
            id: s.id,
            state: ExportState::Failed,
            step: ExportStep::DownloadingFromSource,
            progress: s.progress,
        }),
        s.next(event).0.phase == Phase::SavingFailure,
        s.next(event).0.state == ExportState::Failed,
        event matches Event::Polled(Ok(None)) ==> s.next(event).0.failure == Some(
            no_response_data(),
        ),
        event matches Event::Polled(Err(e)) ==> s.next(event).0.failure == Some(e@),
        s.next(event).0.well_formed(),
{
    reveal(ExecutorView::next);
}

/// A failed job stops: once the job is failed, the run only stores the
/// failure, logs it and ends. Nothing more is asked of the remote service,
/// no step is run, and the step that the job has reached stays.
pub proof fn lemma_failed_job_stops(s: ExecutorView, event: Event)
    requires
        s.well_formed(),
        s.accepts(event),
        s.state == ExportState::Failed,
        s.phase != Phase::Loading,
    ensures
        s.next(event).1 is Log || s.next(event).1 is Finish,
        s.next(event).0.step == s.step,
        s.next(event).0.state == ExportState::Failed,
        s.next(event).0.phase == Phase::ReportingFailure || s.next(event).0.phase
            == Phase::Finished,
{
    reveal(ExecutorView::next);
}

/// A failure of a step is stored before it is logged, and the run ends with
/// it: when the action of a step fails, the job is stored as failed at the
/// step it had reached, then the failure is logged under the step that ran,
/// then the run ends with the failure.
pub proof fn lemma_failure_is_stored_logged_and_returned(s: ExecutorView, failure: StepError)
    requires
        s.well_formed(),
        s.phase == Phase::Assembling || s.phase == Phase::Fetching,
    ensures
        ({
            let failed = if s.phase == Phase::Assembling {
                s.next(Event::Assembled(Err(failure)))
            } else {
                s.next(Event::Fetched(Err(failure)))
            };
            let logged = failed.0.next(Event::Saved(Ok(())));
            let ended = logged.0.next(Event::Logged);
            &&& failed.1 == (EffectView::Save {
                id: s.id,
                state: ExportState::Failed,
                step: s.step,
                progress: s.progress,
            })
            &&& logged.1 == (EffectView::Log {
                id: s.id,
                step: s.running,
                message: failure_message(failure@),
            })
            &&& ended.1 == (EffectView::Finish { failure: Some(failure@) })
            &&& ended.0.phase == Phase::Finished
        }),
{
    reveal(ExecutorView::next);
}

/// A run that takes a job up at a step does not run the steps before it:
/// no step that runs in it stands before the step that the job had reached
/// when it was loaded.
pub proof fn lemma_passed_steps_are_not_run_again(
    id: i64,
    poll_seconds: u64,
    job: Export,
    events: Seq<Event>,
    n: int,
)
    requires
        events.len() > 0,
        events[0] == Event::JobLoaded(Ok(Some(job))),
        answers(ExecutorView::initial(id, poll_seconds), events),
        0 < n <= events.len(),
    ensures
        job.step.index() <= state_at(
            ExecutorView::initial(id, poll_seconds),
            events,
            n,
        ).running.index(),
        job.step.index() <= state_at(ExecutorView::initial(id, poll_seconds), events, n).step.index(),
{
    let start = ExecutorView::initial(id, poll_seconds);
    assert(state_at(start, events, 0) == start);
    assert(state_at(start, events, 1) == start.next(events[0]).0);
    assert(state_at(start, events, 1).running == job.step && state_at(start, events, 1).step
        == job.step) by {
        reveal(ExecutorView::next);
    }
    lemma_reached_steps_ascend(start, events, 1, n);
}

} // verus!
