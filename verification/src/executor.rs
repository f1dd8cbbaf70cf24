//! The step executor: what a job does next.
//!
//! The executor performs nothing itself. It is told what happened (an
//! [`Event`]) and answers what is to be done (an [`Effect`]); whoever drives
//! it performs the effect and reports the outcome as the next event. A run
//! begins with [`StepExecutor::begin`] and ends with [`Effect::Finish`].
//!
//! A run loads the job, claims it by storing it as in progress, and then
//! runs the steps from the one the job stands at: it logs the start, performs
//! the step's action, stores the step the job has reached, and logs the
//! completion. A failed action is stored, logged, and ends the run.

use vstd::prelude::*;
use vstd::string::*;
use std::collections::HashSet;
use crate::download::{
    chapters_to_download, download_over, is_download_over, missing_ids, ChapterStatus,
    DownloaderState,
};
use crate::error::{ErrorKind, ErrorView, StepError};
use crate::format::ExportFormat;
use crate::job::Export;
use crate::step::{ExportState, ExportStep};
use crate::text::concat2;

verus! {

/// What the executor waits for.
#[derive(Debug, Clone, Copy, PartialEq, Eq, Structural)]
pub enum Phase {
    /// The job is being loaded.
    Loading,
    /// The job is being stored as in progress.
    Claiming,
    /// The start of a step is being logged.
    Announcing,
    /// The chapters of the job are being loaded for the running step.
    LoadingChapters,
    /// The remote service is being asked which chapters it has downloaded.
    Checking,
    /// The remote service is being told to download the missing chapters.
    Triggering,
    /// The remote service is being asked whether its downloader has stopped.
    Polling,
    /// The pause between two such questions.
    Waiting,
    /// The assets of the chapters are being fetched.
    Fetching,
    /// The archive is being assembled.
    Assembling,
    /// The step that the job has reached is being stored.
    Saving,
    /// The completion of a step is being logged.
    Reporting,
    /// The failure of the job is being stored.
    SavingFailure,
    /// The failure of the job is being logged.
    ReportingFailure,
    /// The run has ended.
    Finished,
}

/// What happened: the outcome of the effect that the executor asked for last.
#[derive(Debug, PartialEq, Eq)]
pub enum Event {
    /// The job was looked up in the store.
    JobLoaded(Result<Option<Export>, StepError>),
    /// The job's state, step and progress were stored.
    Saved(Result<(), StepError>),
    /// A line was handed to the event log. Whether it was written is not reported.
    Logged,
    /// The chapters of the job were looked up in the store.
    ChaptersLoaded(Result<HashSet<i64>, StepError>),
    /// The remote service said which chapters it has downloaded, or had no data.
    Checked(Result<Option<Vec<ChapterStatus>>, StepError>),
    /// The remote service was told to download chapters.
    Triggered(Result<(), StepError>),
    /// The remote service said how its downloader stands, or had no data.
    Polled(Result<Option<DownloaderState>, StepError>),
    /// The pause is over.
    Waited,
    /// The assets were fetched.
    Fetched(Result<(), StepError>),
    /// The archive was assembled.
    Assembled(Result<(), StepError>),
}

/// What is to be done next.
#[derive(Debug, PartialEq, Eq)]
pub enum Effect {
    /// Look the job up in the store.
    LoadJob { id: i64 },
    /// Store the job's state, step and progress.
    Save { id: i64, state: ExportState, step: ExportStep, progress: i64 },
    /// Append a line to the event log.
    Log { id: i64, step: ExportStep, message: String },
    /// Look the chapters of the job up in the store.
    LoadChapters { id: i64 },
    /// Ask the remote service which of these chapters it has downloaded.
    CheckDownloaded { ids: HashSet<i64> },
    /// Tell the remote service to download these chapters.
    TriggerDownload { missing: Vec<i64> },
    /// Ask the remote service how its downloader stands.
    PollProgress,
    /// Pause for so many seconds.
    Wait { seconds: u64 },
    /// Fetch the assets of these chapters.
    FetchAssets { ids: HashSet<i64> },
    /// Assemble the archive of the job from these chapters.
    Assemble { format: ExportFormat, ids: HashSet<i64> },
    /// The run has ended, well or with this failure.
    Finish { outcome: Result<(), StepError> },
}

/// An effect as a value.
pub enum EffectView {
    LoadJob { id: i64 },
    Save { id: i64, state: ExportState, step: ExportStep, progress: i64 },
    Log { id: i64, step: ExportStep, message: Seq<char> },
    LoadChapters { id: i64 },
    CheckDownloaded { ids: Set<i64> },
    TriggerDownload { missing: Seq<i64> },
    PollProgress,
    Wait { seconds: u64 },
    FetchAssets { ids: Set<i64> },
    Assemble { format: ExportFormat, ids: Set<i64> },
    Finish { failure: Option<ErrorView> },
}

impl EffectView {
    /// The step that this effect stores, if it stores one.
    pub open spec fn stored_step(self) -> Option<ExportStep> {
        match self {
            EffectView::Save { step, .. } => Some(step),
            _ => None,
        }
    }
}

impl View for Effect {
    type V = EffectView;

    open spec fn view(&self) -> EffectView {
        match *self {
            Effect::LoadJob { id } => EffectView::LoadJob { id },
            Effect::Save { id, state, step, progress } => EffectView::Save {
                id,
                state,
                step,
                progress,
            },
            Effect::Log { id, step, message } => EffectView::Log { id, step, message: message@ },
            Effect::LoadChapters { id } => EffectView::LoadChapters { id },
            Effect::CheckDownloaded { ids } => EffectView::CheckDownloaded { ids: ids@ },
            Effect::TriggerDownload { missing } => EffectView::TriggerDownload { missing: missing@ },
            Effect::PollProgress => EffectView::PollProgress,
            Effect::Wait { seconds } => EffectView::Wait { seconds },
            Effect::FetchAssets { ids } => EffectView::FetchAssets { ids: ids@ },
            Effect::Assemble { format, ids } => EffectView::Assemble { format, ids: ids@ },
            Effect::Finish { outcome } => EffectView::Finish {
                failure: match outcome {
                    Ok(_) => None,
                    Err(e) => Some(e@),
                },
            },
        }
    }
}

/// The executor of one run of one job.
#[derive(Debug)]
pub struct StepExecutor {
    id: i64,
    format: ExportFormat,
    state: ExportState,
    step: ExportStep,
    running: ExportStep,
    progress: i64,
    phase: Phase,
    poll_seconds: u64,
    failure: Option<StepError>,
}

/// An executor as a value: the job's identifier and format, its state, the
/// step it has reached, the step that is running, its progress, what the
/// executor waits for, the pause between two questions to the downloader,
/// and the failure that is being recorded.
pub struct ExecutorView {
    pub id: i64,
    pub format: ExportFormat,
    pub state: ExportState,
    pub step: ExportStep,
    pub running: ExportStep,
    pub progress: i64,
    pub phase: Phase,
    pub poll_seconds: u64,
    pub failure: Option<ErrorView>,
}

impl View for StepExecutor {
    type V = ExecutorView;

    closed spec fn view(&self) -> ExecutorView {
        ExecutorView {
            id: self.id,
            format: self.format,
            state: self.state,
            step: self.step,
            running: self.running,
            progress: self.progress,
            phase: self.phase,
            poll_seconds: self.poll_seconds,
            failure: match self.failure {
                Some(e) => Some(e@),
                None => None,
            },
        }
    }
}

/// The failure of a run whose job the store does not hold.
pub open spec fn job_not_found() -> ErrorView {
    ErrorView { kind: ErrorKind::RecordNotFound, detail: "Export not found"@ }
}

/// The failure of a step to which the remote service gave no data.
pub open spec fn no_response_data() -> ErrorView {
    ErrorView { kind: ErrorKind::MissingUpstreamData, detail: "Missing response data"@ }
}

/// The line that announces a step.
pub open spec fn start_message() -> Seq<char> {
    "Starting step"@
}

/// The line that reports a step done.
pub open spec fn done_message() -> Seq<char> {
    "Step completed"@
}

/// The line that reports a failed step.
pub open spec fn failure_message(failure: ErrorView) -> Seq<char> {
    "step failed: "@ + failure.message()
}

/// The failure that an outcome carries, if it is one.
pub open spec fn failure_of<T>(outcome: Result<T, StepError>) -> Option<ErrorView> {
    match outcome {
        Ok(_) => None,
        Err(e) => Some(e@),
    }
}

impl ExecutorView {
    /// An executor before its run: it waits for the job.
    pub open spec fn initial(id: i64, poll_seconds: u64) -> ExecutorView {
        ExecutorView {
            id,
            format: ExportFormat::Cbz,
            state: ExportState::Draft,
            step: ExportStep::Begin,
            running: ExportStep::Begin,
            progress: 0,
            phase: Phase::Loading,
            poll_seconds,
            failure: None,
        }
    }

    /// Whether the event answers what the executor waits for.
    pub open spec fn accepts(self, event: Event) -> bool {
        match self.phase {
            Phase::Loading => event is JobLoaded,
            Phase::Claiming => event is Saved,
            Phase::Announcing => event is Logged,
            Phase::LoadingChapters => event is ChaptersLoaded,
            Phase::Checking => event is Checked,
            Phase::Triggering => event is Triggered,
            Phase::Polling => event is Polled,
            Phase::Waiting => event is Waited,
            Phase::Fetching => event is Fetched,
            Phase::Assembling => event is Assembled,
            Phase::Saving => event is Saved,
            Phase::Reporting => event is Logged,
            Phase::SavingFailure => event is Saved,
            Phase::ReportingFailure => event is Logged,
            Phase::Finished => false,
        }
    }

    /// The run ends with the given outcome.
    pub open spec fn finish(self, failure: Option<ErrorView>) -> (ExecutorView, EffectView) {
        (
            ExecutorView { phase: Phase::Finished, failure: None, ..self },
            EffectView::Finish { failure },
        )
    }

    /// The running step has failed: the job is failed, and that is stored.
    pub open spec fn fail(self, failure: ErrorView) -> (ExecutorView, EffectView) {
        (
            ExecutorView {
                state: ExportState::Failed,
                phase: Phase::SavingFailure,
                failure: Some(failure),
                ..self
            },
            EffectView::Save {
                id: self.id,
                state: ExportState::Failed,
                step: self.step,
                progress: self.progress,
            },
        )
    }

    /// The action of the running step is done: the job has reached the next
    /// step, and that is stored. When the last step is done, the job is completed.
    pub open spec fn advance(self) -> (ExecutorView, EffectView) {
        let state = if self.running == ExportStep::Complete {
            ExportState::Completed
        } else {
            self.state
        };
        let step = self.running.successor();
        (
            ExecutorView { state, step, phase: Phase::Saving, ..self },
            EffectView::Save { id: self.id, state, step, progress: self.progress },
        )
    }

    /// The step that the job has reached starts: it is announced.
    pub open spec fn announce(self) -> (ExecutorView, EffectView) {
        (
            ExecutorView { running: self.step, phase: Phase::Announcing, ..self },
            EffectView::Log { id: self.id, step: self.step, message: start_message() },
        )
    }

    /// What the executor does when it is told what happened: the executor
    /// afterwards, and what is to be done next.
    #[verifier::opaque]
    pub open spec fn next(self, event: Event) -> (ExecutorView, EffectView) {
        match self.phase {
            Phase::Loading => match event {
                Event::JobLoaded(Ok(Some(job))) => if job.state == ExportState::Completed {
                    ExecutorView {
                        format: job.format,
                        state: job.state,
                        step: job.step,
                        running: job.step,
                        progress: job.progress,
                        ..self
                    }.finish(None)
                } else {
                    (
                        ExecutorView {
                            format: job.format,
                            state: ExportState::InProgress,
                            step: job.step,
                            running: job.step,
                            progress: job.progress,
                            phase: Phase::Claiming,
                            ..self
                        },
                        EffectView::Save {
                            id: self.id,
                            state: ExportState::InProgress,
                            step: job.step,
                            progress: job.progress,
                        },
                    )
                },
                Event::JobLoaded(Ok(None)) => self.finish(Some(job_not_found())),
                Event::JobLoaded(Err(e)) => self.finish(Some(e@)),
                _ => (self, EffectView::Finish { failure: None }),
            },
            Phase::Claiming => match event {
                Event::Saved(Ok(_)) => self.announce(),
                Event::Saved(Err(e)) => self.finish(Some(e@)),
                _ => (self, EffectView::Finish { failure: None }),
            },
            Phase::Announcing => match self.running {
                ExportStep::Begin => self.advance(),
                ExportStep::Complete => self.advance(),
                _ => (
                    ExecutorView { phase: Phase::LoadingChapters, ..self },
                    EffectView::LoadChapters { id: self.id },
                ),
            },
            Phase::LoadingChapters => match event {
                Event::ChaptersLoaded(Ok(ids)) => match self.running {
                    ExportStep::DownloadingFromSource => (
                        ExecutorView { phase: Phase::Checking, ..self },
                        EffectView::CheckDownloaded { ids: ids@ },
                    ),
                    ExportStep::FetchingFromSuwayomi => (
                        ExecutorView { phase: Phase::Fetching, ..self },
                        EffectView::FetchAssets { ids: ids@ },
                    ),
                    _ => (
                        ExecutorView { phase: Phase::Assembling, ..self },
                        EffectView::Assemble { format: self.format, ids: ids@ },
                    ),
                },
                Event::ChaptersLoaded(Err(e)) => self.fail(e@),
                _ => (self, EffectView::Finish { failure: None }),
            },
            Phase::Checking => match event {
                Event::Checked(Ok(Some(statuses))) => if missing_ids(statuses@).len() == 0 {
                    self.advance()
                } else {
                    (
                        ExecutorView { phase: Phase::Triggering, ..self },
                        EffectView::TriggerDownload { missing: missing_ids(statuses@) },
                    )
                },
                Event::Checked(Ok(None)) => self.fail(no_response_data()),
                Event::Checked(Err(e)) => self.fail(e@),
                _ => (self, EffectView::Finish { failure: None }),
            },
            Phase::Triggering => match event {
                Event::Triggered(Ok(_)) => (
                    ExecutorView { phase: Phase::Polling, ..self },
                    EffectView::PollProgress,
                ),
                Event::Triggered(Err(e)) => self.fail(e@),
                _ => (self, EffectView::Finish { failure: None }),
            },
            Phase::Polling => match event {
                Event::Polled(Ok(None)) => self.fail(no_response_data()),
                Event::Polled(Ok(answer)) => if download_over(answer) {
                    self.advance()
                } else {
                    (
                        ExecutorView { phase: Phase::Waiting, ..self },
                        EffectView::Wait { seconds: self.poll_seconds },
                    )
                },
                Event::Polled(Err(e)) => self.fail(e@),
                _ => (self, EffectView::Finish { failure: None }),
            },
            Phase::Waiting => (
                ExecutorView { phase: Phase::Polling, ..self },
                EffectView::PollProgress,
            ),
            Phase::Fetching => match event {
                Event::Fetched(Ok(_)) => self.advance(),
                Event::Fetched(Err(e)) => self.fail(e@),
                _ => (self, EffectView::Finish { failure: None }),
            },
            Phase::Assembling => match event {
                Event::Assembled(Ok(_)) => self.advance(),
                Event::Assembled(Err(e)) => self.fail(e@),
                _ => (self, EffectView::Finish { failure: None }),
            },
            Phase::Saving => match event {
                Event::Saved(Ok(_)) => (
                    ExecutorView { phase: Phase::Reporting, ..self },
                    EffectView::Log { id: self.id, step: self.running, message: done_message() },
                ),
                Event::Saved(Err(e)) => self.finish(Some(e@)),
                _ => (self, EffectView::Finish { failure: None }),
            },
            Phase::Reporting => if self.running == ExportStep::Complete {
                self.finish(None)
            } else {
                self.announce()
            },
            Phase::SavingFailure => match event {
                Event::Saved(Ok(_)) => (
                    ExecutorView { phase: Phase::ReportingFailure, ..self },
                    EffectView::Log {
                        id: self.id,
                        step: self.running,
                        message: failure_message(self.failure.unwrap()),
                    },
                ),
                Event::Saved(Err(e)) => self.finish(Some(e@)),
                _ => (self, EffectView::Finish { failure: None }),
            },
            Phase::ReportingFailure => self.finish(self.failure),
            Phase::Finished => (self, EffectView::Finish { failure: None }),
        }
    }

    /// What holds of every executor on its way. The step that runs never
    /// stands behind the step that the job has reached. While a failure is being
    /// recorded it is at hand and the job is failed. Until the action of the
    /// running step is done the job stands at that step and is in progress;
    /// then it stands at the step after it, and is completed if the step was
    /// the last. Each action belongs to its step.
    pub open spec fn well_formed(self) -> bool {
        match self.phase {
            Phase::Loading => self.step == self.running,
            Phase::Finished => self.running.index() <= self.step.index(),
            Phase::SavingFailure | Phase::ReportingFailure => self.failure.is_some() && self.state
                == ExportState::Failed && self.step == self.running,
            Phase::Saving | Phase::Reporting => self.step == self.running.successor() && self.state
                == (if self.running == ExportStep::Complete {
                ExportState::Completed
            } else {
                ExportState::InProgress
            }),
            Phase::Claiming | Phase::Announcing => self.step == self.running && self.state
                == ExportState::InProgress,
            Phase::LoadingChapters => self.step == self.running && self.state
                == ExportState::InProgress && self.running != ExportStep::Begin && self.running
                != ExportStep::Complete,
            Phase::Checking | Phase::Triggering | Phase::Polling | Phase::Waiting => self.step
                == self.running && self.state == ExportState::InProgress && self.running
                == ExportStep::DownloadingFromSource,
            Phase::Fetching => self.step == self.running && self.state == ExportState::InProgress
                && self.running == ExportStep::FetchingFromSuwayomi,
            Phase::Assembling => self.step == self.running && self.state
                == ExportState::InProgress && self.running == ExportStep::AssemblingFile,
        }
    }
}

impl StepExecutor {
    /// Starts a run of the job `id`. Between two questions to the downloader
    /// the run pauses for `poll_seconds`. The first thing to do is to load the job.
    pub fn begin(id: i64, poll_seconds: u64) -> (started: (StepExecutor, Effect))
        ensures
            started.0@ == ExecutorView::initial(id, poll_seconds),
            started.1@ == (EffectView::LoadJob { id }),
            started.0@.well_formed(),
    {
        (
            StepExecutor {
                id,
                format: ExportFormat::Cbz,
                state: ExportState::Draft,
                step: ExportStep::Begin,
                running: ExportStep::Begin,
                progress: 0,
                phase: Phase::Loading,
                poll_seconds,
                failure: None,
            },
            Effect::LoadJob { id },
        )
    }

    /// Whether the run has ended.
    pub fn is_finished(&self) -> (finished: bool)
        ensures
            finished == (self@.phase == Phase::Finished),
    {
        self.phase == Phase::Finished
    }

    /// What the executor waits for.
    pub fn phase(&self) -> (phase: Phase)
        ensures
            phase == self@.phase,
    {
        self.phase
    }

    /// The state of the job.
    pub fn state(&self) -> (state: ExportState)
        ensures
            state == self@.state,
    {
        self.state
    }

    /// The step that the job has reached.
    pub fn reached(&self) -> (step: ExportStep)
        ensures
            step == self@.step,
    {
        self.step
    }

    /// The step whose action is running, or ran last.
    pub fn running(&self) -> (step: ExportStep)
        ensures
            step == self@.running,
    {
        self.running
    }

    /// Whether the event answers what the executor waits for.
    pub fn accepts(&self, event: &Event) -> (accepted: bool)
        ensures
            accepted == self@.accepts(*event),
    {
        match self.phase {
            Phase::Loading => matches!(event, Event::JobLoaded(_)),
            Phase::Claiming => matches!(event, Event::Saved(_)),
            Phase::Announcing => matches!(event, Event::Logged),
            Phase::LoadingChapters => matches!(event, Event::ChaptersLoaded(_)),
            Phase::Checking => matches!(event, Event::Checked(_)),
            Phase::Triggering => matches!(event, Event::Triggered(_)),
            Phase::Polling => matches!(event, Event::Polled(_)),
            Phase::Waiting => matches!(event, Event::Waited),
            Phase::Fetching => matches!(event, Event::Fetched(_)),
            Phase::Assembling => matches!(event, Event::Assembled(_)),
            Phase::Saving => matches!(event, Event::Saved(_)),
            Phase::Reporting => matches!(event, Event::Logged),
            Phase::SavingFailure => matches!(event, Event::Saved(_)),
            Phase::ReportingFailure => matches!(event, Event::Logged),
            Phase::Finished => false,
        }
    }

    fn finish(&mut self, outcome: Result<(), StepError>) -> (effect: Effect)
        ensures
            (final(self)@, effect@) == old(self)@.finish(failure_of(outcome)),
    {
        self.phase = Phase::Finished;
        self.failure = None;
        Effect::Finish { outcome }
    }

    fn fail(&mut self, failure: StepError) -> (effect: Effect)
        ensures
            (final(self)@, effect@) == old(self)@.fail(failure@),
    {
        self.state = ExportState::Failed;
        self.phase = Phase::SavingFailure;
        self.failure = Some(failure);
        Effect::Save {
            id: self.id,
            state: ExportState::Failed,
            step: self.step,
            progress: self.progress,
        }
    }

    fn advance(&mut self) -> (effect: Effect)
        ensures
            (final(self)@, effect@) == old(self)@.advance(),
    {
        if self.running == ExportStep::Complete {
            self.state = ExportState::Completed;
        }
        self.step = self.running.next();
        self.phase = Phase::Saving;
        Effect::Save { id: self.id, state: self.state, step: self.step, progress: self.progress }
    }

    fn announce(&mut self) -> (effect: Effect)
        ensures
            (final(self)@, effect@) == old(self)@.announce(),
    {
        self.running = self.step;
        self.phase = Phase::Announcing;
        Effect::Log { id: self.id, step: self.step, message: "Starting step".to_string() }
    }

    fn settle(&mut self, outcome: Result<(), StepError>) -> (effect: Effect)
        ensures
            (final(self)@, effect@) == (match outcome {
                Ok(_) => old(self)@.advance(),
                Err(e) => old(self)@.fail(e@),
            }),
    {
        match outcome {
            Ok(_) => self.advance(),
            Err(e) => self.fail(e),
        }
    }

    /// Tells the executor what happened, and learns what is to be done next.
    ///
    /// The event must answer what the executor waits for: the outcome of the
    /// effect it asked for last.
    pub fn step(&mut self, event: Event) -> (effect: Effect)
        requires
            old(self)@.well_formed(),
            old(self)@.accepts(event),
        ensures
            (final(self)@, effect@) == old(self)@.next(event),
            final(self)@.well_formed(),
    {
        reveal(ExecutorView::next);
        match self.phase {
            Phase::Loading => match event {
                Event::JobLoaded(Ok(Some(job))) => {
                    self.format = job.format;
                    self.step = job.step;
                    self.running = job.step;
                    self.progress = job.progress;
                    if job.state == ExportState::Completed {
                        self.state = job.state;
                        self.finish(Ok(()))
                    } else {
                        self.state = ExportState::InProgress;
                        self.phase = Phase::Claiming;
                        Effect::Save {
                            id: self.id,
                            state: ExportState::InProgress,
                            step: self.step,
                            progress: self.progress,
                        }
                    }
                },
                Event::JobLoaded(Ok(None)) => self.finish(
                    Err(StepError::new(ErrorKind::RecordNotFound, "Export not found")),
                ),
                Event::JobLoaded(Err(e)) => self.finish(Err(e)),
                _ => Effect::Finish { outcome: Ok(()) },
            },
            Phase::Claiming => match event {
                Event::Saved(Ok(_)) => self.announce(),
                Event::Saved(Err(e)) => self.finish(Err(e)),
                _ => Effect::Finish { outcome: Ok(()) },
            },
            Phase::Announcing => match self.running {
                ExportStep::Begin => self.advance(),
                ExportStep::Complete => self.advance(),
                _ => {
                    self.phase = Phase::LoadingChapters;
                    Effect::LoadChapters { id: self.id }
                },
            },
            Phase::LoadingChapters => match event {
                Event::ChaptersLoaded(Ok(ids)) => match self.running {
                    ExportStep::DownloadingFromSource => {
                        self.phase = Phase::Checking;
                        Effect::CheckDownloaded { ids }
                    },
                    ExportStep::FetchingFromSuwayomi => {
                        self.phase = Phase::Fetching;
                        Effect::FetchAssets { ids }
                    },
                    _ => {
                        self.phase = Phase::Assembling;
                        Effect::Assemble { format: self.format, ids }
                    },
                },
                Event::ChaptersLoaded(Err(e)) => self.fail(e),
                _ => Effect::Finish { outcome: Ok(()) },
            },
            Phase::Checking => match event {
                Event::Checked(Ok(Some(statuses))) => {
                    let missing = chapters_to_download(&statuses);
                    if missing.len() == 0 {
                        self.advance()
                    } else {
                        self.phase = Phase::Triggering;
                        Effect::TriggerDownload { missing }
                    }
                },
                Event::Checked(Ok(None)) => self.fail(
                    StepError::new(ErrorKind::MissingUpstreamData, "Missing response data"),
                ),
                Event::Checked(Err(e)) => self.fail(e),
                _ => Effect::Finish { outcome: Ok(()) },
            },
            Phase::Triggering => match event {
                Event::Triggered(Ok(_)) => {
                    self.phase = Phase::Polling;
                    Effect::PollProgress
                },
                Event::Triggered(Err(e)) => self.fail(e),
                _ => Effect::Finish { outcome: Ok(()) },
            },
            Phase::Polling => match event {
                Event::Polled(Ok(None)) => self.fail(
                    StepError::new(ErrorKind::MissingUpstreamData, "Missing response data"),
                ),
                Event::Polled(Ok(answer)) => {
                    if is_download_over(&answer) {
                        self.advance()
                    } else {
                        self.phase = Phase::Waiting;
                        Effect::Wait { seconds: self.poll_seconds }
                    }
                },
                Event::Polled(Err(e)) => self.fail(e),
                _ => Effect::Finish { outcome: Ok(()) },
            },
            Phase::Waiting => {
                self.phase = Phase::Polling;
                Effect::PollProgress
            },
            Phase::Fetching => match event {
                Event::Fetched(outcome) => self.settle(outcome),
                _ => Effect::Finish { outcome: Ok(()) },
            },
            Phase::Assembling => match event {
                Event::Assembled(outcome) => self.settle(outcome),
                _ => Effect::Finish { outcome: Ok(()) },
            },
            Phase::Saving => match event {
                Event::Saved(Ok(_)) => {
                    self.phase = Phase::Reporting;
                    Effect::Log {
                        id: self.id,
                        step: self.running,
                        message: "Step completed".to_string(),
                    }
                },
                Event::Saved(Err(e)) => self.finish(Err(e)),
                _ => Effect::Finish { outcome: Ok(()) },
            },
            Phase::Reporting => {
                if self.running == ExportStep::Complete {
                    self.finish(Ok(()))
                } else {
                    self.announce()
                }
            },
            Phase::SavingFailure => match event {
                Event::Saved(Ok(_)) => {
                    self.phase = Phase::ReportingFailure;
                    let message = match &self.failure {
                        Some(failure) => concat2("step failed: ", failure.describe().as_str()),
                        None => "step failed: ".to_string(),
                    };
                    Effect::Log { id: self.id, step: self.running, message }
                },
                Event::Saved(Err(e)) => self.finish(Err(e)),
                _ => Effect::Finish { outcome: Ok(()) },
            },
            Phase::ReportingFailure => {
                let failure = self.failure.take();
                match failure {
                    Some(e) => self.finish(Err(e)),
                    None => self.finish(Ok(())),
                }
            },
            Phase::Finished => Effect::Finish { outcome: Ok(()) },
        }
    }
}

} // verus!
