//! Taking up the jobs that were left unfinished when the process stopped.

use vstd::prelude::*;
use crate::step::{ExportState, ExportStep};

verus! {

/// What the scan for unfinished jobs knows of a job.
#[derive(Debug, Clone, Copy, PartialEq, Eq, Structural)]
pub struct JobSummary {
    pub id: i64,
    pub state: ExportState,
    pub step: ExportStep,
}

/// A job to take up: a line goes to the event log, under the step at which
/// the job stands, and the job is run.
#[derive(Debug, PartialEq, Eq)]
pub struct Resumption {
    pub id: i64,
    pub step: ExportStep,
    pub message: String,
}

/// A resumption as a value.
pub struct ResumptionView {
    pub id: i64,
    pub step: ExportStep,
    pub message: Seq<char>,
}

impl View for Resumption {
    type V = ResumptionView;

    open spec fn view(&self) -> ResumptionView {
        ResumptionView { id: self.id, step: self.step, message: self.message@ }
    }
}

/// The line that tells of a job taken up.
pub open spec fn resume_message() -> Seq<char> {
    "Resuming export"@
}

/// The jobs among the first `n` that are taken up, in their order.
pub open spec fn resumptions(jobs: Seq<JobSummary>, n: int) -> Seq<ResumptionView>
    decreases n,
{
    if 0 < n <= jobs.len() {
        if jobs[n - 1].state.resumable() {
            resumptions(jobs, n - 1).push(
                ResumptionView { id: jobs[n - 1].id, step: jobs[n - 1].step, message: resume_message() },
            )
        } else {
            resumptions(jobs, n - 1)
        }
    } else {
        Seq::empty()
    }
}

/// Whether one of the first `n` jobs is in progress and has the given
/// identifier and step.
pub open spec fn left_in_progress(jobs: Seq<JobSummary>, n: int, id: i64, step: ExportStep) -> bool {
    exists|i: int|
        0 <= i < n && i < jobs.len() && #[trigger] jobs[i] == (JobSummary {
            id,
            state: ExportState::InProgress,
            step,
        })
}

/// Whether a job with the given identifier is among those taken up.
pub open spec fn taken_up(list: Seq<ResumptionView>, id: i64) -> bool {
    exists|k: int| 0 <= k < list.len() && (#[trigger] list[k]).id == id
}

/// Every job that is taken up was left in progress, at the step under
/// which it is taken up.
pub proof fn lemma_only_unfinished_jobs_resume(jobs: Seq<JobSummary>, n: int, k: int)
    requires
        0 <= n <= jobs.len(),
        0 <= k < resumptions(jobs, n).len(),
    ensures
        left_in_progress(jobs, n, resumptions(jobs, n)[k].id, resumptions(jobs, n)[k].step),
        resumptions(jobs, n)[k].message == resume_message(),
    decreases n,
{
    if n > 0 {
        let earlier = resumptions(jobs, n - 1);
        if k < earlier.len() {
            lemma_only_unfinished_jobs_resume(jobs, n - 1, k);
            let i = choose|i: int|
                0 <= i < n - 1 && i < jobs.len() && #[trigger] jobs[i] == (JobSummary {
                    id: earlier[k].id,
                    state: ExportState::InProgress,
                    step: earlier[k].step,
                });
            assert(jobs[i] == (JobSummary {
                id: earlier[k].id,
                state: ExportState::InProgress,
                step: earlier[k].step,
            }));
        } else {
            assert(jobs[n - 1] == (JobSummary {
                id: jobs[n - 1].id,
                state: ExportState::InProgress,
                step: jobs[n - 1].step,
            }));
        }
    }
}

/// Every job that was left in progress is taken up.
pub proof fn lemma_every_unfinished_job_resumes(jobs: Seq<JobSummary>, n: int, i: int)
    requires
        0 <= i < n <= jobs.len(),
        jobs[i].state == ExportState::InProgress,
    ensures
        taken_up(resumptions(jobs, n), jobs[i].id),
    decreases n,
{
    let now = resumptions(jobs, n);
    if i < n - 1 {
        lemma_every_unfinished_job_resumes(jobs, n - 1, i);
        let earlier = resumptions(jobs, n - 1);
        let k = choose|k: int| 0 <= k < earlier.len() && (#[trigger] earlier[k]).id == jobs[i].id;
        assert(now[k].id == jobs[i].id);
    } else {
        assert(now[now.len() - 1].id == jobs[i].id);
    }
}

/// Whether no two of the jobs have the same identifier.
pub open spec fn distinct_ids(jobs: Seq<JobSummary>) -> bool {
    forall|a: int, b: int|
        0 <= a < b < jobs.len() ==> (#[trigger] jobs[a]).id != (#[trigger] jobs[b]).id
}

/// No job is taken up twice: where the jobs have identifiers of their own,
/// so have the resumptions.
pub proof fn lemma_no_job_resumes_twice(jobs: Seq<JobSummary>, n: int, a: int, b: int)
    requires
        distinct_ids(jobs),
        0 <= n <= jobs.len(),
        0 <= a < b < resumptions(jobs, n).len(),
    ensures
        resumptions(jobs, n)[a].id != resumptions(jobs, n)[b].id,
    decreases n,
{
    let earlier = resumptions(jobs, n - 1);
    if b < earlier.len() {
        lemma_no_job_resumes_twice(jobs, n - 1, a, b);
    } else {
        lemma_only_unfinished_jobs_resume(jobs, n - 1, a);
        let i = choose|i: int|
            0 <= i < n - 1 && i < jobs.len() && #[trigger] jobs[i] == (JobSummary {
                id: earlier[a].id,
                state: ExportState::InProgress,
                step: earlier[a].step,
            });
        assert(jobs[i].id != jobs[n - 1].id);
    }
}

/// A job that was left in progress is taken up exactly once, under the step
/// at which it was left: where the jobs have identifiers of their own, one
/// resumption and no other carries the identifier of the job, and it
/// carries the step of the job.
pub proof fn lemma_unfinished_job_resumes_once(jobs: Seq<JobSummary>, i: int) -> (k: int)
    requires
        distinct_ids(jobs),
        0 <= i < jobs.len(),
        jobs[i].state == ExportState::InProgress,
    ensures
        0 <= k < resumptions(jobs, jobs.len() as int).len(),
        resumptions(jobs, jobs.len() as int)[k] == (ResumptionView {
            id: jobs[i].id,
            step: jobs[i].step,
            message: resume_message(),
        }),
        forall|other: int|
            0 <= other < resumptions(jobs, jobs.len() as int).len() && other != k ==> (
            #[trigger] resumptions(jobs, jobs.len() as int)[other]).id != jobs[i].id,
{
    let n = jobs.len() as int;
    let list = resumptions(jobs, n);
    lemma_every_unfinished_job_resumes(jobs, n, i);
    let k = choose|k: int| 0 <= k < list.len() && (#[trigger] list[k]).id == jobs[i].id;
    lemma_only_unfinished_jobs_resume(jobs, n, k);
    let j = choose|j: int|
        0 <= j < n && j < jobs.len() && #[trigger] jobs[j] == (JobSummary {
            id: list[k].id,
            state: ExportState::InProgress,
            step: list[k].step,
        });
    assert(jobs[j].id == jobs[i].id);
    assert(j == i) by {
        if j < i {
            assert(jobs[j].id != jobs[i].id);
        } else if i < j {
            assert(jobs[i].id != jobs[j].id);
        }
    }
    assert forall|other: int| 0 <= other < list.len() && other != k implies (#[trigger] list[other]).id
        != jobs[i].id by {
        if other < k {
            lemma_no_job_resumes_twice(jobs, n, other, k);
        } else {
            lemma_no_job_resumes_twice(jobs, n, k, other);
        }
    }
    k
}

/// Picks the jobs to take up when the process starts: those that a run
/// left in progress, in the order given.
pub fn resume_interrupted(jobs: &Vec<JobSummary>) -> (taken_up: Vec<Resumption>)
    ensures
        taken_up@.len() == resumptions(jobs@, jobs@.len() as int).len(),
        forall|k: int|
            0 <= k < taken_up@.len() ==> (#[trigger] taken_up@[k])@ == resumptions(
                jobs@,
                jobs@.len() as int,
            )[k],
{
    let mut taken_up: Vec<Resumption> = Vec::new();
    let mut i: usize = 0;
    while i < jobs.len()
        invariant
            i <= jobs@.len(),
            taken_up@.len() == resumptions(jobs@, i as int).len(),
            forall|k: int|
                0 <= k < taken_up@.len() ==> (#[trigger] taken_up@[k])@ == resumptions(
                    jobs@,
                    i as int,
                )[k],
        decreases jobs@.len() - i,
    {
        let job = jobs[i];
        if job.state.is_resumable() {
            taken_up.push(
                Resumption { id: job.id, step: job.step, message: "Resuming export".to_string() },
            );
        }
        i += 1;
    }
    taken_up
}

} // verus!
