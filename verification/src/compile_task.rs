//! Compile tasks: the earlier form of a run of an export, with its own names
//! for the steps and states.

use vstd::prelude::*;
use crate::step::{ExportState, ExportStep};
use crate::text::str_eq;

verus! {

/// The step of a compile task.
#[derive(Debug, Clone, Copy, PartialEq, Eq, Structural)]
pub enum CompileTaskStep {
    Initialize,
    DownloadingFromSource,
    FetchingFromSuwayomi,
    AssemblingFile,
    Complete,
}

impl CompileTaskStep {
    /// The step of an export that this step is.
    pub open spec fn export_step(self) -> ExportStep {
        match self {
            CompileTaskStep::Initialize => ExportStep::Begin,
            CompileTaskStep::DownloadingFromSource => ExportStep::DownloadingFromSource,
            CompileTaskStep::FetchingFromSuwayomi => ExportStep::FetchingFromSuwayomi,
            CompileTaskStep::AssemblingFile => ExportStep::AssemblingFile,
            CompileTaskStep::Complete => ExportStep::Complete,
        }
    }

    /// The text shown to a reader for this step.
    pub open spec fn label_text(self) -> Seq<char> {
        match self {
            CompileTaskStep::Initialize => "Initialize"@,
            CompileTaskStep::DownloadingFromSource => "Downloading from source"@,
            CompileTaskStep::FetchingFromSuwayomi => "Fetching from Suwayomi"@,
            CompileTaskStep::AssemblingFile => "Assembling file"@,
            CompileTaskStep::Complete => "Complete"@,
        }
    }

    /// The name under which the store keeps this step.
    pub open spec fn stored_text(self) -> Seq<char> {
        match self {
            CompileTaskStep::Initialize => "initialize"@,
            CompileTaskStep::DownloadingFromSource => "downloading_from_source"@,
            CompileTaskStep::FetchingFromSuwayomi => "fetching_from_suwayomi"@,
            CompileTaskStep::AssemblingFile => "assembling_file"@,
            CompileTaskStep::Complete => "complete"@,
        }
    }

    /// The step the store keeps under `name`, if any.
    pub open spec fn named(name: Seq<char>) -> Option<CompileTaskStep> {
        if name == "initialize"@ {
            Some(CompileTaskStep::Initialize)
        } else if name == "downloading_from_source"@ {
            Some(CompileTaskStep::DownloadingFromSource)
        } else if name == "fetching_from_suwayomi"@ {
            Some(CompileTaskStep::FetchingFromSuwayomi)
        } else if name == "assembling_file"@ {
            Some(CompileTaskStep::AssemblingFile)
        } else if name == "complete"@ {
            Some(CompileTaskStep::Complete)
        } else {
            None
        }
    }

    /// The step of an export that this step is.
    pub fn to_export_step(&self) -> (step: ExportStep)
        ensures
            step == self.export_step(),
    {
        match self {
            CompileTaskStep::Initialize => ExportStep::Begin,
            CompileTaskStep::DownloadingFromSource => ExportStep::DownloadingFromSource,
            CompileTaskStep::FetchingFromSuwayomi => ExportStep::FetchingFromSuwayomi,
            CompileTaskStep::AssemblingFile => ExportStep::AssemblingFile,
            CompileTaskStep::Complete => ExportStep::Complete,
        }
    }

    /// The step of a compile task that a step of an export is.
    pub fn from_export_step(step: ExportStep) -> (task_step: CompileTaskStep)
        ensures
            task_step.export_step() == step,
    {
        match step {
            ExportStep::Begin => CompileTaskStep::Initialize,
            ExportStep::DownloadingFromSource => CompileTaskStep::DownloadingFromSource,
            ExportStep::FetchingFromSuwayomi => CompileTaskStep::FetchingFromSuwayomi,
            ExportStep::AssemblingFile => CompileTaskStep::AssemblingFile,
            ExportStep::Complete => CompileTaskStep::Complete,
        }
    }

    /// The text shown to a reader for this step.
    pub fn label(&self) -> (text: String)
        ensures
            text@ == self.label_text(),
    {
        match self {
            CompileTaskStep::Initialize => "Initialize".to_string(),
            CompileTaskStep::DownloadingFromSource => "Downloading from source".to_string(),
            CompileTaskStep::FetchingFromSuwayomi => "Fetching from Suwayomi".to_string(),
            CompileTaskStep::AssemblingFile => "Assembling file".to_string(),
            CompileTaskStep::Complete => "Complete".to_string(),
        }
    }

    /// The name under which the store keeps this step.
    pub fn stored_name(&self) -> (name: &'static str)
        ensures
            name@ == self.stored_text(),
    {
        match self {
            CompileTaskStep::Initialize => "initialize",
            CompileTaskStep::DownloadingFromSource => "downloading_from_source",
            CompileTaskStep::FetchingFromSuwayomi => "fetching_from_suwayomi",
            CompileTaskStep::AssemblingFile => "assembling_file",
            CompileTaskStep::Complete => "complete",
        }
    }

    /// Reads a step back from the name the store keeps.
    pub fn from_stored_name(name: &str) -> (step: Option<CompileTaskStep>)
        ensures
            step == CompileTaskStep::named(name@),
    {
        if str_eq(name, "initialize") {
            Some(CompileTaskStep::Initialize)
        } else if str_eq(name, "downloading_from_source") {
            Some(CompileTaskStep::DownloadingFromSource)
        } else if str_eq(name, "fetching_from_suwayomi") {
            Some(CompileTaskStep::FetchingFromSuwayomi)
        } else if str_eq(name, "assembling_file") {
            Some(CompileTaskStep::AssemblingFile)
        } else if str_eq(name, "complete") {
            Some(CompileTaskStep::Complete)
        } else {
            None
        }
    }

    /// Reading back the stored name of a step gives that step.
    pub proof fn lemma_stored_name_round_trip(self)
        ensures
            CompileTaskStep::named(self.stored_text()) == Some(self),
    {
        reveal_strlit("initialize");
        reveal_strlit("downloading_from_source");
        reveal_strlit("fetching_from_suwayomi");
        reveal_strlit("assembling_file");
        reveal_strlit("complete");
        let i = "initialize"@;
        let d = "downloading_from_source"@;
        let f = "fetching_from_suwayomi"@;
        let a = "assembling_file"@;
        let c = "complete"@;
        assert(i.len() == 10 && d.len() == 23 && f.len() == 22 && a.len() == 15 && c.len() == 8);
    }
}

/// The state of a compile task. A task is pending from its creation until
/// it is first run.
#[derive(Debug, Clone, Copy, PartialEq, Eq, Structural)]
pub enum TaskState {
    Pending,
    InProgress,
    Completed,
    Failed,
}

impl TaskState {
    /// The state of an export that this state is.
    pub open spec fn export_state(self) -> ExportState {
        match self {
            TaskState::Pending => ExportState::Draft,
            TaskState::InProgress => ExportState::InProgress,
            TaskState::Completed => ExportState::Completed,
            TaskState::Failed => ExportState::Failed,
        }
    }

    /// Whether a task in this state is taken up when the process starts:
    /// it was left unfinished, or never run.
    pub open spec fn resumable(self) -> bool {
        self == TaskState::InProgress || self == TaskState::Pending
    }

    /// The name under which the store keeps this state.
    pub open spec fn stored_text(self) -> Seq<char> {
        match self {
            TaskState::Pending => "pending"@,
            TaskState::InProgress => "in_progress"@,
            TaskState::Completed => "completed"@,
            TaskState::Failed => "failed"@,
        }
    }

    /// The state the store keeps under `name`, if any.
    pub open spec fn named(name: Seq<char>) -> Option<TaskState> {
        if name == "pending"@ {
            Some(TaskState::Pending)
        } else if name == "in_progress"@ {
            Some(TaskState::InProgress)
        } else if name == "completed"@ {
            Some(TaskState::Completed)
        } else if name == "failed"@ {
            Some(TaskState::Failed)
        } else {
            None
        }
    }

    /// The name under which the store keeps this state.
    pub fn stored_name(&self) -> (name: &'static str)
        ensures
            name@ == self.stored_text(),
    {
        match self {
            TaskState::Pending => "pending",
            TaskState::InProgress => "in_progress",
            TaskState::Completed => "completed",
            TaskState::Failed => "failed",
        }
    }

    /// Reads a state back from the name the store keeps.
    pub fn from_stored_name(name: &str) -> (state: Option<TaskState>)
        ensures
            state == TaskState::named(name@),
    {
        if str_eq(name, "pending") {
            Some(TaskState::Pending)
        } else if str_eq(name, "in_progress") {
            Some(TaskState::InProgress)
        } else if str_eq(name, "completed") {
            Some(TaskState::Completed)
        } else if str_eq(name, "failed") {
            Some(TaskState::Failed)
        } else {
            None
        }
    }

    /// Reading back the stored name of a state gives that state.
    pub proof fn lemma_stored_name_round_trip(self)
        ensures
            TaskState::named(self.stored_text()) == Some(self),
    {
        reveal_strlit("pending");
        reveal_strlit("in_progress");
        reveal_strlit("completed");
        reveal_strlit("failed");
        let p = "pending"@;
        let i = "in_progress"@;
        let c = "completed"@;
        let f = "failed"@;
        assert(p.len() == 7 && i.len() == 11 && c.len() == 9 && f.len() == 6);
    }

    /// The state of a compile task that a state of an export is.
    pub fn from_export_state(state: ExportState) -> (task_state: TaskState)
        ensures
            task_state.export_state() == state,
    {
        match state {
            ExportState::Draft => TaskState::Pending,
            ExportState::InProgress => TaskState::InProgress,
            ExportState::Completed => TaskState::Completed,
            ExportState::Failed => TaskState::Failed,
        }
    }

    /// The state of an export that this state is.
    pub fn to_export_state(&self) -> (state: ExportState)
        ensures
            state == self.export_state(),
    {
        match self {
            TaskState::Pending => ExportState::Draft,
            TaskState::InProgress => ExportState::InProgress,
            TaskState::Completed => ExportState::Completed,
            TaskState::Failed => ExportState::Failed,
        }
    }

    /// Whether a task in this state is taken up when the process starts.
    pub fn is_resumable(&self) -> (yes: bool)
        ensures
            yes == self.resumable(),
    {
        match self {
            TaskState::Pending => true,
            TaskState::InProgress => true,
            _ => false,
        }
    }
}

/// A compile task as the store keeps it. `date_created` counts seconds
/// since the Unix epoch.
#[derive(Debug, Clone, Copy)]
pub struct CompileTask {
    pub id: i64,
    pub state: TaskState,
    pub progress: i64,
    pub current_step: CompileTaskStep,
    pub date_created: i64,
    pub book_id: i64,
}

} // verus!
