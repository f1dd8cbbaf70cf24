//! The fixed sequence of steps a job passes through, and its lifecycle states.

use vstd::prelude::*;
use crate::text::str_eq;

verus! {

/// One stage of the processing sequence. The order of the variants is the
/// order in which a job passes through them.
#[derive(Debug, Clone, Copy, PartialEq, Eq, Structural)]
pub enum ExportStep {
    Begin,
    DownloadingFromSource,
    FetchingFromSuwayomi,
    AssemblingFile,
    Complete,
}

impl ExportStep {
    /// The position of this step in the sequence, from zero.
    pub open spec fn index(self) -> nat {
        match self {
            ExportStep::Begin => 0,
            ExportStep::DownloadingFromSource => 1,
            ExportStep::FetchingFromSuwayomi => 2,
            ExportStep::AssemblingFile => 3,
            ExportStep::Complete => 4,
        }
    }

    /// The whole sequence, in order.
    pub open spec fn sequence() -> Seq<ExportStep> {
        seq![
            ExportStep::Begin,
            ExportStep::DownloadingFromSource,
            ExportStep::FetchingFromSuwayomi,
            ExportStep::AssemblingFile,
            ExportStep::Complete,
        ]
    }

    /// The step that follows this one; the last step follows itself.
    pub open spec fn successor(self) -> ExportStep {
        match self {
            ExportStep::Begin => ExportStep::DownloadingFromSource,
            ExportStep::DownloadingFromSource => ExportStep::FetchingFromSuwayomi,
            ExportStep::FetchingFromSuwayomi => ExportStep::AssemblingFile,
            ExportStep::AssemblingFile => ExportStep::Complete,
            ExportStep::Complete => ExportStep::Complete,
        }
    }

    /// The text shown to a reader for this step.
    pub open spec fn label_text(self) -> Seq<char> {
        match self {
            ExportStep::Begin => "Draft"@,
            ExportStep::DownloadingFromSource => "Downloading from source"@,
            ExportStep::FetchingFromSuwayomi => "Fetching from Suwayomi"@,
            ExportStep::AssemblingFile => "Assembling file"@,
            ExportStep::Complete => "Complete"@,
        }
    }

    /// The name under which the store keeps this step.
    pub open spec fn stored_text(self) -> Seq<char> {
        match self {
            ExportStep::Begin => "begin"@,
            ExportStep::DownloadingFromSource => "downloading_from_source"@,
            ExportStep::FetchingFromSuwayomi => "fetching_from_suwayomi"@,
            ExportStep::AssemblingFile => "assembling_file"@,
            ExportStep::Complete => "complete"@,
        }
    }

    /// The step the store keeps under `name`, if any.
    pub open spec fn named(name: Seq<char>) -> Option<ExportStep> {
        if name == "begin"@ {
            Some(ExportStep::Begin)
        } else if name == "downloading_from_source"@ {
            Some(ExportStep::DownloadingFromSource)
        } else if name == "fetching_from_suwayomi"@ {
            Some(ExportStep::FetchingFromSuwayomi)
        } else if name == "assembling_file"@ {
            Some(ExportStep::AssemblingFile)
        } else if name == "complete"@ {
            Some(ExportStep::Complete)
        } else {
            None
        }
    }

    /// The position of this step in the sequence, from zero.
    pub fn position(&self) -> (i: usize)
        ensures
            i == self.index(),
            i < 5,
            ExportStep::sequence()[i as int] == *self,
    {
        match self {
            ExportStep::Begin => 0,
            ExportStep::DownloadingFromSource => 1,
            ExportStep::FetchingFromSuwayomi => 2,
            ExportStep::AssemblingFile => 3,
            ExportStep::Complete => 4,
        }
    }

    /// The step that follows this one; the last step follows itself.
    pub fn next(&self) -> (following: ExportStep)
        ensures
            following == self.successor(),
    {
        match self {
            ExportStep::Begin => ExportStep::DownloadingFromSource,
            ExportStep::DownloadingFromSource => ExportStep::FetchingFromSuwayomi,
            ExportStep::FetchingFromSuwayomi => ExportStep::AssemblingFile,
            ExportStep::AssemblingFile => ExportStep::Complete,
            ExportStep::Complete => ExportStep::Complete,
        }
    }

    /// The steps that a job standing at this step still has to run: this step
    /// and all that follow it, in order.
    pub fn remaining(&self) -> (steps: Vec<ExportStep>)
        ensures
            steps@ == ExportStep::sequence().skip(self.index() as int),
    {
        let mut steps: Vec<ExportStep> = Vec::new();
        let mut current = *self;
        let ghost start = self.index() as int;
        loop
            invariant_except_break
                start <= current.index(),
                steps@ == ExportStep::sequence().subrange(start, current.index() as int),
            invariant
                start == self.index(),
            ensures
                steps@ == ExportStep::sequence().skip(start),
            decreases 5 - current.index(),
        {
            steps.push(current);
            let ghost before = current;
            proof {
                assert(ExportStep::sequence()[before.index() as int] == before);
            }
            if current == ExportStep::Complete {
                assert(steps@ =~= ExportStep::sequence().skip(start));
                break;
            }
            current = current.next();
            assert(steps@ =~= ExportStep::sequence().subrange(start, current.index() as int));
        }
        steps
    }

    /// The text shown to a reader for this step.
    pub fn label(&self) -> (text: String)
        ensures
            text@ == self.label_text(),
    {
        match self {
            ExportStep::Begin => "Draft".to_string(),
            ExportStep::DownloadingFromSource => "Downloading from source".to_string(),
            ExportStep::FetchingFromSuwayomi => "Fetching from Suwayomi".to_string(),
            ExportStep::AssemblingFile => "Assembling file".to_string(),
            ExportStep::Complete => "Complete".to_string(),
        }
    }

    /// The name under which the store keeps this step.
    pub fn stored_name(&self) -> (name: &'static str)
        ensures
            name@ == self.stored_text(),
    {
        match self {
            ExportStep::Begin => "begin",
            ExportStep::DownloadingFromSource => "downloading_from_source",
            ExportStep::FetchingFromSuwayomi => "fetching_from_suwayomi",
            ExportStep::AssemblingFile => "assembling_file",
            ExportStep::Complete => "complete",
        }
    }

    /// Reads a step back from the name the store keeps.
    pub fn from_stored_name(name: &str) -> (step: Option<ExportStep>)
        ensures
            step == ExportStep::named(name@),
    {
        if str_eq(name, "begin") {
            Some(ExportStep::Begin)
        } else if str_eq(name, "downloading_from_source") {
            Some(ExportStep::DownloadingFromSource)
        } else if str_eq(name, "fetching_from_suwayomi") {
            Some(ExportStep::FetchingFromSuwayomi)
        } else if str_eq(name, "assembling_file") {
            Some(ExportStep::AssemblingFile)
        } else if str_eq(name, "complete") {
            Some(ExportStep::Complete)
        } else {
            None
        }
    }

    /// The successor of a step never stands before it, and every step but the
    /// last has a successor one place further on.
    pub proof fn lemma_successor_advances(self)
        ensures
            self.index() <= self.successor().index(),
            self != ExportStep::Complete ==> self.successor().index() == self.index() + 1,
            self.index() < ExportStep::sequence().len(),
            ExportStep::sequence()[self.index() as int] == self,
    {
    }

    /// Reading back the stored name of a step gives that step.
    pub proof fn lemma_stored_name_round_trip(self)
        ensures
            ExportStep::named(self.stored_text()) == Some(self),
    {
        reveal_strlit("begin");
        reveal_strlit("downloading_from_source");
        reveal_strlit("fetching_from_suwayomi");
        reveal_strlit("assembling_file");
        reveal_strlit("complete");
        let b = "begin"@;
        let d = "downloading_from_source"@;
        let f = "fetching_from_suwayomi"@;
        let a = "assembling_file"@;
        let c = "complete"@;
        assert(b.len() == 5 && d.len() == 23 && f.len() == 22 && a.len() == 15 && c.len() == 8);
    }
}

/// Where a job stands in its life.
#[derive(Debug, Clone, Copy, PartialEq, Eq, Structural)]
pub enum ExportState {
    Draft,
    InProgress,
    Completed,
    Failed,
}

impl ExportState {
    /// The text shown to a reader for this state.
    pub open spec fn label_text(self) -> Seq<char> {
        match self {
            ExportState::Draft => "Draft"@,
            ExportState::InProgress => "In progress"@,
            ExportState::Completed => "Completed"@,
            ExportState::Failed => "Failed"@,
        }
    }

    /// The name under which the store keeps this state.
    pub open spec fn stored_text(self) -> Seq<char> {
        match self {
            ExportState::Draft => "draft"@,
            ExportState::InProgress => "in_progress"@,
            ExportState::Completed => "completed"@,
            ExportState::Failed => "failed"@,
        }
    }

    /// The state the store keeps under `name`, if any.
    pub open spec fn named(name: Seq<char>) -> Option<ExportState> {
        if name == "draft"@ {
            Some(ExportState::Draft)
        } else if name == "in_progress"@ {
            Some(ExportState::InProgress)
        } else if name == "completed"@ {
            Some(ExportState::Completed)
        } else if name == "failed"@ {
            Some(ExportState::Failed)
        } else {
            None
        }
    }

    /// Whether a job in this state was left unfinished by a run and is taken
    /// up again when the process starts.
    pub open spec fn resumable(self) -> bool {
        self == ExportState::InProgress
    }

    /// Whether a job in this state was left unfinished by a run.
    pub fn is_resumable(&self) -> (yes: bool)
        ensures
            yes == self.resumable(),
    {
        match self {
            ExportState::InProgress => true,
            _ => false,
        }
    }

    /// The text shown to a reader for this state.
    pub fn label(&self) -> (text: String)
        ensures
            text@ == self.label_text(),
    {
        match self {
            ExportState::Draft => "Draft".to_string(),
            ExportState::InProgress => "In progress".to_string(),
            ExportState::Completed => "Completed".to_string(),
            ExportState::Failed => "Failed".to_string(),
        }
    }

    /// The name under which the store keeps this state.
    pub fn stored_name(&self) -> (name: &'static str)
        ensures
            name@ == self.stored_text(),
    {
        match self {
            ExportState::Draft => "draft",
            ExportState::InProgress => "in_progress",
            ExportState::Completed => "completed",
            ExportState::Failed => "failed",
        }
    }

    /// Reads a state back from the name the store keeps.
    pub fn from_stored_name(name: &str) -> (state: Option<ExportState>)
        ensures
            state == ExportState::named(name@),
    {
        if str_eq(name, "draft") {
            Some(ExportState::Draft)
        } else if str_eq(name, "in_progress") {
            Some(ExportState::InProgress)
        } else if str_eq(name, "completed") {
            Some(ExportState::Completed)
        } else if str_eq(name, "failed") {
            Some(ExportState::Failed)
        } else {
            None
        }
    }

    /// Reading back the stored name of a state gives that state.
    pub proof fn lemma_stored_name_round_trip(self)
        ensures
            ExportState::named(self.stored_text()) == Some(self),
    {
        reveal_strlit("draft");
        reveal_strlit("in_progress");
        reveal_strlit("completed");
        reveal_strlit("failed");
        let d = "draft"@;
        let i = "in_progress"@;
        let c = "completed"@;
        let f = "failed"@;
        assert(d.len() == 5 && i.len() == 11 && c.len() == 9 && f.len() == 6);
    }
}

} // verus!
