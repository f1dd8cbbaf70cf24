use chapter_export::compile_task::{CompileTaskStep, TaskState};
use chapter_export::error::{ErrorKind, StepError};
use chapter_export::format::ExportFormat;
use chapter_export::step::{ExportState, ExportStep};

const STEPS: [ExportStep; 5] = [
    ExportStep::Begin,
    ExportStep::DownloadingFromSource,
    ExportStep::FetchingFromSuwayomi,
    ExportStep::AssemblingFile,
    ExportStep::Complete,
];

#[test]
fn steps_stand_in_their_order() {
    for (i, step) in STEPS.iter().enumerate() {
        assert_eq!(step.position(), i);
    }
}

#[test]
fn every_step_is_followed_by_the_next_and_the_last_by_itself() {
    assert_eq!(ExportStep::Begin.next(), ExportStep::DownloadingFromSource);
    assert_eq!(ExportStep::DownloadingFromSource.next(), ExportStep::FetchingFromSuwayomi);
    assert_eq!(ExportStep::FetchingFromSuwayomi.next(), ExportStep::AssemblingFile);
    assert_eq!(ExportStep::AssemblingFile.next(), ExportStep::Complete);
    assert_eq!(ExportStep::Complete.next(), ExportStep::Complete);
}

#[test]
fn remaining_steps_start_at_the_step_reached() {
    assert_eq!(ExportStep::Begin.remaining(), STEPS.to_vec());
    assert_eq!(ExportStep::FetchingFromSuwayomi.remaining(), STEPS[2..].to_vec());
    assert_eq!(ExportStep::Complete.remaining(), vec![ExportStep::Complete]);
}

#[test]
fn steps_are_shown_and_stored_under_their_names() {
    let labels: Vec<String> = STEPS.iter().map(|s| s.label()).collect();
    assert_eq!(
        labels,
        vec![
            "Draft",
            "Downloading from source",
            "Fetching from Suwayomi",
            "Assembling file",
            "Complete"
        ]
    );
    let stored: Vec<&str> = STEPS.iter().map(|s| s.stored_name()).collect();
    assert_eq!(
        stored,
        vec![
            "begin",
            "downloading_from_source",
            "fetching_from_suwayomi",
            "assembling_file",
            "complete"
        ]
    );
}

#[test]
fn stored_names_of_steps_are_read_back() {
    for step in STEPS {
        assert_eq!(ExportStep::from_stored_name(step.stored_name()), Some(step));
    }
    assert_eq!(ExportStep::from_stored_name("Begin"), None);
    assert_eq!(ExportStep::from_stored_name(""), None);
    assert_eq!(ExportStep::from_stored_name("initialize"), None);
}

#[test]
fn states_are_shown_and_stored_under_their_names() {
    let states =
        [ExportState::Draft, ExportState::InProgress, ExportState::Completed, ExportState::Failed];
    let labels: Vec<String> = states.iter().map(|s| s.label()).collect();
    assert_eq!(labels, vec!["Draft", "In progress", "Completed", "Failed"]);
    let stored: Vec<&str> = states.iter().map(|s| s.stored_name()).collect();
    assert_eq!(stored, vec!["draft", "in_progress", "completed", "failed"]);
    for state in states {
        assert_eq!(ExportState::from_stored_name(state.stored_name()), Some(state));
    }
    assert_eq!(ExportState::from_stored_name("pending"), None);
}

#[test]
fn only_jobs_in_progress_are_resumable() {
    assert!(ExportState::InProgress.is_resumable());
    assert!(!ExportState::Draft.is_resumable());
    assert!(!ExportState::Completed.is_resumable());
    assert!(!ExportState::Failed.is_resumable());
}

#[test]
fn formats_have_their_extensions_and_names() {
    assert_eq!(ExportFormat::Epub.to_extension(), "epub");
    assert_eq!(ExportFormat::Cbz.to_extension(), "cbz");
    assert_eq!(ExportFormat::Epub.label(), "EPUB");
    assert_eq!(ExportFormat::Cbz.label(), "CBZ");
    assert_eq!(ExportFormat::Epub.stored_name(), "epub");
    assert_eq!(ExportFormat::Cbz.stored_name(), "cbz");
    assert_eq!(ExportFormat::from_stored_name("epub"), Some(ExportFormat::Epub));
    assert_eq!(ExportFormat::from_stored_name("cbz"), Some(ExportFormat::Cbz));
    assert_eq!(ExportFormat::from_stored_name("pdf"), None);
}

#[test]
fn task_steps_are_the_steps_of_an_export() {
    let steps = [
        CompileTaskStep::Initialize,
        CompileTaskStep::DownloadingFromSource,
        CompileTaskStep::FetchingFromSuwayomi,
        CompileTaskStep::AssemblingFile,
        CompileTaskStep::Complete,
    ];
    let mapped: Vec<ExportStep> = steps.iter().map(|s| s.to_export_step()).collect();
    assert_eq!(mapped, STEPS.to_vec());
    let labels: Vec<String> = steps.iter().map(|s| s.label()).collect();
    assert_eq!(
        labels,
        vec![
            "Initialize",
            "Downloading from source",
            "Fetching from Suwayomi",
            "Assembling file",
            "Complete"
        ]
    );
    for step in steps {
        assert_eq!(CompileTaskStep::from_stored_name(step.stored_name()), Some(step));
    }
    assert_eq!(CompileTaskStep::Initialize.stored_name(), "initialize");
    assert_eq!(CompileTaskStep::from_stored_name("begin"), None);
}

#[test]
fn pending_and_running_tasks_are_resumable() {
    assert!(TaskState::Pending.is_resumable());
    assert!(TaskState::InProgress.is_resumable());
    assert!(!TaskState::Completed.is_resumable());
    assert!(!TaskState::Failed.is_resumable());
    assert_eq!(TaskState::Pending.to_export_state(), ExportState::Draft);
    assert_eq!(TaskState::InProgress.to_export_state(), ExportState::InProgress);
    assert_eq!(TaskState::Completed.to_export_state(), ExportState::Completed);
    assert_eq!(TaskState::Failed.to_export_state(), ExportState::Failed);
}

#[test]
fn failures_are_described_by_class_and_detail() {
    let cases = [
        (ErrorKind::RemoteUnavailable, "remote unavailable: timed out"),
        (ErrorKind::MissingUpstreamData, "missing upstream data: timed out"),
        (ErrorKind::RecordNotFound, "record not found: timed out"),
        (ErrorKind::AssemblyIoFailure, "assembly I/O failure: timed out"),
        (ErrorKind::StoreFailure, "store failure: timed out"),
    ];
    for (kind, text) in cases {
        let failure = StepError::new(kind, "timed out");
        assert_eq!(failure.kind, kind);
        assert_eq!(failure.detail, "timed out");
        assert_eq!(failure.describe(), text);
    }
}

#[test]
fn task_steps_and_states_are_found_for_those_of_an_export() {
    for step in STEPS {
        assert_eq!(CompileTaskStep::from_export_step(step).to_export_step(), step);
    }
    assert_eq!(CompileTaskStep::from_export_step(ExportStep::Begin), CompileTaskStep::Initialize);
    let states = [TaskState::Pending, TaskState::InProgress, TaskState::Completed, TaskState::Failed];
    let stored: Vec<&str> = states.iter().map(|s| s.stored_name()).collect();
    assert_eq!(stored, vec!["pending", "in_progress", "completed", "failed"]);
    for state in states {
        assert_eq!(TaskState::from_stored_name(state.stored_name()), Some(state));
        assert_eq!(TaskState::from_export_state(state.to_export_state()), state);
    }
    assert_eq!(TaskState::from_stored_name("draft"), None);
    assert_eq!(TaskState::from_export_state(ExportState::Draft), TaskState::Pending);
}
