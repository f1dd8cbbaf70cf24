use std::collections::HashSet;

use chapter_export::book::{Book, BookChapterRow, BookStatus, BookWithChapterSet, SqlBook};
use chapter_export::error::{ErrorKind, StepError};
use chapter_export::event_log::{export_log_line, task_log_line, ExportLog};
use chapter_export::compile_task::CompileTaskStep;
use chapter_export::format::ExportFormat;
use chapter_export::forms::{
    author_or_unknown, configure_address, configure_refusal, download_refusal, AfterConfigure,
    ChapterRow, ChapterSelect, ChapterSelectParams, ConfigureExportInput,
};
use chapter_export::job::{
    after_insert, chapter_set, retitled, sanitize, CreateNext, Export, InsertOutcome,
};
use chapter_export::resume::{resume_interrupted, JobSummary, Resumption};
use chapter_export::step::{ExportState, ExportStep};

const STATUSES: [BookStatus; 6] = [
    BookStatus::Draft,
    BookStatus::DownloadingFromSource,
    BookStatus::DownloadingFromSuwayomi,
    BookStatus::Assembling,
    BookStatus::Done,
    BookStatus::Failed,
];

#[test]
fn book_status_is_kept_as_a_number_from_one_to_six() {
    let codes: Vec<u8> = STATUSES.iter().map(|s| s.as_u8()).collect();
    assert_eq!(codes, vec![1, 2, 3, 4, 5, 6]);
    for status in STATUSES {
        assert_eq!(BookStatus::from_u8(status.as_u8()), status);
        assert_eq!(BookStatus::from_stored(status.as_u8() as i64), Some(status));
    }
    assert_eq!(BookStatus::from_stored(0), None);
    assert_eq!(BookStatus::from_stored(7), None);
    assert_eq!(BookStatus::from_stored(257), None);
    assert_eq!(BookStatus::from_stored(-1), None);
}

#[test]
fn book_status_is_shown_by_its_name() {
    let labels: Vec<String> = STATUSES.iter().map(|s| s.label()).collect();
    assert_eq!(
        labels,
        vec![
            "Draft",
            "Downloading from source",
            "Downloading from Suwayomi",
            "Assembling",
            "Done",
            "Failed"
        ]
    );
}

#[test]
fn book_is_read_from_its_row() {
    let row = SqlBook { id: 4, manga_id: 8, title: "T".to_string(), author: "A".to_string(), status: 5 };
    assert_eq!(
        Book::from_row(row),
        Book { id: 4, manga_id: 8, title: "T".to_string(), author: "A".to_string(), status: BookStatus::Done }
    );
}

fn row(chapter: i64, title: &str) -> BookChapterRow {
    BookChapterRow {
        manga_id: 8,
        title: title.to_string(),
        author: "A".to_string(),
        status: 2,
        chapter_id: Some(chapter),
    }
}

#[test]
fn book_is_gathered_with_the_set_of_its_chapters() {
    assert_eq!(BookWithChapterSet::from_rows(4, &vec![]), None);
    let gathered =
        BookWithChapterSet::from_rows(4, &vec![row(11, "T"), row(12, "other"), row(11, "T")]).unwrap();
    assert_eq!(
        gathered.book,
        Book {
            id: 4,
            manga_id: 8,
            title: "T".to_string(),
            author: "A".to_string(),
            status: BookStatus::DownloadingFromSource
        }
    );
    assert_eq!(gathered.chapters, HashSet::from([11, 12]));
}

#[test]
fn log_lines_tell_time_subject_step_and_message() {
    assert_eq!(
        export_log_line("2024-05-01T10:00:00Z", 12, ExportStep::FetchingFromSuwayomi, "Starting step"),
        "[2024-05-01T10:00:00Z] export 12, step Fetching from Suwayomi, message Starting step"
    );
    assert_eq!(
        task_log_line("now", -1, CompileTaskStep::Initialize, ""),
        "[now] task -1, step Initialize, message "
    );
    let entry = ExportLog {
        id: 1,
        export_id: 2,
        step: ExportStep::Begin,
        message: "m".to_string(),
        timestamp: 0,
    };
    assert_eq!(entry.line("t"), "[t] export 2, step Draft, message m");
}

#[test]
fn archive_file_is_named_by_title_and_format() {
    let mut job = Export::draft(1, "My Book", "Me", 17);
    assert_eq!(
        job,
        Export {
            id: 1,
            title: "My Book".to_string(),
            author: "Me".to_string(),
            format: ExportFormat::Cbz,
            state: ExportState::Draft,
            step: ExportStep::Begin,
            progress: 0,
            created_at: 17,
        }
    );
    assert_eq!(job.get_filename(), "My Book.cbz");
    job.format = ExportFormat::Epub;
    assert_eq!(job.get_filename(), "My Book.epub");
    job.title = String::new();
    assert_eq!(job.get_filename(), "_.epub");
}

#[test]
fn archive_file_name_holds_nothing_that_leads_out_of_its_directory() {
    let name_of = |title: &str| {
        let mut job = Export::draft(1, title, "Me", 0);
        job.format = ExportFormat::Epub;
        job.get_filename()
    };
    assert_eq!(name_of("a/b"), "a_b.epub");
    assert_eq!(name_of("a\\b"), "a_b.epub");
    assert_eq!(name_of("../../etc/passwd"), "___.__etc_passwd.epub");
    assert_eq!(name_of(".."), "__.epub");
    assert_eq!(name_of("."), "_.epub");
    assert_eq!(name_of("..."), "___.epub");
    assert_eq!(name_of(".hidden"), "_hidden.epub");
    assert_eq!(name_of("Vol. 1"), "Vol. 1.epub");
    assert_eq!(name_of("Vol. 1."), "Vol. 1_.epub");
    assert_eq!(name_of("a..b"), "a._b.epub");
    assert_eq!(name_of("nul\0l"), "nul_l.epub");
    assert_eq!(name_of("Títle é/ü"), "Títle é_ü.epub");
    for title in ["a/b", "../x", "..", "", "/", "\\", "a/../b", "x.", "...."] {
        let name = name_of(title);
        assert!(!name.contains('/') && !name.contains('\\') && !name.contains(".."), "{}", name);
        assert!(!name.starts_with('.'));
        let joined = std::path::Path::new("data/exports").join(&name);
        assert_eq!(joined.parent(), Some(std::path::Path::new("data/exports")));
        assert_eq!(joined.file_name().and_then(|n| n.to_str()), Some(name.as_str()));
    }
}

#[test]
fn archive_file_lies_directly_in_its_directory() {
    let mut job = Export::draft(1, "a/../b", "Me", 0);
    assert_eq!(job.get_path("data/exports"), "data/exports/a_.__b.cbz");
    assert_eq!(job.get_path("data/exports/"), "data/exports/a_.__b.cbz");
    assert_eq!(job.get_path(""), "a_.__b.cbz");
    assert_eq!(job.get_path("/"), "/a_.__b.cbz");
    job.format = ExportFormat::Epub;
    job.title = "My Book".to_string();
    assert_eq!(job.get_path("/var/lib/exports"), "/var/lib/exports/My Book.epub");
    for root in ["data/exports", "data/exports/", "", "/", ".", "a//", "/x/y"] {
        for title in ["My Book", "a/b", "..", "", "x."] {
            job.title = title.to_string();
            let joined = std::path::Path::new(root).join(job.get_filename());
            assert_eq!(Some(job.get_path(root).as_str()), joined.to_str(), "{:?} {:?}", root, title);
            assert_eq!(joined.parent(), Some(std::path::Path::new(root)));
        }
    }
}

#[test]
fn title_is_sanitized_character_by_character() {
    assert_eq!(sanitize(""), "_");
    assert_eq!(sanitize("plain title"), "plain title");
    assert_eq!(sanitize("a/b\\c"), "a_b_c");
    assert_eq!(sanitize(".a.b."), "_a.b_");
    assert_eq!(sanitize("a...b"), "a.__b");
}

#[test]
fn taken_title_is_tried_again_with_a_suffix() {
    assert_eq!(retitled("My Book", "2024-05-01 10:00:00"), "My Book (2024-05-01 10:00:00)");
    assert_eq!(after_insert(InsertOutcome::Inserted(5), "T", "s"), CreateNext::Created(5));
    assert_eq!(
        after_insert(InsertOutcome::TitleTaken, "T", "s"),
        CreateNext::RetryAs("T (s)".to_string())
    );
    let failure = StepError { kind: ErrorKind::StoreFailure, detail: "disk full".to_string() };
    assert_eq!(
        after_insert(
            InsertOutcome::Failed(StepError {
                kind: ErrorKind::StoreFailure,
                detail: "disk full".to_string()
            }),
            "T",
            "s"
        ),
        CreateNext::GiveUp(failure)
    );
}

#[test]
fn chapters_of_a_job_are_those_that_its_rows_name() {
    assert_eq!(chapter_set(&vec![]), HashSet::new());
    assert_eq!(chapter_set(&vec![None, None]), HashSet::new());
    assert_eq!(
        chapter_set(&vec![Some(101), None, Some(102), Some(101), Some(-5)]),
        HashSet::from([101, 102, -5])
    );
}

#[test]
fn jobs_left_in_progress_are_taken_up() {
    let jobs = vec![
        JobSummary { id: 1, state: ExportState::Completed, step: ExportStep::Complete },
        JobSummary { id: 2, state: ExportState::InProgress, step: ExportStep::FetchingFromSuwayomi },
        JobSummary { id: 3, state: ExportState::Draft, step: ExportStep::Begin },
        JobSummary { id: 4, state: ExportState::Failed, step: ExportStep::AssemblingFile },
        JobSummary { id: 5, state: ExportState::InProgress, step: ExportStep::Begin },
    ];
    assert_eq!(
        resume_interrupted(&jobs),
        vec![
            Resumption {
                id: 2,
                step: ExportStep::FetchingFromSuwayomi,
                message: "Resuming export".to_string()
            },
            Resumption { id: 5, step: ExportStep::Begin, message: "Resuming export".to_string() },
        ]
    );
    assert_eq!(resume_interrupted(&vec![]), vec![]);
}

fn chapter(id: i64, is_read: bool) -> ChapterRow {
    ChapterRow { id, name: format!("Chapter {}", id), is_read }
}

#[test]
fn read_chapters_are_left_out_only_when_asked() {
    let all = || vec![chapter(1, true), chapter(2, false), chapter(3, true), chapter(4, false)];
    let shown = ChapterSelect::new(all(), &ChapterSelectParams { manga_id: 7, hide_read: Some(true) });
    assert_eq!(
        shown,
        ChapterSelect { chapters: vec![chapter(2, false), chapter(4, false)], manga_id: 7, hide_read: true }
    );
    let shown = ChapterSelect::new(all(), &ChapterSelectParams { manga_id: 7, hide_read: Some(false) });
    assert_eq!(shown, ChapterSelect { chapters: all(), manga_id: 7, hide_read: false });
    let shown = ChapterSelect::new(all(), &ChapterSelectParams { manga_id: 7, hide_read: None });
    assert_eq!(shown, ChapterSelect { chapters: all(), manga_id: 7, hide_read: false });
}

#[test]
fn unnamed_author_is_unknown() {
    assert_eq!(author_or_unknown(Some("Somebody".to_string())), "Somebody");
    assert_eq!(author_or_unknown(Some(String::new())), "");
    assert_eq!(author_or_unknown(None), "Unknown");
}

#[test]
fn saving_goes_back_to_the_list_and_any_other_action_begins_the_export() {
    let input = |action: &str| ConfigureExportInput {
        title: "T".to_string(),
        author: "A".to_string(),
        format: ExportFormat::Epub,
        action: action.to_string(),
    };
    assert_eq!(
        input("save").after_saving(12),
        AfterConfigure { begin: false, address: "/exports".to_string() }
    );
    assert_eq!(
        input("export").after_saving(12),
        AfterConfigure { begin: true, address: "/export/12".to_string() }
    );
    assert_eq!(
        input("").after_saving(3),
        AfterConfigure { begin: true, address: "/export/3".to_string() }
    );
    assert_eq!(configure_address(12), "/export/12/configure");
}

#[test]
fn only_a_draft_is_configured_and_only_a_completed_export_is_handed_out() {
    let mut job = Export::draft(1, "T", "A", 0);
    assert_eq!(configure_refusal(&job), None);
    job.state = ExportState::InProgress;
    assert_eq!(configure_refusal(&job), Some("Export is not in draft state".to_string()));
    assert_eq!(download_refusal(&None), Some((404, "Export not found".to_string())));
    assert_eq!(download_refusal(&Some(job)), Some((400, "Export not completed".to_string())));
    let mut done = Export::draft(1, "T", "A", 0);
    done.state = ExportState::Completed;
    assert_eq!(download_refusal(&Some(done)), None);
}
