//! Books: the earlier form of an export, kept with a numeric status.

use vstd::prelude::*;
use vstd::string::*;
use std::collections::HashSet;

verus! {

broadcast use vstd::std_specs::hash::group_hash_axioms;

/// Where a book stands. The store keeps it as a number from 1 to 6.
#[derive(Debug, Clone, Copy, PartialEq, Eq, Structural)]
pub enum BookStatus {
    Draft,
    DownloadingFromSource,
    DownloadingFromSuwayomi,
    Assembling,
    Done,
    Failed,
}

impl BookStatus {
    /// The number that stands for this status.
    pub open spec fn code(self) -> u8 {
        match self {
            BookStatus::Draft => 1,
            BookStatus::DownloadingFromSource => 2,
            BookStatus::DownloadingFromSuwayomi => 3,
            BookStatus::Assembling => 4,
            BookStatus::Done => 5,
            BookStatus::Failed => 6,
        }
    }

    /// The status that a number stands for; numbers other than 1 to 6 stand for none.
    pub open spec fn of_code(code: int) -> Option<BookStatus> {
        if code == 1 {
            Some(BookStatus::Draft)
        } else if code == 2 {
            Some(BookStatus::DownloadingFromSource)
        } else if code == 3 {
            Some(BookStatus::DownloadingFromSuwayomi)
        } else if code == 4 {
            Some(BookStatus::Assembling)
        } else if code == 5 {
            Some(BookStatus::Done)
        } else if code == 6 {
            Some(BookStatus::Failed)
        } else {
            None
        }
    }

    /// The text shown to a reader for this status.
    pub open spec fn label_text(self) -> Seq<char> {
        match self {
            BookStatus::Draft => "Draft"@,
            BookStatus::DownloadingFromSource => "Downloading from source"@,
            BookStatus::DownloadingFromSuwayomi => "Downloading from Suwayomi"@,
            BookStatus::Assembling => "Assembling"@,
            BookStatus::Done => "Done"@,
            BookStatus::Failed => "Failed"@,
        }
    }

    /// The number that stands for this status.
    pub fn as_u8(&self) -> (code: u8)
        ensures
            code == self.code(),
            1 <= code <= 6,
    {
        match *self {
            BookStatus::Draft => 1,
            BookStatus::DownloadingFromSource => 2,
            BookStatus::DownloadingFromSuwayomi => 3,
            BookStatus::Assembling => 4,
            BookStatus::Done => 5,
            BookStatus::Failed => 6,
        }
    }

    /// The status that a number from 1 to 6 stands for.
    pub fn from_u8(status: u8) -> (book_status: BookStatus)
        requires
            1 <= status <= 6,
        ensures
            BookStatus::of_code(status as int) == Some(book_status),
            book_status.code() == status,
    {
        if status == 1 {
            BookStatus::Draft
        } else if status == 2 {
            BookStatus::DownloadingFromSource
        } else if status == 3 {
            BookStatus::DownloadingFromSuwayomi
        } else if status == 4 {
            BookStatus::Assembling
        } else if status == 5 {
            BookStatus::Done
        } else {
            BookStatus::Failed
        }
    }

    /// The status that a number kept by the store stands for, if it stands for one.
    pub fn from_stored(status: i64) -> (book_status: Option<BookStatus>)
        ensures
            book_status == BookStatus::of_code(status as int),
    {
        if 1 <= status && status <= 6 {
            Some(BookStatus::from_u8(status as u8))
        } else {
            None
        }
    }

    /// The text shown to a reader for this status.
    pub fn label(&self) -> (text: String)
        ensures
            text@ == self.label_text(),
    {
        match self {
            BookStatus::Draft => "Draft".to_string(),
            BookStatus::DownloadingFromSource => "Downloading from source".to_string(),
            BookStatus::DownloadingFromSuwayomi => "Downloading from Suwayomi".to_string(),
            BookStatus::Assembling => "Assembling".to_string(),
            BookStatus::Done => "Done".to_string(),
            BookStatus::Failed => "Failed".to_string(),
        }
    }

    /// The number of a status stands for that status, and for no other.
    pub proof fn lemma_code_round_trip(self)
        ensures
            BookStatus::of_code(self.code() as int) == Some(self),
            1 <= self.code() <= 6,
    {
    }
}

/// A book as the store keeps it.
#[derive(Debug, PartialEq, Eq)]
pub struct SqlBook {
    pub id: i64,
    pub manga_id: i64,
    pub title: String,
    pub author: String,
    pub status: i64,
}

/// A book.
#[derive(Debug, PartialEq, Eq)]
pub struct Book {
    pub id: i64,
    pub manga_id: i64,
    pub title: String,
    pub author: String,
    pub status: BookStatus,
}

impl Book {
    /// The book that a row of the store holds. The status of the row must
    /// be a number from 1 to 6.
    pub fn from_row(row: SqlBook) -> (book: Book)
        requires
            1 <= row.status <= 6,
        ensures
            book.id == row.id,
            book.manga_id == row.manga_id,
            book.title@ == row.title@,
            book.author@ == row.author@,
            BookStatus::of_code(row.status as int) == Some(book.status),
    {
        Book {
            id: row.id,
            manga_id: row.manga_id,
            title: row.title,
            author: row.author,
            status: BookStatus::from_u8(row.status as u8),
        }
    }
}

/// A row of the join of a book with its chapters: the book's fields, and one chapter.
#[derive(Debug, PartialEq, Eq)]
pub struct BookChapterRow {
    pub manga_id: i64,
    pub title: String,
    pub author: String,
    pub status: i64,
    pub chapter_id: Option<i64>,
}

/// A book with the set of its chapters.
#[derive(Debug, PartialEq, Eq)]
pub struct BookWithChapterSet {
    pub book: Book,
    pub chapters: HashSet<i64>,
}

/// The chapters that the first `n` rows name.
pub open spec fn row_chapters(rows: Seq<BookChapterRow>, n: int) -> Set<i64>
    decreases n,
{
    if 0 < n <= rows.len() {
        row_chapters(rows, n - 1).insert(rows[n - 1].chapter_id.unwrap())
    } else {
        Set::empty()
    }
}

impl BookWithChapterSet {
    /// Gathers the rows of the join of the book `id` with its chapters. No
    /// rows mean that there is no such book. The book's fields are those of
    /// the first row, and the chapters are those that the rows name. Every
    /// row must name a chapter, and the status of the first row must be a
    /// number from 1 to 6.
    pub fn from_rows(id: i64, rows: &Vec<BookChapterRow>) -> (gathered: Option<BookWithChapterSet>)
        requires
            rows@.len() > 0 ==> 1 <= rows@[0].status <= 6,
            forall|i: int| 0 <= i < rows@.len() ==> (#[trigger] rows@[i]).chapter_id.is_some(),
        ensures
            gathered.is_none() <==> rows@.len() == 0,
            gathered matches Some(g) ==> g.book.id == id && g.book.manga_id == rows@[0].manga_id
                && g.book.title@ == rows@[0].title@ && g.book.author@ == rows@[0].author@
                && BookStatus::of_code(rows@[0].status as int) == Some(g.book.status)
                && g.chapters@ == row_chapters(rows@, rows@.len() as int),
    {
        if rows.len() == 0 {
            return None;
        }
        let first = &rows[0];
        let book = Book {
            id,
            manga_id: first.manga_id,
            title: first.title.clone(),
            author: first.author.clone(),
            status: BookStatus::from_u8(first.status as u8),
        };
        let mut chapters: HashSet<i64> = HashSet::new();
        let mut i: usize = 0;
        while i < rows.len()
            invariant
                i <= rows@.len(),
                forall|j: int| 0 <= j < rows@.len() ==> (#[trigger] rows@[j]).chapter_id.is_some(),
                chapters@ == row_chapters(rows@, i as int),
            decreases rows@.len() - i,
        {
            match rows[i].chapter_id {
                Some(chapter) => {
                    chapters.insert(chapter);
                },
                None => {},
            }
            i += 1;
        }
        Some(BookWithChapterSet { book, chapters })
    }
}

} // verus!
