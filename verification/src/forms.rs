//! What a user is shown and what a user sends: the choice of chapters and
//! the settings of an export.

use vstd::prelude::*;
use vstd::string::*;
use std::collections::HashSet;
use crate::format::ExportFormat;
use crate::job::Export;
use crate::step::ExportState;
use crate::text::{concat2, concat3, decimal, decimal_string, str_eq};

verus! {

/// What the remote service tells of a chapter of a work.
#[derive(Debug, PartialEq, Eq)]
pub struct ChapterRow {
    pub id: i64,
    pub name: String,
    pub is_read: bool,
}

/// The page on which the chapters of a work are chosen.
#[derive(Debug, PartialEq, Eq)]
pub struct ChapterSelect {
    pub chapters: Vec<ChapterRow>,
    pub manga_id: i64,
    pub hide_read: bool,
}

/// What the address of that page carries.
#[derive(Debug, Clone, Copy)]
pub struct ChapterSelectParams {
    pub manga_id: i64,
    pub hide_read: Option<bool>,
}

/// What a user sends from that page: the chapters chosen.
#[derive(Debug, PartialEq, Eq)]
pub struct ChapterSelectSubmission {
    pub chapter_id: HashSet<i64>,
    pub manga_id: i64,
}

/// What a user sends from the page of an export's settings.
#[derive(Debug, PartialEq, Eq)]
pub struct ConfigureExportInput {
    pub title: String,
    pub author: String,
    pub format: ExportFormat,
    pub action: String,
}

/// The chapters among the first `n` that are not read, in their order.
pub open spec fn unread(all: Seq<ChapterRow>, n: int) -> Seq<ChapterRow>
    decreases n,
{
    if 0 < n <= all.len() {
        if all[n - 1].is_read {
            unread(all, n - 1)
        } else {
            unread(all, n - 1).push(all[n - 1])
        }
    } else {
        Seq::empty()
    }
}

/// Whether read chapters are left out: only where that is asked for.
pub open spec fn hides_read(params: ChapterSelectParams) -> bool {
    params.hide_read == Some(true)
}

impl ChapterSelect {
    /// The page for the chapters of a work. Where the address asks for it,
    /// the chapters that are read are left out.
    pub fn new(all: Vec<ChapterRow>, params: &ChapterSelectParams) -> (page: ChapterSelect)
        ensures
            page.manga_id == params.manga_id,
            page.hide_read == hides_read(*params),
            page.chapters@ == (if hides_read(*params) {
                unread(all@, all@.len() as int)
            } else {
                all@
            }),
    {
        let hide = match params.hide_read {
            Some(true) => true,
            _ => false,
        };
        if !hide {
            return ChapterSelect { chapters: all, manga_id: params.manga_id, hide_read: false };
        }
        let mut rest = all;
        let mut chapters: Vec<ChapterRow> = Vec::new();
        let n = rest.len();
        let mut i: usize = 0;
        while i < n
            invariant
                i <= n,
                n == all@.len(),
                rest@.len() == n - i,
                forall|j: int| 0 <= j < n - i ==> rest@[j] == all@[i + j],
                chapters@ == unread(all@, i as int),
            decreases n - i,
        {
            let row = rest.remove(0);
            assert(row == all@[i as int]);
            if !row.is_read {
                chapters.push(row);
            }
            i += 1;
        }
        ChapterSelect { chapters, manga_id: params.manga_id, hide_read: true }
    }
}

/// The author under which an export is created: the author of the work,
/// or `Unknown` where the remote service names none.
pub fn author_or_unknown(author: Option<String>) -> (name: String)
    ensures
        name@ == (match author {
            Some(a) => a@,
            None => "Unknown"@,
        }),
{
    match author {
        Some(a) => a,
        None => "Unknown".to_string(),
    }
}

/// The address of the page of an export's settings.
pub open spec fn configure_path(export: int) -> Seq<char> {
    "/export/"@ + decimal(export) + "/configure"@
}

/// The address of the page of an export.
pub open spec fn export_path(export: int) -> Seq<char> {
    "/export/"@ + decimal(export)
}

/// The address to which a user is sent when an export is created: the page
/// of its settings.
pub fn configure_address(export: i64) -> (address: String)
    ensures
        address@ == configure_path(export as int),
{
    let id_text = decimal_string(export);
    concat3("/export/", id_text.as_str(), "/configure")
}

/// What follows the saving of an export's settings: whether the export is
/// begun, and the address to which the user is sent.
#[derive(Debug, PartialEq, Eq)]
pub struct AfterConfigure {
    pub begin: bool,
    pub address: String,
}

impl ConfigureExportInput {
    /// What follows the saving of these settings for the export `id`. With
    /// the action `save` the user goes back to the list of exports; with
    /// any other action the export is begun and the user goes to its page.
    pub fn after_saving(&self, id: i64) -> (next: AfterConfigure)
        ensures
            next.begin == (self.action@ != "save"@),
            next.address@ == (if self.action@ == "save"@ {
                "/exports"@
            } else {
                export_path(id as int)
            }),
    {
        if str_eq(self.action.as_str(), "save") {
            AfterConfigure { begin: false, address: "/exports".to_string() }
        } else {
            let id_text = decimal_string(id);
            AfterConfigure { begin: true, address: concat2("/export/", id_text.as_str()) }
        }
    }
}

/// Why the settings of an export are not shown, if they are not: only a
/// draft has settings to change.
pub fn configure_refusal(export: &Export) -> (refusal: Option<String>)
    ensures
        match refusal {
            Some(reason) => export.state != ExportState::Draft && reason@
                == "Export is not in draft state"@,
            None => export.state == ExportState::Draft,
        },
{
    if export.state == ExportState::Draft {
        None
    } else {
        Some("Export is not in draft state".to_string())
    }
}

/// Why the archive of an export is not handed out, if it is not: the status
/// of the answer and its text. There is no archive of an export that the
/// store does not hold, nor of one that is not completed.
pub fn download_refusal(export: &Option<Export>) -> (refusal: Option<(u16, String)>)
    ensures
        match *export {
            None => refusal matches Some(r) && r.0 == 404 && r.1@ == "Export not found"@,
            Some(e) => if e.state == ExportState::Completed {
                refusal.is_none()
            } else {
                refusal matches Some(r) && r.0 == 400 && r.1@ == "Export not completed"@
            },
        },
{
    match export {
        None => Some((404, "Export not found".to_string())),
        Some(e) => {
            if e.state == ExportState::Completed {
                None
            } else {
                Some((400, "Export not completed".to_string()))
            }
        },
    }
}

} // verus!
