//! The fetched assets of a chapter as they lie in its directory.

use vstd::prelude::*;
use crate::error::{ErrorKind, ErrorView, StepError};
use crate::text::decimal;

verus! {

/// An entry of a directory: a file with its bytes, or a directory with its
/// own entries. Entries keep the order in which the directory listed them.
#[derive(Debug, PartialEq, Eq)]
pub enum DirNode {
    File { name: String, data: Vec<u8> },
    Dir { name: String, entries: Vec<DirNode> },
}

impl DirNode {
    /// The name of this entry.
    pub open spec fn name_text(self) -> Seq<char> {
        match self {
            DirNode::File { name, .. } => name@,
            DirNode::Dir { name, .. } => name@,
        }
    }

    /// The name of this entry.
    pub fn name(&self) -> (name: &str)
        ensures
            name@ == self.name_text(),
    {
        match self {
            DirNode::File { name, .. } => name.as_str(),
            DirNode::Dir { name, .. } => name.as_str(),
        }
    }

    /// Whether this entry is a file.
    pub fn is_file(&self) -> (yes: bool)
        ensures
            yes == (*self is File),
    {
        match self {
            DirNode::File { .. } => true,
            DirNode::Dir { .. } => false,
        }
    }
}

/// A chapter to be packed: its identifier, its title, and the listing of its
/// asset directory, or the reason why the directory could not be read.
#[derive(Debug, PartialEq, Eq)]
pub struct ChapterAssets {
    pub id: i64,
    pub name: String,
    pub listing: Result<Vec<DirNode>, String>,
}

/// A finished archive: its bytes, and the lines for the event log that tell
/// what went into it.
#[derive(Debug, PartialEq, Eq)]
pub struct Assembled {
    pub bytes: Vec<u8>,
    pub log: Vec<String>,
}

/// The failure that a chapter whose directory could not be read causes.
pub open spec fn unreadable_chapter(chapter: int, reason: Seq<char>) -> ErrorView {
    ErrorView {
        kind: ErrorKind::AssemblyIoFailure,
        detail: "Cannot read the assets of chapter "@ + decimal(chapter) + ": "@ + reason,
    }
}

/// The failure of an assembly whose chapters the remote service does not know.
pub open spec fn chapters_not_found() -> ErrorView {
    ErrorView { kind: ErrorKind::MissingUpstreamData, detail: "Chapters not found"@ }
}

/// Decides what follows the lookup of the chapters of a job at the remote
/// service. The identifiers and titles that were found are the chapters to
/// pack, in the order of the answer; an answer without data fails the
/// assembly.
pub fn chapters_found(names: Option<Vec<(i64, String)>>) -> (found: Result<
    Vec<(i64, String)>,
    StepError,
>)
    ensures
        names matches Some(n) ==> (found matches Ok(f) && f@ == n@),
        names is None ==> (found matches Err(e) && e@ == chapters_not_found()),
{
    match names {
        Some(n) => Ok(n),
        None => Err(StepError::new(ErrorKind::MissingUpstreamData, "Chapters not found")),
    }
}

/// The positions of the files among the entries of a directory, in listing order.
pub open spec fn file_positions(listing: Seq<DirNode>) -> Seq<int>
    decreases listing.len(),
{
    if listing.len() == 0 {
        Seq::empty()
    } else if listing.last() is File {
        file_positions(listing.drop_last()).push(listing.len() - 1)
    } else {
        file_positions(listing.drop_last())
    }
}

/// File positions are positions of files, in ascending order.
pub proof fn lemma_file_positions(listing: Seq<DirNode>)
    ensures
        file_positions(listing).len() <= listing.len(),
        forall|k: int|
            0 <= k < file_positions(listing).len() ==> 0 <= (#[trigger] file_positions(
                listing,
            )[k]) < listing.len() && listing[file_positions(listing)[k]] is File,
        forall|a: int, b: int|
            0 <= a < b < file_positions(listing).len() ==> file_positions(listing)[a]
                < file_positions(listing)[b],
        forall|i: int|
            0 <= i < listing.len() && listing[i] is File ==> file_positions(listing).contains(i),
    decreases listing.len(),
{
    if listing.len() > 0 {
        let before = listing.drop_last();
        lemma_file_positions(before);
        let earlier = file_positions(before);
        let now = file_positions(listing);
        assert(forall|i: int| 0 <= i < before.len() ==> before[i] == listing[i]);
        assert forall|i: int| 0 <= i < listing.len() && listing[i] is File implies now.contains(
            i,
        ) by {
            if i < before.len() {
                assert(earlier.contains(i));
                let k = choose|k: int| 0 <= k < earlier.len() && earlier[k] == i;
                assert(now[k] == i);
            } else {
                assert(now[now.len() - 1] == i);
            }
        }
    }
}

/// Finds the files among the entries of a directory.
pub fn files_in(listing: &Vec<DirNode>) -> (positions: Vec<usize>)
    ensures
        positions@.len() == file_positions(listing@).len(),
        forall|k: int|
            0 <= k < positions@.len() ==> (#[trigger] positions@[k]) as int == file_positions(
                listing@,
            )[k],
{
    let mut positions: Vec<usize> = Vec::new();
    let n = listing.len();
    let mut i: usize = 0;
    assert(listing@.take(0) =~= Seq::<DirNode>::empty());
    while i < n
        invariant
            i <= n,
            n == listing@.len(),
            positions@.len() == file_positions(listing@.take(i as int)).len(),
            forall|k: int|
                0 <= k < positions@.len() ==> (#[trigger] positions@[k]) as int == file_positions(
                    listing@.take(i as int),
                )[k],
        decreases n - i,
    {
        proof {
            let t = listing@.take(i + 1);
            assert(t.drop_last() =~= listing@.take(i as int));
            assert(t.last() == listing@[i as int]);
        }
        if listing[i].is_file() {
            positions.push(i);
        }
        i += 1;
    }
    assert(listing@.take(n as int) =~= listing@);
    positions
}

} // verus!
