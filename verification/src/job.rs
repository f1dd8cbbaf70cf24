//! The record of an export job.

use vstd::prelude::*;
use vstd::string::*;
use std::collections::HashSet;
use crate::error::{ErrorView, StepError};
use crate::format::ExportFormat;
use crate::step::{ExportState, ExportStep};
use crate::text::concat3;

verus! {

broadcast use vstd::std_specs::hash::group_hash_axioms;

/// An export job as the store keeps it. `created_at` counts seconds since
/// the Unix epoch.
#[derive(Debug, PartialEq, Eq)]
pub struct Export {
    pub id: i64,
    pub title: String,
    pub author: String,
    pub format: ExportFormat,
    pub state: ExportState,
    pub step: ExportStep,
    pub progress: i64,
    pub created_at: i64,
}

/// An export job as a value.
pub struct ExportView {
    pub id: i64,
    pub title: Seq<char>,
    pub author: Seq<char>,
    pub format: ExportFormat,
    pub state: ExportState,
    pub step: ExportStep,
    pub progress: i64,
    pub created_at: i64,
}

/// Whether a character cannot stand in the name of a file: it separates the
/// parts of a path, or ends a name.
pub open spec fn is_path_special(c: char) -> bool {
    c == '/' || c == '\\' || c == '\0'
}

/// Whether the character at position `i` of a title is a dot that cannot
/// stay: it begins or ends the title, or follows a dot.
pub open spec fn is_stray_dot(title: Seq<char>, i: int) -> bool {
    title[i] == '.' && (i == 0 || i == title.len() - 1 || title[i - 1] == '.')
}

/// The character that stands at position `i` of a sanitized title: an
/// underscore in place of what cannot stay, else the character of the title.
pub open spec fn sanitized_char(title: Seq<char>, i: int) -> char {
    if is_path_special(title[i]) || is_stray_dot(title, i) {
        '_'
    } else {
        title[i]
    }
}

/// A title made fit to name a file: every path separator, every NUL and
/// every dot that begins or ends the title or follows a dot is an
/// underscore. The empty title becomes one underscore.
pub open spec fn sanitized(title: Seq<char>) -> Seq<char> {
    if title.len() == 0 {
        seq!['_']
    } else {
        Seq::new(title.len(), |i: int| sanitized_char(title, i))
    }
}

/// Whether a text names a file plainly: it is not empty, does not begin
/// with a dot, and holds neither a path separator, nor a NUL, nor two dots
/// in a row. Such a name, joined to a directory, lies directly in it.
pub open spec fn is_plain_name(name: Seq<char>) -> bool {
    &&& name.len() > 0
    &&& name[0] != '.'
    &&& forall|i: int| 0 <= i < name.len() ==> !is_path_special(#[trigger] name[i])
    &&& forall|i: int| 0 <= i < name.len() - 1 ==> !(#[trigger] name[i] == '.' && name[i + 1] == '.')
}

/// The path of a file of the given name in the directory `root`: the root,
/// a slash unless the root is empty or ends with one, and the name.
pub open spec fn joined_path(root: Seq<char>, name: Seq<char>) -> Seq<char> {
    if root.len() == 0 || root.last() == '/' {
        root + name
    } else {
        root + "/"@ + name
    }
}

impl ExportView {
    /// The name of the job's archive file: the sanitized title, a dot, the
    /// extension of the format.
    pub open spec fn filename(self) -> Seq<char> {
        sanitized(self.title) + "."@ + self.format.extension()
    }

    /// The path of the job's archive file under the directory `root`.
    pub open spec fn path_under(self, root: Seq<char>) -> Seq<char> {
        joined_path(root, self.filename())
    }
}

/// A sanitized title is never empty, holds nothing that cannot stand in a
/// file name, no two dots in a row, and neither begins nor ends with a dot.
pub proof fn lemma_sanitized(title: Seq<char>)
    ensures
        sanitized(title).len() > 0,
        sanitized(title).len() == (if title.len() == 0 {
            1
        } else {
            title.len() as int
        }),
        sanitized(title)[0] != '.',
        sanitized(title).last() != '.',
        forall|i: int|
            0 <= i < sanitized(title).len() ==> !is_path_special(#[trigger] sanitized(title)[i]),
        forall|i: int|
            0 <= i < sanitized(title).len() - 1 ==> !(#[trigger] sanitized(title)[i] == '.'
                && sanitized(title)[i + 1] == '.'),
{
    let s = sanitized(title);
    if title.len() > 0 {
        assert forall|i: int| 0 <= i < s.len() - 1 implies !(#[trigger] s[i] == '.' && s[i + 1]
            == '.') by {
            if s[i] == '.' && s[i + 1] == '.' {
                assert(title[i] == '.');
                assert(is_stray_dot(title, i + 1));
            }
        }
    }
}

/// A title that names a file plainly, and does not end with a dot, is its
/// own sanitized title.
pub proof fn lemma_plain_title_is_kept(title: Seq<char>)
    requires
        is_plain_name(title),
        title.last() != '.',
    ensures
        sanitized(title) == title,
{
    let s = sanitized(title);
    assert forall|i: int| 0 <= i < title.len() implies s[i] == title[i] by {
        assert(!is_path_special(title[i]));
        if title[i] == '.' {
            assert(i > 0 && i < title.len() - 1);
            assert(!(title[i - 1] == '.' && title[i - 1 + 1] == '.'));
        }
    }
    assert(s =~= title);
}

/// The archive file of every job is named plainly: whatever the title
/// holds, the name holds no path separator and no two dots in a row, so the
/// file lies directly in the directory that the name is joined to. Jobs
/// with equal titles and formats have equal names.
pub proof fn lemma_filename_is_plain(job: ExportView)
    ensures
        is_plain_name(job.filename()),
{
    let s = sanitized(job.title);
    let name = job.filename();
    let ext = job.format.extension();
    lemma_sanitized(job.title);
    reveal_strlit(".");
    reveal_strlit("epub");
    reveal_strlit("cbz");
    assert(name.len() == s.len() + 1 + ext.len());
    assert(ext.len() >= 3);
    assert(forall|i: int| 0 <= i < ext.len() ==> !is_path_special(#[trigger] ext[i]) && ext[i]
        != '.');
    assert forall|i: int| 0 <= i < name.len() implies !is_path_special(#[trigger] name[i]) by {
        if i < s.len() {
            assert(name[i] == s[i]);
        } else if i == s.len() {
            assert(name[i] == '.');
        } else {
            assert(name[i] == ext[i - s.len() - 1]);
        }
    }
    assert forall|i: int| 0 <= i < name.len() - 1 implies !(#[trigger] name[i] == '.' && name[i
        + 1] == '.') by {
        if i + 1 < s.len() {
            assert(name[i] == s[i] && name[i + 1] == s[i + 1]);
        } else if i + 1 == s.len() {
            assert(name[i] == s[i]);
            assert(s[i] == s.last());
        } else if i == s.len() {
            assert(name[i + 1] == ext[0]);
        } else {
            assert(name[i] == ext[i - s.len() - 1]);
        }
    }
    assert(name[0] == s[0]);
}

impl View for Export {
    type V = ExportView;

    open spec fn view(&self) -> ExportView {
        ExportView {
            id: self.id,
            title: self.title@,
            author: self.author@,
            format: self.format,
            state: self.state,
            step: self.step,
            progress: self.progress,
            created_at: self.created_at,
        }
    }
}

/// The title under which a job is created when its first title is already
/// taken: the title, then the distinguishing suffix in round brackets.
pub open spec fn distinct_title(title: Seq<char>, suffix: Seq<char>) -> Seq<char> {
    title + " ("@ + suffix + ")"@
}

impl Export {
    /// A job as it is first stored: a draft at the first step, with no
    /// progress, to be packed as an image archive.
    pub fn draft(id: i64, title: &str, author: &str, created_at: i64) -> (job: Export)
        ensures
            job@ == (ExportView {
                id,
                title: title@,
                author: author@,
                format: ExportFormat::Cbz,
                state: ExportState::Draft,
                step: ExportStep::Begin,
                progress: 0,
                created_at,
            }),
    {
        Export {
            id,
            title: String::from_str(title),
            author: String::from_str(author),
            format: ExportFormat::Cbz,
            state: ExportState::Draft,
            step: ExportStep::Begin,
            progress: 0,
            created_at,
        }
    }

    /// The name of the job's archive file: the sanitized title, a dot, the
    /// extension of the format.
    pub fn get_filename(&self) -> (name: String)
        ensures
            name@ == self@.filename(),
            is_plain_name(name@),
    {
        proof {
            lemma_filename_is_plain(self@);
        }
        let title = sanitize(self.title.as_str());
        concat3(title.as_str(), ".", self.format.to_extension())
    }
}

/// The archive file of every job lies directly in the directory that it
/// is kept under: whatever the title holds, the path ends with the name of
/// the file, the name holds no path separator and no two dots in a row, and
/// before the name stands the directory alone. Jobs with equal titles and
/// formats have equal paths under equal directories.
pub proof fn lemma_path_lies_in_root(job: ExportView, root: Seq<char>)
    ensures
        is_plain_name(job.filename()),
        job.path_under(root) == root + job.filename() || job.path_under(root) == root + "/"@
            + job.filename(),
        job.path_under(root).len() >= job.filename().len(),
        job.path_under(root).skip(job.path_under(root).len() - job.filename().len())
            == job.filename(),
{
    lemma_filename_is_plain(job);
    let name = job.filename();
    let path = job.path_under(root);
    reveal_strlit("/");
    assert(path.skip(path.len() - name.len()) =~= name);
}

impl Export {
    /// The path of the job's archive file under the directory `base_dir`.
    pub fn get_path(&self, base_dir: &str) -> (path: String)
        ensures
            path@ == self@.path_under(base_dir@),
    {
        let name = self.get_filename();
        let n = base_dir.unicode_len();
        if n == 0 {
            let path = String::from_str(name.as_str());
            assert(path@ =~= self@.path_under(base_dir@));
            path
        } else if base_dir.get_char(n - 1) == '/' {
            crate::text::concat2(base_dir, name.as_str())
        } else {
            concat3(base_dir, "/", name.as_str())
        }
    }
}

/// Makes a title fit to name a file.
pub fn sanitize(title: &str) -> (name: String)
    ensures
        name@ == sanitized(title@),
{
    let n = title.unicode_len();
    if n == 0 {
        proof {
            reveal_strlit("_");
        }
        let name = String::from_str("_");
        assert(name@ =~= sanitized(title@));
        return name;
    }
    let mut name = String::new();
    let mut after_dot = false;
    let mut i: usize = 0;
    while i < n
        invariant
            i <= n,
            0 < n == title@.len(),
            after_dot == (i > 0 && title@[i - 1] == '.'),
            name@ == Seq::new(i as nat, |j: int| sanitized_char(title@, j)),
        decreases n - i,
    {
        let c = title.get_char(i);
        let stray = c == '.' && (i == 0 || i == n - 1 || after_dot);
        if c == '/' || c == '\\' || c == '\0' || stray {
            proof {
                reveal_strlit("_");
            }
            name.append("_");
        } else {
            name.append(title.substring_char(i, i + 1));
        }
        assert(name@ =~= Seq::new((i + 1) as nat, |j: int| sanitized_char(title@, j)));
        after_dot = c == '.';
        i += 1;
    }
    assert(name@ =~= sanitized(title@));
    name
}

/// The chapters that the first `n` rows of a job's chapter table name. A
/// row without a chapter names none.
pub open spec fn named_chapters(rows: Seq<Option<i64>>, n: int) -> Set<i64>
    decreases n,
{
    if 0 < n <= rows.len() {
        match rows[n - 1] {
            Some(chapter) => named_chapters(rows, n - 1).insert(chapter),
            None => named_chapters(rows, n - 1),
        }
    } else {
        Set::empty()
    }
}

/// A chapter is named by the rows exactly when one of them holds it.
pub proof fn lemma_named_chapters(rows: Seq<Option<i64>>, n: int, chapter: i64)
    requires
        0 <= n <= rows.len(),
    ensures
        named_chapters(rows, n).contains(chapter) <==> exists|i: int|
            0 <= i < n && #[trigger] rows[i] == Some(chapter),
    decreases n,
{
    if n > 0 {
        lemma_named_chapters(rows, n - 1, chapter);
        if named_chapters(rows, n).contains(chapter) {
            if rows[n - 1] == Some(chapter) {
                assert(rows[n - 1] == Some(chapter));
            } else {
                let i = choose|i: int| 0 <= i < n - 1 && #[trigger] rows[i] == Some(chapter);
                assert(rows[i] == Some(chapter));
            }
        }
    }
}

/// Gathers the chapters of a job from the rows of its chapter table.
pub fn chapter_set(rows: &Vec<Option<i64>>) -> (chapters: HashSet<i64>)
    ensures
        chapters@ == named_chapters(rows@, rows@.len() as int),
{
    let mut chapters: HashSet<i64> = HashSet::new();
    let mut i: usize = 0;
    while i < rows.len()
        invariant
            i <= rows@.len(),
            chapters@ == named_chapters(rows@, i as int),
        decreases rows@.len() - i,
    {
        match rows[i] {
            Some(chapter) => {
                chapters.insert(chapter);
            },
            None => {},
        }
        i += 1;
    }
    chapters
}

/// What the store answered when a job was to be inserted.
#[derive(Debug, PartialEq, Eq)]
pub enum InsertOutcome {
    /// The job was inserted under this identifier.
    Inserted(i64),
    /// The store holds a job of that title already.
    TitleTaken,
    /// The store failed.
    Failed(StepError),
}

/// What is to be done after the first attempt to insert a job.
#[derive(Debug, PartialEq, Eq)]
pub enum CreateNext {
    /// The job is created under this identifier.
    Created(i64),
    /// The job is to be inserted once more, under this title.
    RetryAs(String),
    /// The job cannot be created.
    GiveUp(StepError),
}

/// Decides what follows the first attempt to insert a job under `title`.
/// Where the title is taken, the job is inserted once more under the title
/// with the distinguishing `suffix`.
pub fn after_insert(outcome: InsertOutcome, title: &str, suffix: &str) -> (next: CreateNext)
    ensures
        match outcome {
            InsertOutcome::Inserted(id) => next matches CreateNext::Created(created) && created
                == id,
            InsertOutcome::TitleTaken => next matches CreateNext::RetryAs(fresh) && fresh@
                == distinct_title(title@, suffix@),
            InsertOutcome::Failed(e) => next matches CreateNext::GiveUp(given) && given@ == e@,
        },
{
    match outcome {
        InsertOutcome::Inserted(id) => CreateNext::Created(id),
        InsertOutcome::TitleTaken => CreateNext::RetryAs(retitled(title, suffix)),
        InsertOutcome::Failed(e) => CreateNext::GiveUp(e),
    }
}

/// The title to store a job under when `title` is already taken.
pub fn retitled(title: &str, suffix: &str) -> (fresh: String)
    ensures
        fresh@ == distinct_title(title@, suffix@),
{
    let mut fresh = concat3(title, " (", suffix);
    fresh.append(")");
    fresh
}

} // verus!
