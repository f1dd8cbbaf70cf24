//! Packing chapters into an image archive.
//!
//! The archive begins with a description of the book. Each chapter follows
//! with a description of its own and then the whole tree of its asset
//! directory, under the chapter's identifier. Images are stored as they
//! are: they are compressed already.

use vstd::prelude::*;
use vstd::string::*;
use vstd::utf8::encode_utf8;
use crate::assets::{unreadable_chapter, Assembled, ChapterAssets, DirNode};
use crate::error::{ErrorKind, ErrorView, StepError};
use crate::job::Export;
use crate::text::{concat2, concat3, decimal, decimal_string};

verus! {

/// `zip::result::ZipError`, the error of the archive writer. Nothing is
/// known of what it holds.
#[verifier::external_type_specification]
#[verifier::external_body]
pub struct ExZipError(zip::result::ZipError);

/// An image archive under construction: a `zip::ZipWriter` that writes into
/// memory. What it holds is told by `zip_entries`.
#[verifier::external_body]
pub struct CbzWriter {
    inner: zip::ZipWriter<std::io::Cursor<Vec<u8>>>,
}

/// A file of an archive: its name, whether it is stored as it is rather than
/// compressed, and its bytes.
pub struct ZipEntry {
    pub name: Seq<char>,
    pub stored: bool,
    pub data: Seq<u8>,
}

/// The files that an archive under construction was given, in order.
pub uninterp spec fn zip_entries(w: CbzWriter) -> Seq<ZipEntry>;

/// The files that the bytes of a finished archive hold, in order.
pub uninterp spec fn archive_entries(bytes: Seq<u8>) -> Seq<ZipEntry>;

/// The digit of base sixteen that stands for `d`, in lower case.
pub open spec fn hex_digit(d: int) -> char {
    if d < 10 {
        crate::text::digit_char(d)
    } else if d == 10 {
        'a'
    } else if d == 11 {
        'b'
    } else if d == 12 {
        'c'
    } else if d == 13 {
        'd'
    } else if d == 14 {
        'e'
    } else {
        'f'
    }
}

/// A character as it stands in a JSON string: the double quote and the
/// backslash behind a backslash; backspace, tab, line feed, form feed and
/// carriage return as `\b`, `\t`, `\n`, `\f` and `\r`; any other character
/// below the space as `\u00` and its two digits of base sixteen; every other
/// character as it is.
pub open spec fn json_escaped_char(c: char) -> Seq<char> {
    let code = c as int;
    if code == 0x22 {
        seq!['\\', '"']
    } else if code == 0x5c {
        seq!['\\', '\\']
    } else if code == 0x08 {
        seq!['\\', 'b']
    } else if code == 0x09 {
        seq!['\\', 't']
    } else if code == 0x0a {
        seq!['\\', 'n']
    } else if code == 0x0c {
        seq!['\\', 'f']
    } else if code == 0x0d {
        seq!['\\', 'r']
    } else if code < 0x20 {
        seq!['\\', 'u', '0', '0', hex_digit(code / 16), hex_digit(code % 16)]
    } else {
        seq![c]
    }
}

/// The characters of a text as they stand in a JSON string.
pub open spec fn json_escaped(text: Seq<char>) -> Seq<char>
    decreases text.len(),
{
    if text.len() == 0 {
        Seq::empty()
    } else {
        json_escaped(text.drop_last()) + json_escaped_char(text.last())
    }
}

/// A text as a JSON string: in double quotes, with its special characters escaped.
pub open spec fn json_quoted(text: Seq<char>) -> Seq<char> {
    seq!['"'] + json_escaped(text) + seq!['"']
}

/// Whether a name can stand in an archive: its bytes are at most 65535, the
/// most that the archive's record of a name's length can tell.
pub open spec fn name_fits(name: Seq<char>) -> bool {
    encode_utf8(name).len() <= 65535
}

/// Whether none of the files has the given name.
pub open spec fn is_new_name(entries: Seq<ZipEntry>, name: Seq<char>) -> bool {
    forall|i: int| 0 <= i < entries.len() ==> (#[trigger] entries[i]).name != name
}

/// Whether no two of the files have the same name.
pub open spec fn distinct_names(entries: Seq<ZipEntry>) -> bool {
    forall|i: int, j: int|
        0 <= i < j < entries.len() ==> (#[trigger] entries[i]).name != (#[trigger] entries[j]).name
}

/// `zip::ZipWriter::new` on an empty buffer in memory: the archive holds no file.
#[verifier::external_body]
fn zip_open() -> (w: CbzWriter)
    ensures
        zip_entries(w) == Seq::<ZipEntry>::empty(),
{
    CbzWriter { inner: zip::ZipWriter::new(std::io::Cursor::new(Vec::new())) }
}

/// `zip::ZipWriter::start_file` with the default options: where it succeeds,
/// the archive holds one more file, of the given name, compressed and still
/// empty, behind those it held. The writer refuses a name that a file of
/// the archive has, so where it succeeds the name is new. The writer panics
/// on a name of more than 65535 bytes, so such a name is left out.
#[verifier::external_body]
fn zip_start(w: &mut CbzWriter, name: &str) -> (started: Result<(), zip::result::ZipError>)
    requires
        name_fits(name@),
    ensures
        started is Ok ==> zip_entries(*final(w)) == zip_entries(*old(w)).push(
            ZipEntry { name: name@, stored: false, data: Seq::empty() },
        ) && is_new_name(zip_entries(*old(w)), name@),
{
    w.inner.start_file(name, zip::write::SimpleFileOptions::default())
}

/// `zip::ZipWriter::start_file` with the compression method
/// `zip::CompressionMethod::Stored`: where it succeeds, the archive holds one
/// more file, of the given name, stored as it is and still empty, behind
/// those it held. The writer refuses a name that a file of the archive has,
/// so where it succeeds the name is new. The writer panics on a name of
/// more than 65535 bytes, so such a name is left out.
#[verifier::external_body]
fn zip_start_stored(w: &mut CbzWriter, name: &str) -> (started: Result<(), zip::result::ZipError>)
    requires
        name_fits(name@),
    ensures
        started is Ok ==> zip_entries(*final(w)) == zip_entries(*old(w)).push(
            ZipEntry { name: name@, stored: true, data: Seq::empty() },
        ) && is_new_name(zip_entries(*old(w)), name@),
{
    let options = zip::write::SimpleFileOptions::default();
    w.inner.start_file(name, options.compression_method(zip::CompressionMethod::Stored))
}

/// `std::io::Write::write_all` of `zip::ZipWriter`: where it succeeds on an
/// archive that holds a file, the bytes are appended to the last file.
#[verifier::external_body]
fn zip_write(w: &mut CbzWriter, data: &[u8]) -> (written: Result<(), zip::result::ZipError>)
    ensures
        written is Ok && zip_entries(*old(w)).len() > 0 ==> zip_entries(*final(w)) == zip_entries(
            *old(w),
        ).drop_last().push(
            ZipEntry {
                name: zip_entries(*old(w)).last().name,
                stored: zip_entries(*old(w)).last().stored,
                data: zip_entries(*old(w)).last().data + data@,
            },
        ),
{
    std::io::Write::write_all(&mut w.inner, data).map_err(zip::result::ZipError::from)
}

/// `zip::ZipWriter::finish`: where it succeeds, the bytes of the archive
/// hold the files that the archive was given.
#[verifier::external_body]
fn zip_finish(w: CbzWriter) -> (finished: Result<Vec<u8>, zip::result::ZipError>)
    ensures
        finished matches Ok(bytes) ==> archive_entries(bytes@) == zip_entries(w),
{
    w.inner.finish().map(|buffer| buffer.into_inner())
}

/// `serde_json::to_string` of a text: the text as a JSON string, escaped as
/// the escape table of the serializer has it. A text is written into memory
/// without anything that could fail.
#[verifier::external_body]
fn json_quote(text: &str) -> (quoted: String)
    ensures
        quoted@ == json_quoted(text@),
{
    serde_json::to_string(text).unwrap_or_default()
}

/// The failure that an error of the archive writer stands for.
fn archive_failure(error: &zip::result::ZipError) -> (e: StepError)
    ensures
        e.kind == ErrorKind::AssemblyIoFailure,
{
    StepError { kind: ErrorKind::AssemblyIoFailure, detail: error.to_string() }
}

/// The description of the book, as JSON, from its quoted title and author.
pub open spec fn book_json(title: Seq<char>, author: Seq<char>) -> Seq<char> {
    "{\"title\":"@ + title + ",\"author\":"@ + author + "}"@
}

/// The description of a chapter, as JSON, from its identifier and quoted title.
pub open spec fn chapter_json(id: int, title: Seq<char>) -> Seq<char> {
    "{\"id\":"@ + decimal(id) + ",\"title\":"@ + title + "}"@
}

/// The name of a file of an archive, from the directory it lies in and its own name.
pub open spec fn entry_name(directory: Seq<char>, name: Seq<char>) -> Seq<char> {
    directory + "/"@ + name
}

/// The files that a file or a directory adds to the archive under `directory`.
pub open spec fn node_entries(node: DirNode, directory: Seq<char>) -> Seq<ZipEntry>
    decreases node, 0int,
{
    match node {
        DirNode::File { name, data } => seq![
            ZipEntry { name: entry_name(directory, name@), stored: true, data: data@ },
        ],
        DirNode::Dir { name, entries } => tree_entries(
            entries@,
            entry_name(directory, name@),
            entries@.len() as int,
        ),
    }
}

/// The files that the first `n` entries of a listing add to the archive
/// under `directory`: every file of the tree, in listing order, each
/// directory in full where it stands.
pub open spec fn tree_entries(listing: Seq<DirNode>, directory: Seq<char>, n: int) -> Seq<ZipEntry>
    decreases listing, n,
{
    if 0 < n <= listing.len() {
        tree_entries(listing, directory, n - 1) + node_entries(listing[n - 1], directory)
    } else {
        Seq::empty()
    }
}

/// The files that a chapter adds to the archive: its description, then the
/// tree of its assets.
pub open spec fn chapter_entries(chapter: ChapterAssets) -> Seq<ZipEntry> {
    let directory = decimal(chapter.id as int);
    let listing = chapter.listing->Ok_0@;
    seq![
        ZipEntry {
            name: entry_name(directory, "info.json"@),
            stored: false,
            data: encode_utf8(chapter_json(chapter.id as int, json_quoted(chapter.name@))),
        },
    ] + tree_entries(listing, directory, listing.len() as int)
}

/// The files that the first `n` chapters add to the archive.
pub open spec fn chapters_entries(chapters: Seq<ChapterAssets>, n: int) -> Seq<ZipEntry>
    decreases n,
{
    if 0 < n <= chapters.len() {
        chapters_entries(chapters, n - 1) + chapter_entries(chapters[n - 1])
    } else {
        Seq::empty()
    }
}

/// The files of the image archive of a book: the description of the book,
/// then the chapters.
pub open spec fn cbz_entries(title: Seq<char>, author: Seq<char>, chapters: Seq<ChapterAssets>)
    -> Seq<ZipEntry> {
    seq![
        ZipEntry {
            name: "metadata.json"@,
            stored: false,
            data: encode_utf8(book_json(json_quoted(title), json_quoted(author))),
        },
    ] + chapters_entries(chapters, chapters.len() as int)
}

/// The failure of the first of the first `n` chapters whose directory could
/// not be read.
pub open spec fn first_unreadable(chapters: Seq<ChapterAssets>, n: int) -> Option<ErrorView>
    decreases n,
{
    if 0 < n <= chapters.len() {
        match first_unreadable(chapters, n - 1) {
            Some(f) => Some(f),
            None => match chapters[n - 1].listing {
                Err(reason) => Some(unreadable_chapter(chapters[n - 1].id as int, reason@)),
                Ok(_) => None,
            },
        }
    } else {
        None
    }
}

/// Where no chapter is unreadable, every chapter has its listing; an
/// unreadable chapter among the first `n` is the first of all.
pub proof fn lemma_first_unreadable(chapters: Seq<ChapterAssets>, n: int, m: int)
    requires
        0 <= n <= m <= chapters.len(),
    ensures
        first_unreadable(chapters, n).is_some() ==> first_unreadable(chapters, m)
            == first_unreadable(chapters, n),
        first_unreadable(chapters, m).is_none() ==> forall|i: int|
            0 <= i < m ==> (#[trigger] chapters[i]).listing is Ok,
    decreases m,
{
    if m > 0 {
        if n < m {
            lemma_first_unreadable(chapters, n, m - 1);
        } else {
            lemma_first_unreadable(chapters, n - 1, m - 1);
        }
    }
}

/// The failure that a name which cannot stand in an archive causes.
pub open spec fn name_too_long(name: Seq<char>) -> ErrorView {
    ErrorView {
        kind: ErrorKind::AssemblyIoFailure,
        detail: "File name too long for the archive: "@ + name,
    }
}

/// The first name among the files that cannot stand in an archive.
pub open spec fn first_long_name(entries: Seq<ZipEntry>) -> Option<Seq<char>>
    decreases entries.len(),
{
    if entries.len() == 0 {
        None
    } else {
        match first_long_name(entries.drop_last()) {
            Some(name) => Some(name),
            None => if name_fits(entries.last().name) {
                None
            } else {
                Some(entries.last().name)
            },
        }
    }
}

/// The first name that does not fit among files followed by more files is
/// the first among the former, or else the first among the latter.
pub proof fn lemma_first_long_name_add(a: Seq<ZipEntry>, b: Seq<ZipEntry>)
    ensures
        first_long_name(a + b) == (match first_long_name(a) {
            Some(name) => Some(name),
            None => first_long_name(b),
        }),
    decreases b.len(),
{
    if b.len() == 0 {
        assert(a + b =~= a);
    } else {
        lemma_first_long_name_add(a, b.drop_last());
        assert((a + b).drop_last() =~= a + b.drop_last());
        assert((a + b).last() == b.last());
    }
}

/// The first name that does not fit among one file is the name of that
/// file, if it does not fit.
proof fn lemma_first_long_name_one(entry: ZipEntry)
    ensures
        first_long_name(seq![entry]) == (if name_fits(entry.name) {
            None
        } else {
            Some(entry.name)
        }),
{
    let one = seq![entry];
    assert(one.drop_last() =~= Seq::<ZipEntry>::empty());
    assert(first_long_name(one.drop_last()).is_none());
    assert(one.last() == entry);
}

/// A name that does not fit among the first `m` entries of a listing is the
/// first such name of every longer part of the listing.
proof fn lemma_long_name_stays(listing: Seq<DirNode>, directory: Seq<char>, m: int, n: int)
    requires
        0 <= m <= n <= listing.len(),
        first_long_name(tree_entries(listing, directory, m)).is_some(),
    ensures
        first_long_name(tree_entries(listing, directory, n)) == first_long_name(
            tree_entries(listing, directory, m),
        ),
    decreases n,
{
    if m < n {
        lemma_long_name_stays(listing, directory, m, n - 1);
        lemma_first_long_name_add(
            tree_entries(listing, directory, n - 1),
            node_entries(listing[n - 1], directory),
        );
    }
}

/// Where every name of a tree fits, every name of each of its entries fits.
proof fn lemma_names_fit_within(listing: Seq<DirNode>, directory: Seq<char>, n: int, i: int)
    requires
        0 <= i < n <= listing.len(),
        first_long_name(tree_entries(listing, directory, n)).is_none(),
    ensures
        first_long_name(node_entries(listing[i], directory)).is_none(),
    decreases n,
{
    lemma_first_long_name_add(
        tree_entries(listing, directory, n - 1),
        node_entries(listing[n - 1], directory),
    );
    if i < n - 1 {
        lemma_names_fit_within(listing, directory, n - 1, i);
    }
}

/// A name that does not fit among the first `m` chapters is the first such
/// name of every longer part of the book.
proof fn lemma_long_chapter_name_stays(
    head: Seq<ZipEntry>,
    chapters: Seq<ChapterAssets>,
    m: int,
    n: int,
)
    requires
        0 <= m <= n <= chapters.len(),
        first_long_name(head + chapters_entries(chapters, m)).is_some(),
    ensures
        first_long_name(head + chapters_entries(chapters, n)) == first_long_name(
            head + chapters_entries(chapters, m),
        ),
    decreases n,
{
    if m < n {
        lemma_long_chapter_name_stays(head, chapters, m, n - 1);
        let before = head + chapters_entries(chapters, n - 1);
        lemma_first_long_name_add(before, chapter_entries(chapters[n - 1]));
        assert(head + chapters_entries(chapters, n) =~= before + chapter_entries(chapters[n - 1]));
    }
}

/// Tests whether a name can stand in the archive.
fn check_name(name: &str) -> (checked: Result<(), StepError>)
    ensures
        match checked {
            Ok(_) => name_fits(name@),
            Err(e) => !name_fits(name@) && e@ == name_too_long(name@),
        },
{
    if name.as_bytes().len() > 65535 {
        Err(
            StepError {
                kind: ErrorKind::AssemblyIoFailure,
                detail: concat2("File name too long for the archive: ", name),
            },
        )
    } else {
        Ok(())
    }
}

/// Tests whether every file of the tree of a directory can stand in the
/// archive under `directory`. The first that cannot is reported.
fn check_tree(listing: &Vec<DirNode>, directory: &str) -> (checked: Result<(), StepError>)
    ensures
        match checked {
            Ok(_) => first_long_name(
                tree_entries(listing@, directory@, listing@.len() as int),
            ).is_none(),
            Err(e) => first_long_name(
                tree_entries(listing@, directory@, listing@.len() as int),
            ) matches Some(name) && e@ == name_too_long(name),
        },
    decreases listing,
{
    let mut i: usize = 0;
    while i < listing.len()
        invariant
            i <= listing@.len(),
            first_long_name(tree_entries(listing@, directory@, i as int)).is_none(),
        decreases listing@.len() - i,
    {
        let path = concat3(directory, "/", listing[i].name());
        proof {
            lemma_first_long_name_add(
                tree_entries(listing@, directory@, i as int),
                node_entries(listing@[i as int], directory@),
            );
        }
        let checked = match &listing[i] {
            DirNode::File { name, data } => {
                proof {
                    lemma_first_long_name_one(
                        ZipEntry { name: path@, stored: true, data: data@ },
                    );
                }
                check_name(path.as_str())
            },
            DirNode::Dir { name, entries } => check_tree(entries, path.as_str()),
        };
        match checked {
            Err(e) => {
                proof {
                    lemma_long_name_stays(listing@, directory@, i + 1, listing@.len() as int);
                }
                return Err(e);
            },
            Ok(_) => {},
        }
        i += 1;
    }
    Ok(())
}

/// Adds a file to the archive: starts it, compressed or stored, and writes its bytes.
fn add_file(w: &mut CbzWriter, name: &str, stored: bool, data: &[u8]) -> (added: Result<
    (),
    StepError,
>)
    requires
        name_fits(name@),
        distinct_names(zip_entries(*old(w))),
    ensures
        match added {
            Ok(_) => zip_entries(*final(w)) == zip_entries(*old(w)).push(
                ZipEntry { name: name@, stored, data: data@ },
            ) && distinct_names(zip_entries(*final(w))),
            Err(e) => e.kind == ErrorKind::AssemblyIoFailure,
        },
{
    let started = if stored {
        zip_start_stored(w, name)
    } else {
        zip_start(w, name)
    };
    match started {
        Err(error) => {
            return Err(archive_failure(&error));
        },
        Ok(_) => {},
    }
    match zip_write(w, data) {
        Err(error) => {
            return Err(archive_failure(&error));
        },
        Ok(_) => {},
    }
    proof {
        let begun = zip_entries(*old(w)).push(
            ZipEntry { name: name@, stored, data: Seq::empty() },
        );
        assert(begun.drop_last() =~= zip_entries(*old(w)));
        assert(Seq::<u8>::empty() + data@ =~= data@);
    }
    Ok(())
}

/// Copies the tree of a directory into the archive, under `directory`:
/// every file is stored as it is, under its path in the tree.
fn add_directory_to_zip(w: &mut CbzWriter, listing: &Vec<DirNode>, directory: &str) -> (added:
    Result<(), StepError>)
    requires
        first_long_name(tree_entries(listing@, directory@, listing@.len() as int)).is_none(),
        distinct_names(zip_entries(*old(w))),
    ensures
        match added {
            Ok(_) => zip_entries(*final(w)) == zip_entries(*old(w)) + tree_entries(
                listing@,
                directory@,
                listing@.len() as int,
            ) && distinct_names(zip_entries(*final(w))),
            Err(e) => e.kind == ErrorKind::AssemblyIoFailure,
        },
    decreases listing,
{
    let mut i: usize = 0;
    assert(zip_entries(*w) =~= zip_entries(*old(w)) + tree_entries(listing@, directory@, 0));
    while i < listing.len()
        invariant
            i <= listing@.len(),
            first_long_name(tree_entries(listing@, directory@, listing@.len() as int)).is_none(),
            zip_entries(*w) == zip_entries(*old(w)) + tree_entries(listing@, directory@, i as int),
            distinct_names(zip_entries(*w)),
        decreases listing@.len() - i,
    {
        let ghost before = zip_entries(*w);
        proof {
            lemma_names_fit_within(listing@, directory@, listing@.len() as int, i as int);
        }
        match &listing[i] {
            DirNode::File { name, data } => {
                let path = concat3(directory, "/", name.as_str());
                assert(name_fits(path@)) by {
                    lemma_first_long_name_one(
                        ZipEntry { name: path@, stored: true, data: data@ },
                    );
                }
                match add_file(w, path.as_str(), true, data.as_slice()) {
                    Err(e) => {
                        return Err(e);
                    },
                    Ok(_) => {},
                }
                assert(zip_entries(*w) =~= before + node_entries(listing@[i as int], directory@));
            },
            DirNode::Dir { name, entries } => {
                let path = concat3(directory, "/", name.as_str());
                match add_directory_to_zip(w, entries, path.as_str()) {
                    Err(e) => {
                        return Err(e);
                    },
                    Ok(_) => {},
                }
                assert(zip_entries(*w) =~= before + node_entries(listing@[i as int], directory@));
            },
        }
        assert(zip_entries(*w) =~= zip_entries(*old(w)) + tree_entries(
            listing@,
            directory@,
            i + 1,
        ));
        i += 1;
    }
    Ok(())
}

/// The name of the description of a chapter.
fn info_name_of(directory: &str) -> (name: String)
    ensures
        name@ == entry_name(directory@, "info.json"@),
{
    concat3(directory, "/", "info.json")
}

/// Packs the chapters of a job into an image archive.
///
/// Fails, before anything is packed, with the first chapter whose directory
/// could not be read, and where every directory could be read, with the
/// first file whose name is too long for an archive. Otherwise the archive
/// holds the description of the book, and for each chapter in order its
/// description and the tree of its assets, the images stored as they are.
/// There is no archive of files of which two have one name: the archive
/// writer refuses the second.
pub fn assemble_cbz(export: &Export, chapters: &Vec<ChapterAssets>) -> (assembled: Result<
    Assembled,
    StepError,
>)
    ensures
        first_unreadable(chapters@, chapters@.len() as int) matches Some(fault)
            ==> assembled matches Err(e) && e@ == fault,
        first_unreadable(chapters@, chapters@.len() as int).is_none() ==> (first_long_name(
            cbz_entries(export@.title, export@.author, chapters@),
        ) matches Some(name) ==> assembled matches Err(e) && e@ == name_too_long(name)),
        assembled matches Err(e) ==> e.kind == ErrorKind::AssemblyIoFailure,
        assembled matches Ok(archive) ==> archive.log@.len() == 0 && archive_entries(
            archive.bytes@,
        ) == cbz_entries(export@.title, export@.author, chapters@) && distinct_names(
            cbz_entries(export@.title, export@.author, chapters@),
        ),
{
    let mut k: usize = 0;
    while k < chapters.len()
        invariant
            k <= chapters@.len(),
            first_unreadable(chapters@, k as int).is_none(),
        decreases chapters@.len() - k,
    {
        match &chapters[k].listing {
            Err(reason) => {
                let id_text = decimal_string(chapters[k].id);
                let mut detail = concat3(
                    "Cannot read the assets of chapter ",
                    id_text.as_str(),
                    ": ",
                );
                detail.append(reason.as_str());
                proof {
                    lemma_first_unreadable(chapters@, k + 1, chapters@.len() as int);
                }
                return Err(StepError { kind: ErrorKind::AssemblyIoFailure, detail });
            },
            Ok(_) => {},
        }
        k += 1;
    }
    proof {
        lemma_first_unreadable(chapters@, 0, chapters@.len() as int);
    }
    let ghost head = seq![
        ZipEntry {
            name: "metadata.json"@,
            stored: false,
            data: encode_utf8(book_json(json_quoted(export@.title), json_quoted(export@.author))),
        },
    ];
    proof {
        lemma_first_long_name_one(head[0]);
        assert(head =~= seq![head[0]]);
    }
    match check_name("metadata.json") {
        Err(e) => {
            proof {
                assert(head + chapters_entries(chapters@, 0) =~= head);
                lemma_long_chapter_name_stays(head, chapters@, 0, chapters@.len() as int);
            }
            return Err(e);
        },
        Ok(_) => {},
    }
    let mut c: usize = 0;
    assert(head + chapters_entries(chapters@, 0) =~= head);
    while c < chapters.len()
        invariant
            c <= chapters@.len(),
            first_unreadable(chapters@, chapters@.len() as int).is_none(),
            forall|j: int| 0 <= j < chapters@.len() ==> (#[trigger] chapters@[j]).listing is Ok,
            head.len() == 1,
            head[0].name == "metadata.json"@,
            head + chapters_entries(chapters@, chapters@.len() as int) == cbz_entries(
                export@.title,
                export@.author,
                chapters@,
            ),
            first_long_name(head + chapters_entries(chapters@, c as int)).is_none(),
            forall|j: int|
                0 <= j < c ==> first_long_name(chapter_entries(#[trigger] chapters@[j])).is_none(),
        decreases chapters@.len() - c,
    {
        let chapter = &chapters[c];
        let directory = decimal_string(chapter.id);
        let info_name = info_name_of(directory.as_str());
        let ghost info = seq![
            ZipEntry {
                name: info_name@,
                stored: false,
                data: encode_utf8(
                    chapter_json(chapter.id as int, json_quoted(chapter.name@)),
                ),
            },
        ];
        let ghost before = head + chapters_entries(chapters@, c as int);
        proof {
            lemma_first_long_name_one(info[0]);
            assert(info =~= seq![info[0]]);
            assert(chapter_entries(chapters@[c as int]) =~= info + tree_entries(
                chapters@[c as int].listing->Ok_0@,
                directory@,
                chapters@[c as int].listing->Ok_0@.len() as int,
            ));
            lemma_first_long_name_add(before, chapter_entries(chapters@[c as int]));
            assert(head + chapters_entries(chapters@, c + 1) =~= before + chapter_entries(
                chapters@[c as int],
            ));
        }
        let checked = match check_name(info_name.as_str()) {
            Err(e) => Err(e),
            Ok(_) => match &chapter.listing {
                Err(_) => Ok(()),
                Ok(listing) => {
                    proof {
                        lemma_first_long_name_add(
                            info,
                            tree_entries(listing@, directory@, listing@.len() as int),
                        );
                    }
                    check_tree(listing, directory.as_str())
                },
            },
        };
        proof {
            let listing = chapters@[c as int].listing->Ok_0@;
            lemma_first_long_name_add(
                info,
                tree_entries(listing, directory@, listing.len() as int),
            );
        }
        match checked {
            Err(e) => {
                proof {
                    lemma_long_chapter_name_stays(head, chapters@, c + 1, chapters@.len() as int);
                }
                return Err(e);
            },
            Ok(_) => {},
        }
        c += 1;
    }
    let title = json_quote(export.title.as_str());
    let author = json_quote(export.author.as_str());
    let mut metadata = concat3("{\"title\":", title.as_str(), ",\"author\":");
    metadata.append(author.as_str());
    metadata.append("}");
    let mut w = zip_open();
    match add_file(&mut w, "metadata.json", false, metadata.as_str().as_bytes()) {
        Err(e) => {
            return Err(e);
        },
        Ok(_) => {},
    }
    assert(zip_entries(w) =~= head);
    let mut i: usize = 0;
    assert(zip_entries(w) =~= head + chapters_entries(chapters@, 0));
    while i < chapters.len()
        invariant
            i <= chapters@.len(),
            first_unreadable(chapters@, chapters@.len() as int).is_none(),
            first_long_name(
                cbz_entries(export@.title, export@.author, chapters@),
            ).is_none(),
            forall|j: int| 0 <= j < chapters@.len() ==> (#[trigger] chapters@[j]).listing is Ok,
            forall|j: int|
                0 <= j < chapters@.len() ==> first_long_name(
                    chapter_entries(#[trigger] chapters@[j]),
                ).is_none(),
            head + chapters_entries(chapters@, chapters@.len() as int) == cbz_entries(
                export@.title,
                export@.author,
                chapters@,
            ),
            zip_entries(w) == head + chapters_entries(chapters@, i as int),
            distinct_names(zip_entries(w)),
        decreases chapters@.len() - i,
    {
        let chapter = &chapters[i];
        let ghost before = zip_entries(w);
        let directory = decimal_string(chapter.id);
        let quoted = json_quote(chapter.name.as_str());
        let mut info = concat3("{\"id\":", directory.as_str(), ",\"title\":");
        info.append(quoted.as_str());
        info.append("}");
        let info_name = info_name_of(directory.as_str());
        proof {
            let listing = chapters@[i as int].listing->Ok_0@;
            let first = seq![
                ZipEntry {
                    name: info_name@,
                    stored: false,
                    data: encode_utf8(
                        chapter_json(chapter.id as int, json_quoted(chapter.name@)),
                    ),
                },
            ];
            lemma_first_long_name_one(first[0]);
            assert(first =~= seq![first[0]]);
            assert(first_long_name(chapter_entries(chapters@[i as int])).is_none());
            assert(chapter_entries(chapters@[i as int]) =~= first + tree_entries(
                listing,
                directory@,
                listing.len() as int,
            ));
            lemma_first_long_name_add(
                first,
                tree_entries(listing, directory@, listing.len() as int),
            );
        }
        match add_file(&mut w, info_name.as_str(), false, info.as_str().as_bytes()) {
            Err(e) => {
                return Err(e);
            },
            Ok(_) => {},
        }
        match &chapter.listing {
            Err(_) => {
                assert(false);
            },
            Ok(listing) => {
                match add_directory_to_zip(&mut w, listing, directory.as_str()) {
                    Err(e) => {
                        return Err(e);
                    },
                    Ok(_) => {},
                }
                assert(zip_entries(w) =~= before + chapter_entries(chapters@[i as int]));
            },
        }
        assert(zip_entries(w) =~= head + chapters_entries(chapters@, i + 1));
        i += 1;
    }
    match zip_finish(w) {
        Err(error) => Err(archive_failure(&error)),
        Ok(bytes) => Ok(Assembled { bytes, log: Vec::new() }),
    }
}

} // verus!
