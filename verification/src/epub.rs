//! Packing chapters into a document archive.
//!
//! Each chapter becomes one section: a page of markup that shows the
//! chapter's images in reading order. The images go into the archive under
//! the chapter's identifier.

use vstd::prelude::*;
use vstd::string::*;
use vstd::utf8::encode_utf8;
use crate::assets::{unreadable_chapter, Assembled, ChapterAssets, DirNode};
use crate::cbz::{archive_entries, ZipEntry};
use crate::chapter_plan::{
    chapter_plan_of, file_names, first_unusable, lemma_pages_of, plan_chapter, unusable_page,
    ChapterPlan, ChapterPlanView,
};
use crate::error::{ErrorKind, ErrorView, StepError};
use crate::job::Export;
use crate::text::{concat2, concat3, decimal, decimal_string};

verus! {

/// `eyre::Report`, the error of the archive builder. Nothing is known of
/// what it holds.
#[verifier::external_type_specification]
#[verifier::external_body]
pub struct ExReport(eyre::Report);

/// A document archive under construction: an `epub_builder::EpubBuilder`
/// that packs with `epub_builder::ZipLibrary`. What it holds is told by
/// `epub_title`, `epub_authors` and `epub_entries`.
#[verifier::external_body]
pub struct EpubWriter {
    inner: epub_builder::EpubBuilder<epub_builder::ZipLibrary>,
}

/// A file that a document archive under construction holds: whether it is a
/// section of the book or a resource, its path, its title (for a section) or
/// media type (for a resource), and its bytes.
pub struct EpubEntry {
    pub section: bool,
    pub path: Seq<char>,
    pub label: Seq<char>,
    pub data: Seq<u8>,
}

/// The title that a document archive under construction holds.
pub uninterp spec fn epub_title(w: EpubWriter) -> Seq<char>;

/// The authors that a document archive under construction holds, in the
/// order in which they were added.
pub uninterp spec fn epub_authors(w: EpubWriter) -> Seq<Seq<char>>;

/// The files that a document archive under construction was given, in the
/// order in which they were added.
pub uninterp spec fn epub_entries(w: EpubWriter) -> Seq<EpubEntry>;

/// Whether a path can stand in a document archive: with the directory that
/// the builder puts before it, its bytes are at most 65535, the most that
/// the archive's record of a name's length can tell.
pub open spec fn path_fits(path: Seq<char>) -> bool {
    encode_utf8(path).len() <= 65529
}

/// The name under which a document archive holds the file of a path.
pub open spec fn packed_name(path: Seq<char>) -> Seq<char> {
    "OEBPS/"@ + path
}

/// Whether a path is that of a file which the builder adds of its own: its
/// descriptions of the book, its tables of contents and its style sheet.
pub open spec fn is_builder_file(path: Seq<char>) -> bool {
    path == "content.opf"@ || path == "toc.ncx"@ || path == "nav.xhtml"@ || path == "toc.xhtml"@
        || path == "stylesheet.css"@
}

/// Whether the file at position `i` stands alone under its name: its path
/// is not empty and does not begin at the root, no other file has that
/// path, and the builder adds no file of that path.
pub open spec fn stands_alone(entries: Seq<EpubEntry>, i: int) -> bool {
    &&& entries[i].path.len() > 0
    &&& entries[i].path[0] != '/'
    &&& !is_builder_file(entries[i].path)
    &&& forall|j: int|
        0 <= j < entries.len() && j != i ==> (#[trigger] entries[j]).path != entries[i].path
}

/// Whether one of the files holds the given bytes under the given name.
pub open spec fn archive_holds(files: Seq<ZipEntry>, name: Seq<char>, data: Seq<u8>) -> bool {
    exists|k: int| 0 <= k < files.len() && (#[trigger] files[k]).name == name && files[k].data == data
}

/// Whether the files of an archive hold each of the given files that stands
/// alone under its name: under the name that the archive gives its path,
/// the bytes of the file.
pub open spec fn book_is_held(files: Seq<ZipEntry>, entries: Seq<EpubEntry>) -> bool {
    forall|i: int|
        0 <= i < entries.len() && #[trigger] stands_alone(entries, i) ==> archive_holds(
            files,
            packed_name(entries[i].path),
            entries[i].data,
        )
}

/// A character as it stands in the text of the package description: `&`,
/// `<` and `>` as `&amp;`, `&lt;` and `&gt;`, every other character as it is.
pub open spec fn xml_escaped_char(c: char) -> Seq<char> {
    if c == '&' {
        "&amp;"@
    } else if c == '<' {
        "&lt;"@
    } else if c == '>' {
        "&gt;"@
    } else {
        seq![c]
    }
}

/// A text as it stands in the package description.
pub open spec fn xml_text(text: Seq<char>) -> Seq<char>
    decreases text.len(),
{
    if text.len() == 0 {
        Seq::empty()
    } else {
        xml_text(text.drop_last()) + xml_escaped_char(text.last())
    }
}

/// The element of the package description that names the title of the book.
pub open spec fn title_element(title: Seq<char>) -> Seq<char> {
    "<dc:title>"@ + xml_text(title) + "</dc:title>"@
}

/// The element of the package description that names an author of the book.
pub open spec fn author_element(author: Seq<char>) -> Seq<char> {
    "<dc:creator opf:role=\"aut\">"@ + xml_text(author) + "</dc:creator>"@
}

/// Whether the bytes hold the part somewhere, in one piece.
pub open spec fn contains_bytes(data: Seq<u8>, part: Seq<u8>) -> bool {
    exists|at: int|
        0 <= at && at + part.len() <= data.len() && #[trigger] data.subrange(
            at,
            at + part.len(),
        ) == part
}

/// Whether the package description among the files of an archive names the
/// given title and each of the given authors.
pub open spec fn package_names(
    files: Seq<ZipEntry>,
    title: Seq<char>,
    authors: Seq<Seq<char>>,
) -> bool {
    exists|k: int|
        0 <= k < files.len() && (#[trigger] files[k]).name == "OEBPS/content.opf"@
            && contains_bytes(files[k].data, encode_utf8(title_element(title))) && forall|a: int|
            0 <= a < authors.len() ==> contains_bytes(
                files[k].data,
                encode_utf8(author_element(#[trigger] authors[a])),
            )
}

/// Whether one of the files was given under the path of the package description.
pub open spec fn holds_package_path(entries: Seq<EpubEntry>) -> bool {
    exists|i: int| 0 <= i < entries.len() && (#[trigger] entries[i]).path == "content.opf"@
}

/// `epub_builder::EpubBuilder::new` on a fresh `epub_builder::ZipLibrary`:
/// where it succeeds, the builder holds an empty title, no author and no
/// file that it was given.
#[verifier::external_body]
fn epub_open() -> (opened: Result<EpubWriter, eyre::Report>)
    ensures
        opened matches Ok(w) ==> epub_title(w) == Seq::<char>::empty() && epub_authors(w)
            == Seq::<Seq<char>>::empty() && epub_entries(w) == Seq::<EpubEntry>::empty(),
{
    let zip = epub_builder::ZipLibrary::new()?;
    Ok(EpubWriter { inner: epub_builder::EpubBuilder::new(zip)? })
}

/// `epub_builder::EpubBuilder::metadata` with the key `title` or `author`.
/// Where it succeeds with `title`, the value is the title and the authors
/// are as before. Where it succeeds with `author`, an empty value leaves no
/// author, any other value stands behind the authors there were, and the
/// title is as before. The files are as before.
#[verifier::external_body]
fn epub_set(w: &mut EpubWriter, key: &str, value: &str) -> (set: Result<(), eyre::Report>)
    requires
        key@ == "title"@ || key@ == "author"@,
    ensures
        set is Ok && key@ == "title"@ ==> epub_title(*final(w)) == value@ && epub_authors(
            *final(w),
        ) == epub_authors(*old(w)),
        set is Ok && key@ == "author"@ ==> epub_title(*final(w)) == epub_title(*old(w))
            && epub_authors(*final(w)) == (if value@.len() == 0 {
            Seq::<Seq<char>>::empty()
        } else {
            epub_authors(*old(w)).push(value@)
        }),
        set is Ok ==> epub_entries(*final(w)) == epub_entries(*old(w)),
{
    w.inner.metadata(key, value).map(|_| ())
}

/// `epub_builder::EpubBuilder::add_resource`: where it succeeds, the builder
/// holds one more file, a resource with the given path, media type and
/// bytes, behind those it held; title and authors are as before. The
/// builder packs a path that is too long into a broken archive, so such a
/// path is left out.
#[verifier::external_body]
fn epub_add_resource(w: &mut EpubWriter, path: &str, data: &Vec<u8>, mime: &str) -> (added: Result<
    (),
    eyre::Report,
>)
    requires
        path_fits(path@),
    ensures
        added is Ok ==> epub_entries(*final(w)) == epub_entries(*old(w)).push(
            EpubEntry { section: false, path: path@, label: mime@, data: data@ },
        ) && epub_title(*final(w)) == epub_title(*old(w)) && epub_authors(*final(w))
            == epub_authors(*old(w)),
{
    w.inner.add_resource(path, data.as_slice(), mime).map(|_| ())
}

/// `epub_builder::EpubBuilder::add_content` with an
/// `epub_builder::EpubContent` of the given path, title and text: where it
/// succeeds, the builder holds one more file, a section with that path and
/// title and the bytes of the text, behind those it held; title and authors
/// of the book are as before. The builder packs a path that is too long
/// into a broken archive, so such a path is left out.
#[verifier::external_body]
fn epub_add_section(w: &mut EpubWriter, path: &str, title: &str, text: &str) -> (added: Result<
    (),
    eyre::Report,
>)
    requires
        path_fits(path@),
    ensures
        added is Ok ==> epub_entries(*final(w)) == epub_entries(*old(w)).push(
            EpubEntry { section: true, path: path@, label: title@, data: encode_utf8(text@) },
        ) && epub_title(*final(w)) == epub_title(*old(w)) && epub_authors(*final(w))
            == epub_authors(*old(w)),
{
    let content = epub_builder::EpubContent::new(path, text.as_bytes()).title(title);
    w.inner.add_content(content).map(|_| ())
}

/// `epub_builder::EpubBuilder::generate` into a byte vector: where it
/// succeeds, the archive, as `zip::ZipArchive` reads it, holds each file
/// that the builder was given and that stands alone under its name: under
/// `OEBPS/` and its path, the bytes given. (Paths are taken as on a system
/// that separates their parts by slashes.) Unless a file was given under
/// the path of the package description, that description, `content.opf`,
/// names the title and every author that the builder holds, each in its
/// element and escaped as text. The archive also carries the time of its
/// making and a random identifier, so its bytes differ from one call to the
/// next.
#[verifier::external_body]
fn epub_generate(w: EpubWriter) -> (generated: Result<Vec<u8>, eyre::Report>)
    ensures
        generated matches Ok(bytes) ==> book_is_held(archive_entries(bytes@), epub_entries(w)),
        generated matches Ok(bytes) ==> (!holds_package_path(epub_entries(w)) ==> package_names(
            archive_entries(bytes@),
            epub_title(w),
            epub_authors(w),
        )),
{
    let mut w = w;
    let mut bytes: Vec<u8> = Vec::new();
    w.inner.generate(&mut bytes)?;
    Ok(bytes)
}

/// The failure that an error of the archive builder stands for.
fn archive_failure(report: &eyre::Report) -> (e: StepError)
    ensures
        e.kind == ErrorKind::AssemblyIoFailure,
{
    StepError { kind: ErrorKind::AssemblyIoFailure, detail: report.to_string() }
}

/// The plan of a chapter whose directory could be read.
pub open spec fn plan_of(chapter: ChapterAssets) -> ChapterPlanView {
    chapter_plan_of(chapter.id as int, chapter.name@, chapter.listing->Ok_0@)
}

/// The failure that a path which cannot stand in a document archive causes.
pub open spec fn path_too_long(path: Seq<char>) -> ErrorView {
    ErrorView {
        kind: ErrorKind::AssemblyIoFailure,
        detail: "Path too long for the archive: "@ + path,
    }
}

/// The paths under which a planned chapter goes into the archive: those of
/// its pages, in reading order, then that of its section, which is its title.
pub open spec fn plan_paths(plan: ChapterPlanView) -> Seq<Seq<char>> {
    Seq::new(plan.pages.len(), |j: int| plan.pages[j].path).push(plan.title)
}

/// The first path that cannot stand in a document archive, by its position.
pub open spec fn first_unfit(paths: Seq<Seq<char>>) -> Option<int>
    decreases paths.len(),
{
    if paths.len() == 0 {
        None
    } else {
        match first_unfit(paths.drop_last()) {
            Some(k) => Some(k),
            None => if path_fits(paths.last()) {
                None
            } else {
                Some(paths.len() - 1)
            },
        }
    }
}

/// What `first_unfit` finds does not fit and all paths before it fit; where
/// it finds nothing, all paths fit.
pub proof fn lemma_first_unfit(paths: Seq<Seq<char>>)
    ensures
        match first_unfit(paths) {
            Some(k) => 0 <= k < paths.len() && !path_fits(paths[k]) && forall|j: int|
                0 <= j < k ==> path_fits(#[trigger] paths[j]),
            None => forall|j: int| 0 <= j < paths.len() ==> path_fits(#[trigger] paths[j]),
        },
    decreases paths.len(),
{
    if paths.len() > 0 {
        let t = paths.drop_last();
        lemma_first_unfit(t);
        assert(forall|j: int| 0 <= j < t.len() ==> t[j] == paths[j]);
    }
}

/// A path that does not fit, with fitting paths before it, is the first
/// unfit path of every longer sequence of paths.
proof fn lemma_first_unfit_extends(paths: Seq<Seq<char>>, n: int)
    requires
        0 < n <= paths.len(),
        first_unfit(paths.take(n - 1)).is_none(),
        !path_fits(paths[n - 1]),
    ensures
        first_unfit(paths) == Some(n - 1),
    decreases paths.len() - n,
{
    if n == paths.len() {
        assert(paths.take(n) =~= paths);
        assert(paths.drop_last() =~= paths.take(n - 1));
    } else {
        assert(paths.drop_last().take(n - 1) =~= paths.take(n - 1));
        lemma_first_unfit_extends(paths.drop_last(), n);
    }
}

/// What keeps a chapter out of a document archive, if anything does: its
/// directory could not be read, or one of its files cannot serve as a page,
/// or the path of a page or of its section is too long.
pub open spec fn chapter_fault(chapter: ChapterAssets) -> Option<ErrorView> {
    match chapter.listing {
        Err(reason) => Some(unreadable_chapter(chapter.id as int, reason@)),
        Ok(listing) => match first_unusable(file_names(listing@)) {
            Some(k) => Some(unusable_page(file_names(listing@)[k])),
            None => match first_unfit(plan_paths(plan_of(chapter))) {
                Some(k) => Some(path_too_long(plan_paths(plan_of(chapter))[k])),
                None => None,
            },
        },
    }
}

/// Tests whether a path can stand in the archive.
fn check_path(path: &str) -> (checked: Result<(), StepError>)
    ensures
        match checked {
            Ok(_) => path_fits(path@),
            Err(e) => !path_fits(path@) && e@ == path_too_long(path@),
        },
{
    if path.as_bytes().len() > 65529 {
        Err(
            StepError {
                kind: ErrorKind::AssemblyIoFailure,
                detail: concat2("Path too long for the archive: ", path),
            },
        )
    } else {
        Ok(())
    }
}

/// Tests whether the paths of a planned chapter can stand in the archive.
/// The first that cannot is reported.
fn check_plan(plan: &ChapterPlan) -> (checked: Result<(), StepError>)
    ensures
        match checked {
            Ok(_) => first_unfit(plan_paths(plan@)).is_none(),
            Err(e) => first_unfit(plan_paths(plan@)) matches Some(k) && e@ == path_too_long(
                plan_paths(plan@)[k],
            ),
        },
{
    let ghost paths = plan_paths(plan@);
    let mut j: usize = 0;
    assert(paths.take(0) =~= Seq::<Seq<char>>::empty());
    while j < plan.pages.len()
        invariant
            j <= plan.pages@.len(),
            paths == plan_paths(plan@),
            paths.len() == plan.pages@.len() + 1,
            first_unfit(paths.take(j as int)).is_none(),
        decreases plan.pages@.len() - j,
    {
        let page = &plan.pages[j];
        assert(page.path@ == paths[j as int]);
        proof {
            let t = paths.take(j + 1);
            assert(t.drop_last() =~= paths.take(j as int));
            assert(t.last() == paths[j as int]);
        }
        match check_path(page.path.as_str()) {
            Err(e) => {
                proof {
                    lemma_first_unfit_extends(paths, j + 1);
                }
                return Err(e);
            },
            Ok(_) => {},
        }
        j += 1;
    }
    let ghost n = paths.len() as int;
    proof {
        assert(paths.take(n) =~= paths);
        assert(paths.drop_last() =~= paths.take(n - 1));
        assert(paths.last() == plan@.title);
    }
    match check_path(plan.title.as_str()) {
        Err(e) => {
            proof {
                lemma_first_unfit_extends(paths, n);
            }
            Err(e)
        },
        Ok(_) => Ok(()),
    }
}

/// The fault of the first chapter that has one.
pub open spec fn first_fault(chapters: Seq<ChapterAssets>) -> Option<ErrorView>
    decreases chapters.len(),
{
    if chapters.len() == 0 {
        None
    } else {
        match first_fault(chapters.drop_last()) {
            Some(f) => Some(f),
            None => chapter_fault(chapters.last()),
        }
    }
}

/// Where no chapter has a fault, none of them has; a fault found in the
/// beginning of a sequence of chapters is the fault of the whole sequence.
pub proof fn lemma_first_fault(chapters: Seq<ChapterAssets>, n: int)
    requires
        0 <= n <= chapters.len(),
    ensures
        first_fault(chapters).is_none() ==> forall|i: int|
            0 <= i < chapters.len() ==> chapter_fault(#[trigger] chapters[i]).is_none(),
        first_fault(chapters.take(n)).is_some() ==> first_fault(chapters) == first_fault(
            chapters.take(n),
        ),
    decreases chapters.len(),
{
    if chapters.len() > 0 {
        let t = chapters.drop_last();
        lemma_first_fault(t, if n < chapters.len() {
            n
        } else {
            n - 1
        });
        assert(forall|i: int| 0 <= i < t.len() ==> t[i] == chapters[i]);
        if n < chapters.len() {
            assert(t.take(n) =~= chapters.take(n));
        } else {
            assert(chapters.take(n) =~= chapters);
        }
    } else {
        assert(chapters.take(n) =~= chapters);
    }
}

/// Plans every chapter of a document archive. The first chapter that cannot
/// be packed is reported, and nothing is planned then.
pub fn plan_book(chapters: &Vec<ChapterAssets>) -> (planned: Result<Vec<ChapterPlan>, StepError>)
    ensures
        match planned {
            Ok(plans) => first_fault(chapters@).is_none() && plans@.len() == chapters@.len()
                && forall|i: int|
                0 <= i < plans@.len() ==> (#[trigger] plans@[i])@ == plan_of(chapters@[i]),
            Err(e) => first_fault(chapters@) == Some(e@),
        },
{
    let mut plans: Vec<ChapterPlan> = Vec::new();
    let mut i: usize = 0;
    assert(chapters@.take(0) =~= Seq::<ChapterAssets>::empty());
    while i < chapters.len()
        invariant
            i <= chapters@.len(),
            first_fault(chapters@.take(i as int)).is_none(),
            plans@.len() == i,
            forall|j: int| 0 <= j < i ==> (#[trigger] plans@[j])@ == plan_of(chapters@[j]),
        decreases chapters@.len() - i,
    {
        let chapter = &chapters[i];
        proof {
            let t = chapters@.take(i + 1);
            assert(t.drop_last() =~= chapters@.take(i as int));
            assert(t.last() == chapters@[i as int]);
            lemma_first_fault(chapters@, i + 1);
        }
        match &chapter.listing {
            Err(reason) => {
                let id_text = decimal_string(chapter.id);
                let mut detail = concat3(
                    "Cannot read the assets of chapter ",
                    id_text.as_str(),
                    ": ",
                );
                detail.append(reason.as_str());
                return Err(StepError { kind: ErrorKind::AssemblyIoFailure, detail });
            },
            Ok(listing) => {
                match plan_chapter(chapter.id, chapter.name.as_str(), listing) {
                    Err(e) => {
                        return Err(e);
                    },
                    Ok(plan) => {
                        match check_plan(&plan) {
                            Err(e) => {
                                return Err(e);
                            },
                            Ok(_) => {},
                        }
                        plans.push(plan);
                    },
                }
            },
        }
        i += 1;
    }
    assert(chapters@.take(chapters@.len() as int) =~= chapters@);
    Ok(plans)
}

/// The files that a planned chapter adds to the archive: its pages as
/// resources, in reading order, then its section.
pub open spec fn chapter_entries(plan: ChapterPlanView, listing: Seq<DirNode>) -> Seq<EpubEntry> {
    Seq::new(
        plan.pages.len(),
        |j: int|
            EpubEntry {
                section: false,
                path: plan.pages[j].path,
                label: plan.pages[j].mime,
                data: listing[plan.pages[j].source]->File_data@,
            },
    ).push(
        EpubEntry {
            section: true,
            path: plan.title,
            label: plan.title,
            data: encode_utf8(plan.markup),
        },
    )
}

/// The files that the chapters of a book add to the archive, chapter by chapter.
pub open spec fn book_entries(chapters: Seq<ChapterAssets>) -> Seq<EpubEntry>
    decreases chapters.len(),
{
    if chapters.len() == 0 {
        Seq::empty()
    } else {
        book_entries(chapters.drop_last()) + chapter_entries(
            plan_of(chapters.last()),
            chapters.last().listing->Ok_0@,
        )
    }
}

/// What tells a section from a resource.
pub open spec fn is_section() -> spec_fn(EpubEntry) -> bool {
    |e: EpubEntry| e.section
}

/// The sections among the files of an archive, in order.
pub open spec fn sections_of(entries: Seq<EpubEntry>) -> Seq<EpubEntry> {
    entries.filter(is_section())
}

/// The section of a chapter: under its title, the markup of its plan.
pub open spec fn section_of(chapter: ChapterAssets) -> EpubEntry {
    EpubEntry {
        section: true,
        path: chapter.name@,
        label: chapter.name@,
        data: encode_utf8(plan_of(chapter).markup),
    }
}

/// A chapter adds its pages as resources and, behind them, one section.
pub proof fn lemma_chapter_has_one_section(chapter: ChapterAssets)
    ensures
        sections_of(chapter_entries(plan_of(chapter), chapter.listing->Ok_0@)) == seq![
            section_of(chapter),
        ],
{
    let plan = plan_of(chapter);
    let listing = chapter.listing->Ok_0@;
    let pages = Seq::new(
        plan.pages.len(),
        |j: int|
            EpubEntry {
                section: false,
                path: plan.pages[j].path,
                label: plan.pages[j].mime,
                data: listing[plan.pages[j].source]->File_data@,
            },
    );
    let keep = is_section();
    lemma_no_section_among(pages, pages.len() as int);
    assert(pages.take(pages.len() as int) =~= pages);
    let all = chapter_entries(plan, listing);
    assert(all == pages.push(section_of(chapter)));
    assert(all.drop_last() =~= pages);
    reveal(Seq::filter);
    assert(all.filter(keep) =~= pages.filter(keep).push(section_of(chapter)));
}

/// Among files that are all resources there is no section.
proof fn lemma_no_section_among(entries: Seq<EpubEntry>, n: int)
    requires
        0 <= n <= entries.len(),
        forall|i: int| 0 <= i < entries.len() ==> !(#[trigger] entries[i]).section,
    ensures
        sections_of(entries.take(n)).len() == 0,
    decreases n,
{
    reveal(Seq::filter);
    if n > 0 {
        lemma_no_section_among(entries, n - 1);
        assert(entries.take(n).drop_last() =~= entries.take(n - 1));
    }
}

/// A document archive has exactly one section for each chapter, in the
/// order of the chapters.
pub proof fn lemma_one_section_for_each_chapter(chapters: Seq<ChapterAssets>)
    ensures
        sections_of(book_entries(chapters)) == Seq::new(
            chapters.len(),
            |i: int| section_of(chapters[i]),
        ),
    decreases chapters.len(),
{
    let wanted = Seq::new(chapters.len(), |i: int| section_of(chapters[i]));
    if chapters.len() == 0 {
        assert(sections_of(book_entries(chapters)) =~= wanted);
    } else {
        let before = chapters.drop_last();
        let last = chapters.last();
        lemma_one_section_for_each_chapter(before);
        lemma_chapter_has_one_section(last);
        let head = book_entries(before);
        let tail = chapter_entries(plan_of(last), last.listing->Ok_0@);
        Seq::filter_distributes_over_add(head, tail, is_section());
        assert(sections_of(book_entries(chapters)) =~= wanted);
    }
}

/// The line of the event log that tells of a chapter packed.
pub open spec fn chapter_note(chapter: int) -> Seq<char> {
    "Added chapter "@ + decimal(chapter) + " to epub"@
}

/// Adds a planned chapter to the archive: its pages, then its section.
fn write_chapter(w: &mut EpubWriter, listing: &Vec<DirNode>, plan: &ChapterPlan) -> (written:
    Result<(), StepError>)
    requires
        forall|j: int|
            0 <= j < plan@.pages.len() ==> 0 <= (#[trigger] plan@.pages[j]).source < listing@.len()
                && listing@[plan@.pages[j].source] is File,
        first_unfit(plan_paths(plan@)).is_none(),
    ensures
        match written {
            Ok(_) => epub_entries(*final(w)) == epub_entries(*old(w)) + chapter_entries(
                plan@,
                listing@,
            ) && epub_title(*final(w)) == epub_title(*old(w)) && epub_authors(*final(w))
                == epub_authors(*old(w)),
            Err(e) => e.kind == ErrorKind::AssemblyIoFailure,
        },
{
    let ghost wanted = chapter_entries(plan@, listing@);
    let ghost paths = plan_paths(plan@);
    proof {
        lemma_first_unfit(paths);
    }
    let mut j: usize = 0;
    assert(epub_entries(*w) =~= epub_entries(*old(w)) + wanted.take(0));
    while j < plan.pages.len()
        invariant
            j <= plan.pages@.len(),
            plan@.pages.len() == plan.pages@.len(),
            wanted == chapter_entries(plan@, listing@),
            forall|k: int|
                0 <= k < plan@.pages.len() ==> 0 <= (#[trigger] plan@.pages[k]).source
                    < listing@.len() && listing@[plan@.pages[k].source] is File,
            epub_entries(*w) == epub_entries(*old(w)) + wanted.take(j as int),
            epub_title(*w) == epub_title(*old(w)),
            epub_authors(*w) == epub_authors(*old(w)),
            paths == plan_paths(plan@),
            forall|k: int| 0 <= k < paths.len() ==> path_fits(#[trigger] paths[k]),
        decreases plan.pages@.len() - j,
    {
        let page = &plan.pages[j];
        assert(page@ == plan@.pages[j as int]);
        assert(path_fits(paths[j as int]));
        assert(paths[j as int] == page.path@);
        match &listing[page.source] {
            DirNode::File { data, .. } => {
                match epub_add_resource(w, page.path.as_str(), data, page.mime.as_str()) {
                    Err(report) => {
                        return Err(archive_failure(&report));
                    },
                    Ok(_) => {},
                }
                assert(wanted.take(j + 1) =~= wanted.take(j as int).push(wanted[j as int]));
                assert(epub_entries(*w) =~= epub_entries(*old(w)) + wanted.take(j + 1));
            },
            DirNode::Dir { .. } => {
                assert(false);
            },
        }
        j += 1;
    }
    assert(path_fits(paths[plan.pages@.len() as int]));
    match epub_add_section(w, plan.title.as_str(), plan.title.as_str(), plan.markup.as_str()) {
        Err(report) => {
            return Err(archive_failure(&report));
        },
        Ok(_) => {},
    }
    assert(wanted =~= wanted.take(plan.pages@.len() as int).push(wanted.last()));
    assert(epub_entries(*w) =~= epub_entries(*old(w)) + wanted);
    Ok(())
}

/// The authors of the document archive of a job: its author, or none where
/// the job names none.
pub open spec fn book_authors(author: Seq<char>) -> Seq<Seq<char>> {
    if author.len() == 0 {
        Seq::empty()
    } else {
        seq![author]
    }
}

/// Gives the archive its title and author, then adds the chapters in order.
/// Returns the lines for the event log, one for each chapter.
fn write_book(
    w: &mut EpubWriter,
    export: &Export,
    chapters: &Vec<ChapterAssets>,
    plans: &Vec<ChapterPlan>,
) -> (written: Result<Vec<String>, StepError>)
    requires
        first_fault(chapters@).is_none(),
        plans@.len() == chapters@.len(),
        forall|i: int| 0 <= i < plans@.len() ==> (#[trigger] plans@[i])@ == plan_of(chapters@[i]),
        epub_authors(*old(w)).len() == 0,
    ensures
        match written {
            Ok(log) => epub_title(*final(w)) == export@.title && epub_authors(*final(w))
                == book_authors(export@.author) && epub_entries(*final(w)) == epub_entries(*old(w))
                + book_entries(chapters@) && log@.len() == chapters@.len() && forall|i: int|
                0 <= i < log@.len() ==> (#[trigger] log@[i])@ == chapter_note(
                    chapters@[i].id as int,
                ),
            Err(e) => e.kind == ErrorKind::AssemblyIoFailure,
        },
{
    match epub_set(w, "title", export.title.as_str()) {
        Err(report) => {
            return Err(archive_failure(&report));
        },
        Ok(_) => {},
    }
    match epub_set(w, "author", export.author.as_str()) {
        Err(report) => {
            return Err(archive_failure(&report));
        },
        Ok(_) => {},
    }
    assert(epub_authors(*w) =~= book_authors(export@.author));
    let mut log: Vec<String> = Vec::new();
    let mut i: usize = 0;
    assert(chapters@.take(0) =~= Seq::<ChapterAssets>::empty());
    assert(epub_entries(*w) =~= epub_entries(*old(w)) + book_entries(chapters@.take(0)));
    while i < chapters.len()
        invariant
            i <= chapters@.len(),
            first_fault(chapters@).is_none(),
            plans@.len() == chapters@.len(),
            forall|k: int|
                0 <= k < plans@.len() ==> (#[trigger] plans@[k])@ == plan_of(chapters@[k]),
            epub_title(*w) == export@.title,
            epub_authors(*w) == book_authors(export@.author),
            epub_entries(*w) == epub_entries(*old(w)) + book_entries(chapters@.take(i as int)),
            log@.len() == i,
            forall|k: int|
                0 <= k < i ==> (#[trigger] log@[k])@ == chapter_note(chapters@[k].id as int),
        decreases chapters@.len() - i,
    {
        let chapter = &chapters[i];
        proof {
            lemma_first_fault(chapters@, 0);
            assert(chapter_fault(chapters@[i as int]).is_none());
            let t = chapters@.take(i + 1);
            assert(t.drop_last() =~= chapters@.take(i as int));
            assert(t.last() == chapters@[i as int]);
        }
        match &chapter.listing {
            Err(_) => {
                assert(false);
            },
            Ok(listing) => {
                proof {
                    lemma_pages_of(chapter.id as int, listing@);
                    assert(plans@[i as int]@ == plan_of(chapters@[i as int]));
                    assert(first_unfit(plan_paths(plan_of(chapters@[i as int]))).is_none());
                }
                match write_chapter(w, listing, &plans[i]) {
                    Err(e) => {
                        return Err(e);
                    },
                    Ok(_) => {},
                }
                assert(epub_entries(*w) =~= epub_entries(*old(w)) + book_entries(
                    chapters@.take(i + 1),
                ));
            },
        }
        let id_text = decimal_string(chapter.id);
        log.push(concat3("Added chapter ", id_text.as_str(), " to epub"));
        i += 1;
    }
    assert(chapters@.take(chapters@.len() as int) =~= chapters@);
    Ok(log)
}

/// Fills a document archive with the chapters of a job, ready to be
/// finished.
///
/// Fails with the first fault among the chapters, before anything is packed:
/// a chapter's directory could not be read, or it holds a file that cannot
/// serve as a page, or the path of a page or of a section is too long.
/// Otherwise the archive holds the job's title, its author if it names one,
/// and for each chapter in order its pages in reading order and then its
/// section. With the archive comes one line for the event log for each
/// chapter.
pub fn pack_book(export: &Export, chapters: &Vec<ChapterAssets>) -> (packed: Result<
    (EpubWriter, Vec<String>),
    StepError,
>)
    ensures
        first_fault(chapters@) matches Some(fault) ==> packed matches Err(e) && e@ == fault,
        packed matches Err(e) ==> e.kind == ErrorKind::AssemblyIoFailure,
        packed matches Ok(book) ==> epub_title(book.0) == export@.title && epub_authors(book.0)
            == book_authors(export@.author) && epub_entries(book.0) == book_entries(chapters@)
            && book.1@.len() == chapters@.len() && forall|i: int|
            0 <= i < book.1@.len() ==> (#[trigger] book.1@[i])@ == chapter_note(
                chapters@[i].id as int,
            ),
{
    let plans = match plan_book(chapters) {
        Err(e) => {
            proof {
                lemma_fault_kind(chapters@);
            }
            return Err(e);
        },
        Ok(plans) => plans,
    };
    let mut w = match epub_open() {
        Err(report) => {
            return Err(archive_failure(&report));
        },
        Ok(w) => w,
    };
    let log = match write_book(&mut w, export, chapters, &plans) {
        Err(e) => {
            return Err(e);
        },
        Ok(log) => log,
    };
    assert(epub_entries(w) =~= book_entries(chapters@));
    Ok((w, log))
}

/// Finishes a document archive. Where that succeeds, the archive holds,
/// as a reader of archives finds them, each file that it was given and that
/// stands alone under its name: under `OEBPS/` and its path, its bytes.
/// Unless a file was given under the path of the package description, that
/// description names the title and the authors of the book.
pub fn finish_book(w: EpubWriter) -> (finished: Result<Vec<u8>, StepError>)
    ensures
        match finished {
            Ok(bytes) => book_is_held(archive_entries(bytes@), epub_entries(w)) && (
            !holds_package_path(epub_entries(w)) ==> package_names(
                archive_entries(bytes@),
                epub_title(w),
                epub_authors(w),
            )),
            Err(e) => e.kind == ErrorKind::AssemblyIoFailure,
        },
{
    match epub_generate(w) {
        Err(report) => Err(archive_failure(&report)),
        Ok(bytes) => Ok(bytes),
    }
}

/// Packs the chapters of a job into a document archive.
///
/// Fails with the first fault among the chapters, before anything is packed,
/// as `pack_book` does. Otherwise the archive is filled as `pack_book` fills
/// it and finished as `finish_book` finishes it: it holds each page and each
/// section that stands alone under its name, and, unless a chapter is
/// packed under the path of the package description, that description names
/// the title of the job and its author. With the archive comes one line for
/// the event log for each chapter.
pub fn assemble_epub(export: &Export, chapters: &Vec<ChapterAssets>) -> (assembled: Result<
    Assembled,
    StepError,
>)
    ensures
        first_fault(chapters@) matches Some(fault) ==> assembled matches Err(e) && e@ == fault,
        assembled matches Err(e) ==> e.kind == ErrorKind::AssemblyIoFailure,
        assembled matches Ok(archive) ==> (!holds_package_path(book_entries(chapters@))
            ==> package_names(
            archive_entries(archive.bytes@),
            export@.title,
            book_authors(export@.author),
        )),
        assembled matches Ok(archive) ==> book_is_held(
            archive_entries(archive.bytes@),
            book_entries(chapters@),
        ) && archive.log@.len() == chapters@.len() && forall|i: int|
            0 <= i < archive.log@.len() ==> (#[trigger] archive.log@[i])@ == chapter_note(
                chapters@[i].id as int,
            ),
{
    let (w, log) = match pack_book(export, chapters) {
        Err(e) => {
            return Err(e);
        },
        Ok(book) => book,
    };
    match finish_book(w) {
        Err(e) => Err(e),
        Ok(bytes) => Ok(Assembled { bytes, log }),
    }
}

/// Every fault of a chapter is a failure of assembly.
pub proof fn lemma_fault_kind(chapters: Seq<ChapterAssets>)
    ensures
        first_fault(chapters) matches Some(fault) ==> fault.kind == ErrorKind::AssemblyIoFailure,
    decreases chapters.len(),
{
    if chapters.len() > 0 {
        lemma_fault_kind(chapters.drop_last());
    }
}

} // verus!
