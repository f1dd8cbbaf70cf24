//! How a chapter goes into a document archive: which files become its pages,
//! in which order, under which names, and the markup that shows them.

use vstd::prelude::*;
use vstd::string::*;
use crate::assets::{file_positions, files_in, lemma_file_positions, DirNode};
use crate::error::{ErrorKind, ErrorView, StepError};
use crate::pages::{
    extension_of, file_extension, is_page_name, lemma_reading_order, numbers_of, page_number,
    page_number_of, page_order, positions_of, reading_order,
};
use crate::text::{concat2, concat3, decimal, decimal_string};

verus! {

/// A page of a chapter: where its file stands in the listing, the path under
/// which the archive holds it, and its media type.
#[derive(Debug, PartialEq, Eq)]
pub struct PagePlan {
    pub source: usize,
    pub path: String,
    pub mime: String,
}

/// A page as a value.
pub struct PageView {
    pub source: int,
    pub path: Seq<char>,
    pub mime: Seq<char>,
}

impl View for PagePlan {
    type V = PageView;

    open spec fn view(&self) -> PageView {
        PageView { source: self.source as int, path: self.path@, mime: self.mime@ }
    }
}

/// A chapter as it goes into the archive: its title, its pages in reading
/// order, and the markup of its section.
#[derive(Debug, PartialEq, Eq)]
pub struct ChapterPlan {
    pub title: String,
    pub pages: Vec<PagePlan>,
    pub markup: String,
}

/// A chapter plan as a value.
pub struct ChapterPlanView {
    pub title: Seq<char>,
    pub pages: Seq<PageView>,
    pub markup: Seq<char>,
}

impl View for ChapterPlan {
    type V = ChapterPlanView;

    open spec fn view(&self) -> ChapterPlanView {
        ChapterPlanView {
            title: self.title@,
            pages: Seq::new(self.pages@.len(), |i: int| self.pages@[i]@),
            markup: self.markup@,
        }
    }
}

/// The names of the files of a directory, in listing order.
pub open spec fn file_names(listing: Seq<DirNode>) -> Seq<Seq<char>> {
    Seq::new(
        file_positions(listing).len(),
        |k: int| listing[file_positions(listing)[k]].name_text(),
    )
}

/// The first name that cannot serve as a page, by its position among the names.
pub open spec fn first_unusable(names: Seq<Seq<char>>) -> Option<int>
    decreases names.len(),
{
    if names.len() == 0 {
        None
    } else {
        match first_unusable(names.drop_last()) {
            Some(k) => Some(k),
            None => if is_page_name(names.last()) {
                None
            } else {
                Some(names.len() - 1)
            },
        }
    }
}

/// What `first_unusable` finds is unusable and all names before it are
/// usable; where it finds nothing, all names are usable.
pub proof fn lemma_first_unusable(names: Seq<Seq<char>>)
    ensures
        match first_unusable(names) {
            Some(k) => 0 <= k < names.len() && !is_page_name(names[k]) && forall|j: int|
                0 <= j < k ==> is_page_name(#[trigger] names[j]),
            None => forall|j: int| 0 <= j < names.len() ==> is_page_name(#[trigger] names[j]),
        },
    decreases names.len(),
{
    if names.len() > 0 {
        let t = names.drop_last();
        lemma_first_unusable(t);
        assert(forall|j: int| 0 <= j < t.len() ==> t[j] == names[j]);
    }
}

/// The failure that a file name which cannot serve as a page causes.
pub open spec fn unusable_page(name: Seq<char>) -> ErrorView {
    ErrorView { kind: ErrorKind::AssemblyIoFailure, detail: "Unusable page file name: "@ + name }
}

/// The path under which the archive holds a page of a chapter.
pub open spec fn page_path(chapter: int, name: Seq<char>) -> Seq<char> {
    decimal(chapter) + "/"@ + name
}

/// The media type of a page, from its extension.
pub open spec fn page_mime(name: Seq<char>) -> Seq<char> {
    "image/"@ + extension_of(name).unwrap()
}

/// The page numbers of the given file names.
pub open spec fn page_numbers(names: Seq<Seq<char>>) -> Seq<int> {
    Seq::new(names.len(), |k: int| page_number_of(names[k]).unwrap())
}

/// The pages of a chapter in reading order.
pub open spec fn pages_of(chapter: int, listing: Seq<DirNode>) -> Seq<PageView> {
    let names = file_names(listing);
    let order = reading_order(page_numbers(names));
    Seq::new(
        order.len(),
        |j: int|
            PageView {
                source: file_positions(listing)[order[j]],
                path: page_path(chapter, names[order[j]]),
                mime: page_mime(names[order[j]]),
            },
    )
}

/// The opening of a section's markup.
pub open spec fn markup_head() -> Seq<char> {
    "<?xml version='1.0' encoding='utf-8'?>\n<html xmlns=\"http://www.w3.org/1999/xhtml\">\n<head/><body>\n"@
}

/// The element that shows one page.
pub open spec fn image_tag(path: Seq<char>) -> Seq<char> {
    "<img src=\""@ + path + "\" />\n"@
}

/// The elements that show the given pages, one after the other.
pub open spec fn image_tags(pages: Seq<PageView>) -> Seq<char>
    decreases pages.len(),
{
    if pages.len() == 0 {
        Seq::empty()
    } else {
        image_tags(pages.drop_last()) + image_tag(pages.last().path)
    }
}

/// The markup of a chapter's section: the heading with its title, then its
/// pages in reading order.
pub open spec fn section_markup(title: Seq<char>, pages: Seq<PageView>) -> Seq<char> {
    markup_head() + "<h1>"@ + title + "</h1>\n"@ + image_tags(pages) + "</body>\n</html>"@
}

/// The plan of a chapter whose file names can all serve as pages.
pub open spec fn chapter_plan_of(chapter: int, title: Seq<char>, listing: Seq<DirNode>)
    -> ChapterPlanView {
    let pages = pages_of(chapter, listing);
    ChapterPlanView { title, pages, markup: section_markup(title, pages) }
}

/// A plan has as many pages as the listing has files. Every page comes from
/// a file of the listing, no file gives two pages, and the page numbers
/// ascend along the plan.
pub proof fn lemma_pages_of(chapter: int, listing: Seq<DirNode>)
    ensures
        pages_of(chapter, listing).len() == file_positions(listing).len(),
        forall|j: int|
            0 <= j < pages_of(chapter, listing).len() ==> 0 <= (#[trigger] pages_of(
                chapter,
                listing,
            )[j]).source < listing.len() && listing[pages_of(chapter, listing)[j].source] is File,
        forall|a: int, b: int|
            0 <= a < b < pages_of(chapter, listing).len() ==> (#[trigger] pages_of(
                chapter,
                listing,
            )[a]).source != (#[trigger] pages_of(chapter, listing)[b]).source,
        forall|a: int, b: int|
            0 <= a < b < pages_of(chapter, listing).len() ==> page_number_of(
                listing[(#[trigger] pages_of(chapter, listing)[a]).source].name_text(),
            ).unwrap() <= page_number_of(
                listing[(#[trigger] pages_of(chapter, listing)[b]).source].name_text(),
            ).unwrap(),
{
    let files = file_positions(listing);
    let names = file_names(listing);
    let numbers = page_numbers(names);
    let order = reading_order(numbers);
    let pages = pages_of(chapter, listing);
    lemma_file_positions(listing);
    lemma_reading_order(numbers);
    assert forall|a: int, b: int| 0 <= a < b < pages.len() implies (#[trigger] pages[a]).source != (
    #[trigger] pages[b]).source by {
        assert(order[a] != order[b]);
        if order[a] < order[b] {
            assert(files[order[a]] < files[order[b]]);
        } else {
            assert(files[order[b]] < files[order[a]]);
        }
    }
    assert forall|a: int, b: int| 0 <= a < b < pages.len() implies page_number_of(
        listing[(#[trigger] pages[a]).source].name_text(),
    ).unwrap() <= page_number_of(listing[(#[trigger] pages[b]).source].name_text()).unwrap() by {
        assert(numbers[order[a]] <= numbers[order[b]]);
        assert(names[order[a]] == listing[files[order[a]]].name_text());
        assert(names[order[b]] == listing[files[order[b]]].name_text());
    }
}

/// Plans a chapter of a document archive from the listing of its asset
/// directory. The files of the listing become the pages, ordered by the
/// number in their names. A file whose name is not a number with an
/// extension makes the chapter unusable; the first such file is reported.
pub fn plan_chapter(chapter: i64, title: &str, listing: &Vec<DirNode>) -> (planned: Result<
    ChapterPlan,
    StepError,
>)
    ensures
        match planned {
            Ok(plan) => first_unusable(file_names(listing@)).is_none() && plan@ == chapter_plan_of(
                chapter as int,
                title@,
                listing@,
            ),
            Err(e) => match first_unusable(file_names(listing@)) {
                Some(k) => e@ == unusable_page(file_names(listing@)[k]),
                None => false,
            },
        },
{
    let files = files_in(listing);
    let ghost positions = file_positions(listing@);
    let ghost names = file_names(listing@);
    proof {
        lemma_file_positions(listing@);
    }
    let mut numbers: Vec<i32> = Vec::new();
    let mut k: usize = 0;
    assert(names.take(0) =~= Seq::<Seq<char>>::empty());
    while k < files.len()
        invariant
            k <= files@.len(),
            files@.len() == positions.len(),
            positions == file_positions(listing@),
            names == file_names(listing@),
            forall|i: int| 0 <= i < files@.len() ==> (#[trigger] files@[i]) as int == positions[i],
            forall|i: int|
                0 <= i < positions.len() ==> 0 <= (#[trigger] positions[i]) < listing@.len(),
            first_unusable(names.take(k as int)).is_none(),
            numbers@.len() == k,
            forall|i: int| 0 <= i < k ==> (#[trigger] numbers@[i]) as int == page_numbers(names)[i],
        decreases files@.len() - k,
    {
        let position = files[k];
        assert(position as int == positions[k as int]);
        let name = listing[position].name();
        assert(name@ == names[k as int]);
        proof {
            let t = names.take(k + 1);
            assert(t.drop_last() =~= names.take(k as int));
            assert(t.last() == names[k as int]);
        }
        let number = page_number(name);
        let extension = file_extension(name);
        if number.is_none() || extension.is_none() {
            proof {
                lemma_first_unusable_extends(names, k as int + 1);
            }
            return Err(
                StepError {
                    kind: ErrorKind::AssemblyIoFailure,
                    detail: concat2("Unusable page file name: ", name),
                },
            );
        }
        numbers.push(number.unwrap());
        k += 1;
    }
    assert(names.take(files@.len() as int) =~= names);
    let order = page_order(&numbers);
    let ghost reading = reading_order(page_numbers(names));
    proof {
        assert(numbers_of(numbers@) =~= page_numbers(names));
        lemma_reading_order(page_numbers(names));
        assert(order@.len() == reading.len()) by {
            assert(positions_of(order@).len() == order@.len());
        }
        assert forall|j: int| 0 <= j < order@.len() implies (#[trigger] order@[j]) as int
            == reading[j] by {
            assert(positions_of(order@)[j] == order@[j] as int);
        }
        lemma_first_unusable(names);
    }
    let id_text = decimal_string(chapter);
    let mut pages: Vec<PagePlan> = Vec::new();
    let mut tags = String::new();
    let ghost wanted = pages_of(chapter as int, listing@);
    let mut j: usize = 0;
    assert(wanted.take(0) =~= Seq::<PageView>::empty());
    while j < order.len()
        invariant
            j <= order@.len(),
            order@.len() == reading.len(),
            reading == reading_order(page_numbers(names)),
            reading.len() == names.len(),
            names == file_names(listing@),
            positions == file_positions(listing@),
            files@.len() == positions.len(),
            names.len() == positions.len(),
            wanted == pages_of(chapter as int, listing@),
            id_text@ == decimal(chapter as int),
            forall|i: int| 0 <= i < order@.len() ==> (#[trigger] order@[i]) as int == reading[i],
            forall|i: int| 0 <= i < reading.len() ==> 0 <= (#[trigger] reading[i]) < names.len(),
            forall|i: int| 0 <= i < files@.len() ==> (#[trigger] files@[i]) as int == positions[i],
            forall|i: int|
                0 <= i < positions.len() ==> 0 <= (#[trigger] positions[i]) < listing@.len(),
            forall|i: int| 0 <= i < names.len() ==> is_page_name(#[trigger] names[i]),
            pages@.len() == j,
            forall|i: int| 0 <= i < j ==> (#[trigger] pages@[i])@ == wanted[i],
            tags@ == image_tags(wanted.take(j as int)),
        decreases order@.len() - j,
    {
        let which = order[j];
        assert(which as int == reading[j as int]);
        let position = files[which];
        assert(position as int == positions[which as int]);
        let name = listing[position].name();
        assert(name@ == names[which as int]);
        assert(is_page_name(names[which as int]));
        let path = concat3(id_text.as_str(), "/", name);
        let extension = file_extension(name);
        let mime = concat2("image/", extension.unwrap());
        proof {
            let t = wanted.take(j + 1);
            assert(t.drop_last() =~= wanted.take(j as int));
            assert(t.last() == wanted[j as int]);
            assert(wanted[j as int].path == path@);
        }
        tags.append("<img src=\"");
        tags.append(path.as_str());
        tags.append("\" />\n");
        pages.push(PagePlan { source: position, path, mime });
        assert(tags@ =~= image_tags(wanted.take(j + 1)));
        j += 1;
    }
    assert(wanted.take(order@.len() as int) =~= wanted);
    let mut markup = String::from_str(
        "<?xml version='1.0' encoding='utf-8'?>\n<html xmlns=\"http://www.w3.org/1999/xhtml\">\n<head/><body>\n",
    );
    markup.append("<h1>");
    markup.append(title);
    markup.append("</h1>\n");
    markup.append(tags.as_str());
    markup.append("</body>\n</html>");
    let plan = ChapterPlan { title: String::from_str(title), pages, markup };
    assert(plan@.pages =~= wanted);
    assert(plan@.markup =~= section_markup(title@, wanted));
    Ok(plan)
}

/// A name that cannot serve as a page, with usable names before it, is the
/// first unusable name of every longer sequence of names.
pub proof fn lemma_first_unusable_extends(names: Seq<Seq<char>>, n: int)
    requires
        0 < n <= names.len(),
        first_unusable(names.take(n - 1)).is_none(),
        !is_page_name(names[n - 1]),
    ensures
        first_unusable(names) == Some(n - 1),
    decreases names.len() - n,
{
    if n == names.len() {
        assert(names.take(n) =~= names);
        assert(names.drop_last() =~= names.take(n - 1));
    } else {
        assert(names.drop_last().take(n - 1) =~= names.take(n - 1));
        lemma_first_unusable_extends(names.drop_last(), n);
    }
}

} // verus!
