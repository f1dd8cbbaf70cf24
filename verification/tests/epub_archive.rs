use std::io::Read;

use chapter_export::assets::{ChapterAssets, DirNode};
use chapter_export::epub::{assemble_epub, finish_book, pack_book};
use chapter_export::error::{ErrorKind, StepError};
use chapter_export::job::Export;

fn file(name: &str, data: &[u8]) -> DirNode {
    DirNode::File { name: name.to_string(), data: data.to_vec() }
}

fn entry_text(archive: &mut zip::ZipArchive<std::io::Cursor<Vec<u8>>>, name: &str) -> String {
    let mut entry = archive.by_name(name).unwrap();
    let mut text = String::new();
    entry.read_to_string(&mut text).unwrap();
    text
}

#[test]
fn epub_holds_two_sections_with_pages_in_numeric_order() {
    let mut job = Export::draft(7, "Two Chapters", "Somebody", 0);
    job.format = chapter_export::format::ExportFormat::Epub;
    let chapters = vec![
        ChapterAssets {
            id: 101,
            name: "One".to_string(),
            listing: Ok(vec![file("3.jpg", b"c"), file("1.jpg", b"a"), file("2.jpg", b"b")]),
        },
        ChapterAssets {
            id: 102,
            name: "Two".to_string(),
            listing: Ok(vec![
                file("5.png", b"5"),
                file("4.png", b"4"),
                file("1.png", b"1"),
                file("3.png", b"3"),
                file("2.png", b"2"),
            ]),
        },
    ];
    let assembled = assemble_epub(&job, &chapters).unwrap();
    assert_eq!(assembled.log, vec!["Added chapter 101 to epub", "Added chapter 102 to epub"]);
    let mut archive = zip::ZipArchive::new(std::io::Cursor::new(assembled.bytes)).unwrap();
    let one = entry_text(&mut archive, "OEBPS/One");
    assert_eq!(
        one,
        "<?xml version='1.0' encoding='utf-8'?>\n<html xmlns=\"http://www.w3.org/1999/xhtml\">\n<head/><body>\n<h1>One</h1>\n<img src=\"101/1.jpg\" />\n<img src=\"101/2.jpg\" />\n<img src=\"101/3.jpg\" />\n</body>\n</html>"
    );
    let two = entry_text(&mut archive, "OEBPS/Two");
    assert_eq!(
        two,
        "<?xml version='1.0' encoding='utf-8'?>\n<html xmlns=\"http://www.w3.org/1999/xhtml\">\n<head/><body>\n<h1>Two</h1>\n<img src=\"102/1.png\" />\n<img src=\"102/2.png\" />\n<img src=\"102/3.png\" />\n<img src=\"102/4.png\" />\n<img src=\"102/5.png\" />\n</body>\n</html>"
    );
    assert_eq!(entry_text(&mut archive, "OEBPS/101/2.jpg"), "b");
    assert_eq!(entry_text(&mut archive, "OEBPS/102/4.png"), "4");
    let opf = entry_text(&mut archive, "OEBPS/content.opf");
    assert!(opf.contains("Two Chapters"));
    assert!(opf.contains("Somebody"));
    assert_eq!(opf.matches("<itemref").count(), 2);
}

fn chapter(id: i64, name: &str, files: Vec<DirNode>) -> ChapterAssets {
    ChapterAssets { id, name: name.to_string(), listing: Ok(files) }
}

#[test]
fn epub_carries_title_and_author_of_the_job() {
    let job = Export::draft(7, "A <Title>", "Ann & Bob", 0);
    let assembled = assemble_epub(&job, &vec![chapter(1, "One", vec![file("1.png", b"1")])]).unwrap();
    let mut archive = zip::ZipArchive::new(std::io::Cursor::new(assembled.bytes)).unwrap();
    let opf = entry_text(&mut archive, "OEBPS/content.opf");
    assert!(opf.contains("<dc:title>A &lt;Title&gt;</dc:title>"), "{}", opf);
    assert!(opf.contains("<dc:creator opf:role=\"aut\">Ann &amp; Bob</dc:creator>"), "{}", opf);
    assert_eq!(opf.matches("<dc:creator").count(), 1);
}

#[test]
fn epub_of_a_job_without_author_names_no_author() {
    let job = Export::draft(7, "Title", "", 0);
    let assembled = assemble_epub(&job, &vec![chapter(1, "One", vec![file("1.png", b"1")])]).unwrap();
    let mut archive = zip::ZipArchive::new(std::io::Cursor::new(assembled.bytes)).unwrap();
    let opf = entry_text(&mut archive, "OEBPS/content.opf");
    assert!(opf.contains("<dc:title>Title</dc:title>"), "{}", opf);
    assert_eq!(opf.matches("<dc:creator").count(), 0);
}

#[test]
fn packed_book_is_finished_into_the_same_archive_as_assembly_gives() {
    let job = Export::draft(7, "Title", "Author", 0);
    let chapters = vec![chapter(5, "Five", vec![file("2.png", b"two"), file("1.png", b"one")])];
    let (writer, log) = pack_book(&job, &chapters).unwrap();
    assert_eq!(log, vec!["Added chapter 5 to epub"]);
    let bytes = finish_book(writer).unwrap();
    let mut archive = zip::ZipArchive::new(std::io::Cursor::new(bytes)).unwrap();
    assert_eq!(entry_text(&mut archive, "OEBPS/5/1.png"), "one");
    assert_eq!(entry_text(&mut archive, "OEBPS/5/2.png"), "two");
    assert_eq!(
        entry_text(&mut archive, "OEBPS/Five"),
        "<?xml version='1.0' encoding='utf-8'?>\n<html xmlns=\"http://www.w3.org/1999/xhtml\">\n<head/><body>\n<h1>Five</h1>\n<img src=\"5/1.png\" />\n<img src=\"5/2.png\" />\n</body>\n</html>"
    );
    let failure = pack_book(&job, &vec![chapter(5, "Five", vec![file("cover.png", b"c")])]).err();
    assert_eq!(
        failure,
        Some(StepError {
            kind: ErrorKind::AssemblyIoFailure,
            detail: "Unusable page file name: cover.png".to_string(),
        })
    );
}

#[test]
fn path_too_long_for_an_archive_fails_the_epub_before_anything_is_packed() {
    let job = Export::draft(7, "Title", "Author", 0);
    let long_title = "t".repeat(65_530);
    let chapters = vec![chapter(1, "One", vec![file("1.png", b"1")]), chapter(2, &long_title, vec![])];
    assert_eq!(
        assemble_epub(&job, &chapters).err(),
        Some(StepError {
            kind: ErrorKind::AssemblyIoFailure,
            detail: format!("Path too long for the archive: {}", long_title),
        })
    );
    let long_page = format!("{}.png", "0".repeat(65_530));
    let chapters = vec![chapter(3, &long_title, vec![file("1.png", b"1"), file(&long_page, b"2")])];
    assert_eq!(
        assemble_epub(&job, &chapters).err(),
        Some(StepError {
            kind: ErrorKind::AssemblyIoFailure,
            detail: format!("Path too long for the archive: 3/{}", long_page),
        })
    );
}

#[test]
fn longest_path_that_an_archive_takes_is_packed() {
    let job = Export::draft(7, "Title", "Author", 0);
    let longest = "s".repeat(65_529);
    let assembled = assemble_epub(&job, &vec![chapter(1, &longest, vec![])]).unwrap();
    let mut archive = zip::ZipArchive::new(std::io::Cursor::new(assembled.bytes)).unwrap();
    let name = format!("OEBPS/{}", longest);
    assert!(entry_text(&mut archive, &name).contains("<h1>"));
}

#[test]
fn package_description_names_title_and_author_as_text() {
    let job = Export::draft(7, "Q \"1\" & 'x' <é> {{title}}", "a>b", 0);
    let assembled = assemble_epub(&job, &vec![chapter(1, "One", vec![])]).unwrap();
    let mut archive = zip::ZipArchive::new(std::io::Cursor::new(assembled.bytes)).unwrap();
    let opf = entry_text(&mut archive, "OEBPS/content.opf");
    assert!(
        opf.contains("<dc:title>Q \"1\" &amp; 'x' &lt;é&gt; {{title}}</dc:title>"),
        "{}",
        opf
    );
    assert!(opf.contains("<dc:creator opf:role=\"aut\">a&gt;b</dc:creator>"), "{}", opf);
}
