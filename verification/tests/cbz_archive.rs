use std::io::Read;

use chapter_export::assets::{ChapterAssets, DirNode};
use chapter_export::cbz::assemble_cbz;
use chapter_export::error::{ErrorKind, StepError};
use chapter_export::job::Export;

fn file(name: &str, data: &[u8]) -> DirNode {
    DirNode::File { name: name.to_string(), data: data.to_vec() }
}

fn dir(name: &str, entries: Vec<DirNode>) -> DirNode {
    DirNode::Dir { name: name.to_string(), entries }
}

/// The entries of an archive in order: name, whether stored, and bytes.
fn entries(bytes: Vec<u8>) -> Vec<(String, bool, Vec<u8>)> {
    let mut archive = zip::ZipArchive::new(std::io::Cursor::new(bytes)).unwrap();
    let mut found = Vec::new();
    for i in 0..archive.len() {
        let mut entry = archive.by_index(i).unwrap();
        let mut data = Vec::new();
        entry.read_to_end(&mut data).unwrap();
        found.push((
            entry.name().to_string(),
            entry.compression() == zip::CompressionMethod::Stored,
            data,
        ));
    }
    found
}

fn entry(name: &str, stored: bool, data: &[u8]) -> (String, bool, Vec<u8>) {
    (name.to_string(), stored, data.to_vec())
}

#[test]
fn cbz_holds_descriptions_and_the_trees_of_the_chapters() {
    let job = Export::draft(3, "My \"Book\"", "A\\B", 0);
    let chapters = vec![
        ChapterAssets {
            id: 101,
            name: "Chapter\tOne".to_string(),
            listing: Ok(vec![
                file("2.png", b"two"),
                dir("extras", vec![file("note.txt", b"n"), dir("deep", vec![file("x.bin", &[0, 255])])]),
                file("1.png", b"one"),
            ]),
        },
        ChapterAssets { id: 102, name: "Zwei é".to_string(), listing: Ok(vec![]) },
    ];
    let assembled = assemble_cbz(&job, &chapters).unwrap();
    assert!(assembled.log.is_empty());
    assert_eq!(
        entries(assembled.bytes),
        vec![
            entry(
                "metadata.json",
                false,
                "{\"title\":\"My \\\"Book\\\"\",\"author\":\"A\\\\B\"}".as_bytes()
            ),
            entry("101/info.json", false, "{\"id\":101,\"title\":\"Chapter\\tOne\"}".as_bytes()),
            entry("101/2.png", true, b"two"),
            entry("101/extras/note.txt", true, b"n"),
            entry("101/extras/deep/x.bin", true, &[0, 255]),
            entry("101/1.png", true, b"one"),
            entry("102/info.json", false, "{\"id\":102,\"title\":\"Zwei é\"}".as_bytes()),
        ]
    );
}

#[test]
fn cbz_descriptions_are_what_serde_writes() {
    let job = Export::draft(3, "T", "A", 0);
    let chapters = vec![ChapterAssets { id: -7, name: "N".to_string(), listing: Ok(vec![]) }];
    let found = entries(assemble_cbz(&job, &chapters).unwrap().bytes);
    let book: serde_json::Value = serde_json::from_slice(&found[0].2).unwrap();
    assert_eq!(book["title"], "T");
    assert_eq!(book["author"], "A");
    let chapter: serde_json::Value = serde_json::from_slice(&found[1].2).unwrap();
    assert_eq!(chapter["id"], -7);
    assert_eq!(chapter["title"], "N");
    assert_eq!(found[1].0, "-7/info.json");
}

#[test]
fn cbz_of_no_chapters_holds_the_description_of_the_book() {
    let job = Export::draft(3, "Alone", "Nobody", 0);
    let assembled = assemble_cbz(&job, &vec![]).unwrap();
    assert_eq!(
        entries(assembled.bytes),
        vec![entry("metadata.json", false, b"{\"title\":\"Alone\",\"author\":\"Nobody\"}")]
    );
}

#[test]
fn unreadable_chapter_fails_the_cbz_before_anything_is_packed() {
    let job = Export::draft(3, "T", "A", 0);
    let chapters = vec![
        ChapterAssets { id: 1, name: "One".to_string(), listing: Ok(vec![file("1.png", b"1")]) },
        ChapterAssets { id: 2, name: "Two".to_string(), listing: Err("Permission denied".to_string()) },
        ChapterAssets { id: 3, name: "Three".to_string(), listing: Err("gone".to_string()) },
    ];
    assert_eq!(
        assemble_cbz(&job, &chapters),
        Err(StepError {
            kind: ErrorKind::AssemblyIoFailure,
            detail: "Cannot read the assets of chapter 2: Permission denied".to_string(),
        })
    );
}

#[test]
fn file_named_twice_is_refused_by_the_archive() {
    let job = Export::draft(3, "T", "A", 0);
    let chapters = vec![ChapterAssets {
        id: 1,
        name: "One".to_string(),
        listing: Ok(vec![file("info.json", b"mine")]),
    }];
    let failure = assemble_cbz(&job, &chapters).unwrap_err();
    assert_eq!(failure.kind, ErrorKind::AssemblyIoFailure);
}

#[test]
fn name_too_long_for_an_archive_fails_the_cbz_before_anything_is_packed() {
    let job = Export::draft(3, "T", "A", 0);
    let long = "x".repeat(65_535);
    let chapters = vec![
        ChapterAssets { id: 1, name: "One".to_string(), listing: Ok(vec![file("1.png", b"1")]) },
        ChapterAssets {
            id: 2,
            name: "Two".to_string(),
            listing: Ok(vec![dir("d", vec![file("ok.png", b"1"), file(&long, b"2")]), file(&long, b"3")]),
        },
    ];
    assert_eq!(
        assemble_cbz(&job, &chapters),
        Err(StepError {
            kind: ErrorKind::AssemblyIoFailure,
            detail: format!("File name too long for the archive: 2/d/{}", long),
        })
    );
}

#[test]
fn longest_name_that_an_archive_takes_is_packed() {
    let job = Export::draft(3, "T", "A", 0);
    let longest = "y".repeat(65_535 - 2);
    let chapters =
        vec![ChapterAssets { id: 7, name: "One".to_string(), listing: Ok(vec![file(&longest, b"1")]) }];
    let found = entries(assemble_cbz(&job, &chapters).unwrap().bytes);
    assert_eq!(found.len(), 3);
    assert_eq!(found[2], entry(&format!("7/{}", longest), true, b"1"));
    let too_long = "é".repeat(32_767);
    let chapters =
        vec![ChapterAssets { id: 7, name: "One".to_string(), listing: Ok(vec![file(&too_long, b"1")]) }];
    assert_eq!(
        assemble_cbz(&job, &chapters),
        Err(StepError {
            kind: ErrorKind::AssemblyIoFailure,
            detail: format!("File name too long for the archive: 7/{}", too_long),
        })
    );
}

#[test]
fn unreadable_chapter_is_reported_before_a_name_too_long() {
    let job = Export::draft(3, "T", "A", 0);
    let long = "x".repeat(70_000);
    let chapters = vec![
        ChapterAssets { id: 1, name: "One".to_string(), listing: Ok(vec![file(&long, b"1")]) },
        ChapterAssets { id: 2, name: "Two".to_string(), listing: Err("gone".to_string()) },
    ];
    assert_eq!(
        assemble_cbz(&job, &chapters),
        Err(StepError {
            kind: ErrorKind::AssemblyIoFailure,
            detail: "Cannot read the assets of chapter 2: gone".to_string(),
        })
    );
}

#[test]
fn descriptions_escape_what_a_json_string_cannot_hold() {
    let title = "q\" b\\ \u{0}\u{1}\u{8}\t\n\u{b}\u{c}\r\u{1f} /\u{7f}é\u{2028}";
    let job = Export::draft(3, title, "", 0);
    let found = entries(assemble_cbz(&job, &vec![]).unwrap().bytes);
    assert_eq!(
        String::from_utf8(found[0].2.clone()).unwrap(),
        "{\"title\":\"q\\\" b\\\\ \\u0000\\u0001\\b\\t\\n\\u000b\\f\\r\\u001f /\u{7f}é\u{2028}\",\"author\":\"\"}"
    );
    let back: serde_json::Value = serde_json::from_slice(&found[0].2).unwrap();
    assert_eq!(back["title"], title);
}
