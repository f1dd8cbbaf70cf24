//! The archive formats a job can produce.

use vstd::prelude::*;
use crate::text::str_eq;

verus! {

/// The kind of archive a job produces.
#[derive(Debug, Clone, Copy, PartialEq, Eq, Structural)]
pub enum ExportFormat {
    /// A reflowable document archive.
    Epub,
    /// An image archive.
    Cbz,
}

impl ExportFormat {
    /// The file extension of archives in this format, as characters.
    pub open spec fn extension(self) -> Seq<char> {
        match self {
            ExportFormat::Epub => "epub"@,
            ExportFormat::Cbz => "cbz"@,
        }
    }

    /// The name shown to a reader.
    pub open spec fn label_text(self) -> Seq<char> {
        match self {
            ExportFormat::Epub => "EPUB"@,
            ExportFormat::Cbz => "CBZ"@,
        }
    }

    /// The file extension that archives in this format carry.
    pub fn to_extension(&self) -> (ext: &'static str)
        ensures
            ext@ == self.extension(),
    {
        match self {
            ExportFormat::Epub => "epub",
            ExportFormat::Cbz => "cbz",
        }
    }

    /// The name shown to a reader: `EPUB` or `CBZ`.
    pub fn label(&self) -> (text: String)
        ensures
            text@ == self.label_text(),
    {
        match self {
            ExportFormat::Epub => "EPUB".to_string(),
            ExportFormat::Cbz => "CBZ".to_string(),
        }
    }

    /// The name under which the store keeps this format. It is the extension.
    pub fn stored_name(&self) -> (name: &'static str)
        ensures
            name@ == self.extension(),
    {
        self.to_extension()
    }

    /// Reads a format back from the name the store keeps.
    pub fn from_stored_name(name: &str) -> (format: Option<ExportFormat>)
        ensures
            format == ExportFormat::named(name@),
    {
        if str_eq(name, "epub") {
            Some(ExportFormat::Epub)
        } else if str_eq(name, "cbz") {
            Some(ExportFormat::Cbz)
        } else {
            None
        }
    }

    /// The format the store keeps under `name`, if any.
    pub open spec fn named(name: Seq<char>) -> Option<ExportFormat> {
        if name == "epub"@ {
            Some(ExportFormat::Epub)
        } else if name == "cbz"@ {
            Some(ExportFormat::Cbz)
        } else {
            None
        }
    }

    /// Reading back the stored name of a format gives that format.
    pub proof fn lemma_stored_name_round_trip(self)
        ensures
            ExportFormat::named(self.extension()) == Some(self),
    {
        reveal_strlit("epub");
        reveal_strlit("cbz");
        if self == ExportFormat::Cbz {
            assert("cbz"@.len() != "epub"@.len());
        }
    }
}

} // verus!
