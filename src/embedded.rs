//! Resolved attachments and their metadata.
use vstd::prelude::*;
use crate::text::{
    ascii_eq_ignore_case, ascii_lower, ascii_lowercase, contains_text, eq_ignore_ascii_case,
    has_infix, opt_text, path_extension, path_extension_of, portable_path,
};

verus! {

/// A file embedded in a PDF document.
#[derive(Debug, Clone)]
pub struct EmbeddedFile {
    /// Display name: the Unicode name preferred over the ASCII one.
    pub filename: String,
    /// The decoded content.
    pub data: Vec<u8>,
    /// What the specification and the stream parameters declare.
    pub metadata: EmbeddedFileMetadata,
}

/// Optional metadata of an attachment, as declared (never recomputed).
#[derive(Debug, Clone)]
pub struct EmbeddedFileMetadata {
    /// MIME type from the specification's `Subtype` name, lower-cased.
    pub mime_type: Option<String>,
    /// Description from `Desc`.
    pub description: Option<String>,
    /// `Params/ModDate`.
    pub modification_date: Option<String>,
    /// `Params/CreationDate`.
    pub creation_date: Option<String>,
    /// Declared size from `Params/Size`.
    pub size: Option<usize>,
    /// `Params/CheckSum`, hex encoded.
    pub checksum: Option<String>,
}

pub open spec fn opt_string(o: Option<String>) -> Option<Seq<char>> {
    match o {
        Some(s) => Some(s@),
        None => None,
    }
}

/// The metadata as plain values.
pub struct MetadataView {
    pub mime_type: Option<Seq<char>>,
    pub description: Option<Seq<char>>,
    pub modification_date: Option<Seq<char>>,
    pub creation_date: Option<Seq<char>>,
    pub size: Option<usize>,
    pub checksum: Option<Seq<char>>,
}

/// An attachment as plain values.
pub struct EmbeddedFileView {
    pub filename: Seq<char>,
    pub data: Seq<u8>,
    pub metadata: MetadataView,
}

impl View for EmbeddedFileMetadata {
    type V = MetadataView;

    open spec fn view(&self) -> MetadataView {
        MetadataView {
            mime_type: opt_string(self.mime_type),
            description: opt_string(self.description),
            modification_date: opt_string(self.modification_date),
            creation_date: opt_string(self.creation_date),
            size: self.size,
            checksum: opt_string(self.checksum),
        }
    }
}

impl View for EmbeddedFile {
    type V = EmbeddedFileView;

    open spec fn view(&self) -> EmbeddedFileView {
        EmbeddedFileView { filename: self.filename@, data: self.data@, metadata: self.metadata@ }
    }
}

/// The declared MIME type mentions XML, in any letter case.
pub open spec fn mime_is_xml(m: Option<Seq<char>>) -> bool {
    match m {
        Some(t) => has_infix(ascii_lower(t), "xml"@),
        None => false,
    }
}

/// The declared MIME type equals `wanted`, ASCII letters compared without case.
pub open spec fn mime_matches(m: Option<Seq<char>>, wanted: Seq<char>) -> bool {
    match m {
        Some(t) => ascii_eq_ignore_case(t, wanted),
        None => false,
    }
}

/// The file name has an extension equal to `ext`, compared without case.
pub open spec fn extension_matches(name: Seq<char>, ext: Seq<char>) -> bool {
    match path_extension_of(name) {
        Some(e) => ascii_eq_ignore_case(e, ext),
        None => false,
    }
}

impl EmbeddedFile {
    /// The text after the last dot of the file name's final component, if
    /// any (a leading dot alone gives none).
    pub fn extension(&self) -> (r: Option<&str>)
        ensures
            portable_path(self.filename@) ==> opt_text(r) == path_extension_of(self.filename@),
    {
        path_extension(self.filename.as_str())
    }

    /// True when the extension equals `ext`, ASCII letters compared without case.
    pub fn has_extension(&self, ext: &str) -> (r: bool)
        ensures
            portable_path(self.filename@) ==> r == extension_matches(self.filename@, ext@),
    {
        match self.extension() {
            Some(e) => eq_ignore_ascii_case(e, ext),
            None => false,
        }
    }
}

impl EmbeddedFileMetadata {
    /// True when the declared MIME type contains `xml`, in any letter case.
    pub fn is_xml(&self) -> (r: bool)
        ensures
            r == mime_is_xml(self@.mime_type),
    {
        match &self.mime_type {
            Some(m) => {
                let lower = ascii_lowercase(m.as_str());
                contains_text(lower.as_str(), "xml")
            },
            None => false,
        }
    }

    /// True when the declared MIME type equals `mime_type`, ASCII letters
    /// compared without case.
    pub fn has_mime_type(&self, mime_type: &str) -> (r: bool)
        ensures
            r == mime_matches(self@.mime_type, mime_type@),
    {
        match &self.mime_type {
            Some(m) => eq_ignore_ascii_case(m.as_str(), mime_type),
            None => false,
        }
    }
}

impl Default for EmbeddedFileMetadata {
    fn default() -> (r: Self)
        ensures
            r.mime_type is None,
            r.description is None,
            r.modification_date is None,
            r.creation_date is None,
            r.size is None,
            r.checksum is None,
    {
        EmbeddedFileMetadata {
            mime_type: None,
            description: None,
            modification_date: None,
            creation_date: None,
            size: None,
            checksum: None,
        }
    }
}

} // verus!
