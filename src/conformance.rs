//! PDF/A conformance read from the XMP metadata stream by pattern matching,
//! and the structural check of a document.
use vstd::prelude::*;
use crate::config::ExtractorConfig;
use crate::embedded::opt_string;
use crate::error::ExtractError;
use crate::object::{key, PdfDocument, PdfObject, PdfStream};
use crate::resolver::{plain_content, plain_stream_content};
use crate::text::{contains_text, has_infix, lossy_text, opt_text, utf8_lossy};

verus! {

/// `name="value"`.
pub open spec fn attribute_form(name: Seq<char>, value: Seq<char>) -> Seq<char> {
    name + "=\""@ + value + "\""@
}

/// `<name>value</name>`.
pub open spec fn element_form(name: Seq<char>, value: Seq<char>) -> Seq<char> {
    "<"@ + name + ">"@ + value + "</"@ + name + ">"@
}

/// The XMP text gives `name` the value `value`, in attribute or element form.
pub open spec fn declares(xmp: Seq<char>, name: Seq<char>, value: Seq<char>) -> bool {
    has_infix(xmp, attribute_form(name, value)) || has_infix(xmp, element_form(name, value))
}

/// The conformance level: the first of `A`, `B`, `U` that is declared.
pub open spec fn level_letter(xmp: Seq<char>) -> Option<Seq<char>> {
    if declares(xmp, "pdfaid:conformance"@, "A"@) {
        Some("A"@)
    } else if declares(xmp, "pdfaid:conformance"@, "B"@) {
        Some("B"@)
    } else if declares(xmp, "pdfaid:conformance"@, "U"@) {
        Some("U"@)
    } else {
        None
    }
}

/// The part: the first of `3`, `2`, `1` that is declared.
pub open spec fn part_number(xmp: Seq<char>) -> Option<Seq<char>> {
    if declares(xmp, "pdfaid:part"@, "3"@) {
        Some("3"@)
    } else if declares(xmp, "pdfaid:part"@, "2"@) {
        Some("2"@)
    } else if declares(xmp, "pdfaid:part"@, "1"@) {
        Some("1"@)
    } else {
        None
    }
}

/// Part 3 is declared together with a recognised level.
pub open spec fn declares_pdfa3(xmp: Seq<char>) -> bool {
    declares(xmp, "pdfaid:part"@, "3"@) && level_letter(xmp) is Some
}

/// `PDF/A-<part><level>`, when both are recognised.
pub open spec fn level_text(xmp: Seq<char>) -> Option<Seq<char>> {
    match (part_number(xmp), level_letter(xmp)) {
        (Some(p), Some(l)) => Some("PDF/A-"@ + p + l),
        _ => None,
    }
}

/// The metadata stream: the stream that the catalog's `Metadata` refers to.
pub open spec fn metadata_stream(doc: PdfDocument) -> Option<PdfStream> {
    match doc.catalog() {
        Some(cat) => match cat.value(key("Metadata")) {
            Some(PdfObject::Reference(m)) => match doc.object(m) {
                Some(PdfObject::Stream(s)) => Some(s),
                _ => None,
            },
            _ => None,
        },
        None => None,
    }
}

/// The XMP text of a document: its metadata stream (as stored when it has
/// no filter, else decoded) read as UTF-8, invalid sequences replaced.
pub open spec fn xmp_text(doc: PdfDocument) -> Option<Seq<char>> {
    match metadata_stream(doc) {
        Some(s) => match plain_content(s) {
            Some(b) => Some(lossy_text(b)),
            None => None,
        },
        None => None,
    }
}

/// The document has a catalog, at least one page and a non-empty trailer.
pub open spec fn well_formed(doc: PdfDocument) -> bool {
    doc.catalog() is Some && doc.pages@.len() > 0 && doc.trailer.entries@.len() > 0
}

/// The message of the first structural check that fails, in the order
/// catalog, pages, trailer.
pub open spec fn structure_problem(doc: PdfDocument) -> Option<Seq<char>> {
    if doc.catalog() is None {
        Some("missing or invalid catalog"@)
    } else if doc.pages@.len() == 0 {
        Some("document has no pages"@)
    } else if doc.trailer.entries@.len() == 0 {
        Some("missing trailer dictionary"@)
    } else {
        None
    }
}

/// A `NotPdfA3` error whose cause is non-empty text.
pub open spec fn not_pdfa3_with_cause(e: ExtractError) -> bool {
    e matches ExtractError::NotPdfA3(m) && m@.len() > 0
}

/// True when `xmp` gives `name` the value `value` in attribute or element form.
pub fn declares_value(xmp: &str, name: &str, value: &str) -> (r: bool)
    ensures
        r == declares(xmp@, name@, value@),
{
    let attr = String::from_str(name).concat("=\"").concat(value).concat("\"");
    if contains_text(xmp, attr.as_str()) {
        return true;
    }
    let elem = String::from_str("<").concat(name).concat(">").concat(value).concat("</").concat(
        name,
    ).concat(">");
    contains_text(xmp, elem.as_str())
}

fn conformance_letter(xmp: &str) -> (r: Option<&'static str>)
    ensures
        opt_text(r) == level_letter(xmp@),
{
    if declares_value(xmp, "pdfaid:conformance", "A") {
        Some("A")
    } else if declares_value(xmp, "pdfaid:conformance", "B") {
        Some("B")
    } else if declares_value(xmp, "pdfaid:conformance", "U") {
        Some("U")
    } else {
        None
    }
}

/// True when the XMP text declares part 3 and a level among `A`, `B`, `U`.
pub fn xmp_declares_pdfa3(xmp: &str) -> (r: bool)
    ensures
        r == declares_pdfa3(xmp@),
{
    if !declares_value(xmp, "pdfaid:part", "3") {
        return false;
    }
    conformance_letter(xmp).is_some()
}

/// The level declared by the XMP text, such as `PDF/A-3B`.
pub fn extract_conformance_level(xmp: &str) -> (r: Option<String>)
    ensures
        opt_string(r) == level_text(xmp@),
{
    let part = if declares_value(xmp, "pdfaid:part", "3") {
        "3"
    } else if declares_value(xmp, "pdfaid:part", "2") {
        "2"
    } else if declares_value(xmp, "pdfaid:part", "1") {
        "1"
    } else {
        return None;
    };
    match conformance_letter(xmp) {
        Some(level) => Some(String::from_str("PDF/A-").concat(part).concat(level)),
        None => None,
    }
}

fn not_pdfa3(reason: &str) -> (e: ExtractError)
    requires
        reason@.len() > 0,
    ensures
        not_pdfa3_with_cause(e),
{
    ExtractError::NotPdfA3(String::from_str(reason))
}

fn invalid_pdf(reason: &str) -> (e: ExtractError)
    ensures
        e matches ExtractError::InvalidPdf(m) && m@ == reason@,
{
    ExtractError::InvalidPdf(String::from_str(reason))
}

/// Checks a document's structure and conformance.
pub struct PdfValidator<'a> {
    document: &'a PdfDocument,
}

impl<'a> PdfValidator<'a> {
    pub fn new(document: &'a PdfDocument) -> (r: Self)
        ensures
            r.doc() == *document,
    {
        PdfValidator { document }
    }

    /// The document checked.
    pub closed spec fn doc(&self) -> PdfDocument {
        *self.document
    }

    /// `Ok(true)` when the document has a catalog, pages and a trailer; an
    /// `InvalidPdf` error naming the first that is missing.
    pub fn validate_pdf_structure(&self) -> (r: Result<bool, ExtractError>)
        ensures
            match structure_problem(self.doc()) {
                None => r == Ok::<bool, ExtractError>(true),
                Some(m) => r matches Err(ExtractError::InvalidPdf(x)) && x@ == m,
            },
            r is Ok <==> well_formed(self.doc()),
    {
        if self.document.catalog_dict().is_none() {
            return Err(invalid_pdf("missing or invalid catalog"));
        }
        if self.document.pages.len() == 0 {
            return Err(invalid_pdf("document has no pages"));
        }
        if self.document.trailer.entries.len() == 0 {
            return Err(invalid_pdf("missing trailer dictionary"));
        }
        Ok(true)
    }

    /// Reads the XMP text: catalog, `Metadata` reference, stream, its content
    /// (decoded when it declares a filter) as UTF-8. Any failure is a
    /// `NotPdfA3` error.
    pub fn read_xmp_metadata(&self) -> (r: Result<String, ExtractError>)
        ensures
            match r {
                Ok(s) => xmp_text(self.doc()) == Some(s@),
                Err(e) => xmp_text(self.doc()) is None && not_pdfa3_with_cause(e),
            },
    {
        let catalog = match self.document.catalog_dict() {
            Some(c) => c,
            None => {
                proof {
                    reveal_strlit("cannot read catalog");
                }
                return Err(not_pdfa3("cannot read catalog"));
            },
        };
        let meta_id = match catalog.get("Metadata") {
            Some(PdfObject::Reference(m)) => *m,
            Some(_) => {
                proof {
                    reveal_strlit("/Metadata entry is not an indirect reference");
                }
                return Err(not_pdfa3("/Metadata entry is not an indirect reference"));
            },
            None => {
                proof {
                    reveal_strlit("catalog has no /Metadata entry");
                }
                return Err(not_pdfa3("catalog has no /Metadata entry"));
            },
        };
        let stream = match self.document.get_object(meta_id) {
            Some(PdfObject::Stream(s)) => s,
            Some(_) => {
                proof {
                    reveal_strlit("/Metadata object is not a stream");
                }
                return Err(not_pdfa3("/Metadata object is not a stream"));
            },
            None => {
                proof {
                    reveal_strlit("cannot resolve /Metadata object");
                }
                return Err(not_pdfa3("cannot resolve /Metadata object"));
            },
        };
        match plain_stream_content(stream) {
            Some(bytes) => Ok(utf8_lossy(bytes.as_slice())),
            None => {
                proof {
                    reveal_strlit("cannot decompress /Metadata stream");
                }
                Err(not_pdfa3("cannot decompress /Metadata stream"))
            },
        }
    }

    /// Whether the document declares PDF/A-3. In strict mode a document that
    /// does not is a `NotPdfA3` error; so is any failure to read its XMP.
    pub fn validate_pdfa3(&self, config: &ExtractorConfig) -> (r: Result<bool, ExtractError>)
        ensures
            match xmp_text(self.doc()) {
                None => r matches Err(e) && not_pdfa3_with_cause(e),
                Some(x) => if config.strict_pdfa3_validation && !declares_pdfa3(x) {
                    r matches Err(e) && not_pdfa3_with_cause(e)
                } else {
                    r == Ok::<bool, ExtractError>(declares_pdfa3(x))
                },
            },
    {
        let xmp = self.read_xmp_metadata()?;
        let is_pdfa3 = xmp_declares_pdfa3(xmp.as_str());
        if config.strict_pdfa3_validation && !is_pdfa3 {
            proof {
                reveal_strlit("document XMP does not declare PDF/A-3 conformance");
            }
            return Err(not_pdfa3("document XMP does not declare PDF/A-3 conformance"));
        }
        Ok(is_pdfa3)
    }

    /// The declared level, such as `PDF/A-3B`; none when the XMP cannot be
    /// read or declares no recognised part and level.
    pub fn conformance_level(&self) -> (r: Option<String>)
        ensures
            opt_string(r) == match xmp_text(self.doc()) {
                Some(x) => level_text(x),
                None => None,
            },
    {
        match self.read_xmp_metadata() {
            Ok(xmp) => extract_conformance_level(xmp.as_str()),
            Err(_) => None,
        }
    }
}

/// Attribute and element forms read alike: part 3 with level `B`, each
/// declared in either form, and level `A` not declared, is PDF/A-3 with the
/// level `PDF/A-3B`.
pub proof fn lemma_part3_level_b(xmp: Seq<char>)
    requires
        declares(xmp, "pdfaid:part"@, "3"@),
        declares(xmp, "pdfaid:conformance"@, "B"@),
        !declares(xmp, "pdfaid:conformance"@, "A"@),
    ensures
        declares_pdfa3(xmp),
        level_text(xmp) == Some("PDF/A-3B"@),
{
    reveal_strlit("PDF/A-");
    reveal_strlit("3");
    reveal_strlit("B");
    reveal_strlit("PDF/A-3B");
    assert("PDF/A-"@ + "3"@ + "B"@ =~= "PDF/A-3B"@);
}

/// Part 2 is never PDF/A-3: a text that declares part 2 and a recognised
/// level, and does not declare part 3, is not PDF/A-3, and its level is
/// `PDF/A-2` followed by that level.
pub proof fn lemma_part2_is_not_pdfa3(xmp: Seq<char>, level: Seq<char>)
    requires
        declares(xmp, "pdfaid:part"@, "2"@),
        !declares(xmp, "pdfaid:part"@, "3"@),
        level_letter(xmp) == Some(level),
    ensures
        !declares_pdfa3(xmp),
        level_text(xmp) == Some("PDF/A-2"@ + level),
{
    reveal_strlit("PDF/A-");
    reveal_strlit("2");
    reveal_strlit("PDF/A-2");
    assert("PDF/A-"@ + "2"@ + level =~= "PDF/A-2"@ + level);
}

} // verus!
