//! The extraction pass: discovery, resolution of each entry with failures
//! isolated, and the size limit, which aborts the whole pass.
use vstd::prelude::*;
use crate::config::ExtractorConfig;
use crate::discovery::{
    discovered, entries_view, name_tree_entries, pages_entries_from, FileSpecDiscovery,
    FileSpecEntry,
};
use crate::embedded::{EmbeddedFile, EmbeddedFileView};
use crate::error::ExtractError;
use crate::object::{ObjectRef, PdfDocument};
use crate::resolver::{fails_for, resolved, FileSpecParser};

verus! {

pub open spec fn files_view(s: Seq<EmbeddedFile>) -> Seq<EmbeddedFileView> {
    s.map_values(|f: EmbeddedFile| f@)
}

/// The file is longer than the limit, when there is one.
pub open spec fn exceeds(f: EmbeddedFileView, max: Option<usize>) -> bool {
    match max {
        Some(m) => f.data.len() > m,
        None => false,
    }
}

/// The files resolved from the entries at and after `i`, in order; entries
/// that fail to resolve are left out, and the first resolved file over the
/// limit turns the whole result into `FileSizeExceeded`.
pub open spec fn collect_from(
    doc: PdfDocument,
    entries: Seq<(Seq<char>, ObjectRef)>,
    i: int,
    max: Option<usize>,
) -> Result<Seq<EmbeddedFileView>, ExtractError>
    decreases entries.len() - i,
{
    if i < 0 || i >= entries.len() {
        Ok(Seq::empty())
    } else {
        match resolved(doc, entries[i].0, entries[i].1) {
            None => collect_from(doc, entries, i + 1, max),
            Some(f) => if exceeds(f, max) {
                Err(ExtractError::FileSizeExceeded)
            } else {
                match collect_from(doc, entries, i + 1, max) {
                    Ok(rest) => Ok(seq![f] + rest),
                    Err(e) => Err(e),
                }
            },
        }
    }
}

/// The outcome of extracting from `doc` with the size limit `max`.
pub open spec fn extraction(doc: PdfDocument, max: Option<usize>) -> Result<
    Seq<EmbeddedFileView>,
    ExtractError,
> {
    let entries = discovered(doc);
    if entries.len() == 0 {
        Err(ExtractError::NoEmbeddedFiles)
    } else {
        match collect_from(doc, entries, 0, max) {
            Ok(files) => if files.len() == 0 {
                Err(ExtractError::NoEmbeddedFiles)
            } else {
                Ok(files)
            },
            Err(e) => Err(e),
        }
    }
}

/// `done` followed by what `rest` holds.
pub open spec fn after(done: Seq<EmbeddedFileView>, rest: Result<Seq<EmbeddedFileView>, ExtractError>) -> Result<
    Seq<EmbeddedFileView>,
    ExtractError,
> {
    match rest {
        Ok(fs) => Ok(done + fs),
        Err(e) => Err(e),
    }
}

/// An executable outcome that is the outcome `spec`.
pub open spec fn outcome_is(
    r: Result<Vec<EmbeddedFile>, ExtractError>,
    spec: Result<Seq<EmbeddedFileView>, ExtractError>,
) -> bool {
    match (r, spec) {
        (Ok(v), Ok(fs)) => files_view(v@) == fs,
        (Err(e), Err(se)) => e == se,
        _ => false,
    }
}

/// The discovery names of the entries at and after `i` that fail to resolve,
/// in order.
pub open spec fn failing_names(doc: PdfDocument, entries: Seq<(Seq<char>, ObjectRef)>, i: int) -> Seq<
    Seq<char>,
>
    decreases entries.len() - i,
{
    if i < 0 || i >= entries.len() {
        Seq::empty()
    } else {
        match resolved(doc, entries[i].0, entries[i].1) {
            None => seq![entries[i].0] + failing_names(doc, entries, i + 1),
            Some(_) => failing_names(doc, entries, i + 1),
        }
    }
}

/// Runs discovery, resolution and the size policy over one document.
pub struct ExtractionEngine<'a> {
    document: &'a PdfDocument,
    config: &'a ExtractorConfig,
}

impl<'a> ExtractionEngine<'a> {
    pub fn new(document: &'a PdfDocument, config: &'a ExtractorConfig) -> (r: Self)
        ensures
            r.doc() == *document,
            r.cfg() == *config,
    {
        ExtractionEngine { document, config }
    }

    pub closed spec fn doc(&self) -> PdfDocument {
        *self.document
    }

    pub closed spec fn cfg(&self) -> ExtractorConfig {
        *self.config
    }

    /// Every discovered specification, in discovery order.
    fn discover_file_specs(&self) -> (r: Vec<FileSpecEntry>)
        ensures
            entries_view(r@) == discovered(self.doc()),
    {
        match FileSpecDiscovery::new(self.document).collect_file_specs() {
            Ok(v) => v,
            Err(_) => Vec::new(),
        }
    }

    /// How many specifications are discovered.
    pub fn count_files(&self) -> (r: Result<usize, ExtractError>)
        ensures
            r matches Ok(n) && n == discovered(self.doc()).len(),
    {
        Ok(self.discover_file_specs().len())
    }

    /// Whether any specification is discovered.
    pub fn has_files(&self) -> (r: Result<bool, ExtractError>)
        ensures
            r == Ok::<bool, ExtractError>(discovered(self.doc()).len() > 0),
    {
        Ok(self.discover_file_specs().len() > 0)
    }

    /// `FileSizeExceeded` when the file is longer than the configured limit.
    fn validate_file_size(&self, file: &EmbeddedFile) -> (r: Result<(), ExtractError>)
        ensures
            match r {
                Ok(_) => !exceeds(file@, self.cfg().max_embedded_file_size),
                Err(e) => exceeds(file@, self.cfg().max_embedded_file_size)
                    && e == ExtractError::FileSizeExceeded,
            },
    {
        match self.config.max_embedded_file_size {
            Some(max) => if file.data.len() > max {
                Err(ExtractError::FileSizeExceeded)
            } else {
                Ok(())
            },
            None => Ok(()),
        }
    }

    /// Resolves each entry in order, leaving out those that fail; the first
    /// resolved file over the limit aborts with `FileSizeExceeded`.
    fn parse_and_process_files(&self, specs: &Vec<FileSpecEntry>) -> (r: Result<
        Vec<EmbeddedFile>,
        ExtractError,
    >)
        ensures
            outcome_is(
                r,
                collect_from(
                    self.doc(),
                    entries_view(specs@),
                    0,
                    self.cfg().max_embedded_file_size,
                ),
            ),
    {
        let parser = FileSpecParser::new(self.document);
        let ghost entries = entries_view(specs@);
        let ghost max = self.cfg().max_embedded_file_size;
        let mut results: Vec<EmbeddedFile> = Vec::new();
        let mut i: usize = 0;
        while i < specs.len()
            invariant
                0 <= i <= specs@.len(),
                parser.doc() == self.doc(),
                entries == entries_view(specs@),
                max == self.cfg().max_embedded_file_size,
                collect_from(self.doc(), entries, 0, max) == after(
                    files_view(results@),
                    collect_from(self.doc(), entries, i as int, max),
                ),
            decreases specs@.len() - i,
        {
            let entry = &specs[i];
            assert(entries[i as int] == entry@);
            match parser.parse_file_spec(entry.name.as_str(), entry.reference) {
                Err(_) => {},
                Ok(file) => {
                    match self.validate_file_size(&file) {
                        Err(e) => {
                            return Err(e);
                        },
                        Ok(_) => {},
                    }
                    let ghost before = files_view(results@);
                    results.push(file);
                    assert(files_view(results@) =~= before.push(file@));
                    assert(forall|rest: Seq<EmbeddedFileView>|
                        before + (seq![file@] + rest) =~= #[trigger] (before.push(file@) + rest));
                },
            }
            i = i + 1;
        }
        assert(files_view(results@) + Seq::empty() =~= files_view(results@));
        Ok(results)
    }

    /// The error of each discovered entry that fails to resolve, in discovery
    /// order: what an extraction leaves out.
    pub fn skipped_files(&self) -> (r: Vec<ExtractError>)
        ensures
            r@.len() == failing_names(self.doc(), discovered(self.doc()), 0).len(),
            forall|k: int|
                0 <= k < r@.len() ==> fails_for(
                    #[trigger] r@[k],
                    failing_names(self.doc(), discovered(self.doc()), 0)[k],
                ),
    {
        let specs = self.discover_file_specs();
        let parser = FileSpecParser::new(self.document);
        let ghost entries = entries_view(specs@);
        let ghost all = failing_names(self.doc(), entries, 0);
        let ghost mut done: Seq<Seq<char>> = Seq::empty();
        let mut skipped: Vec<ExtractError> = Vec::new();
        let mut i: usize = 0;
        while i < specs.len()
            invariant
                0 <= i <= specs@.len(),
                parser.doc() == self.doc(),
                entries == entries_view(specs@),
                all == failing_names(self.doc(), entries, 0),
                all == done + failing_names(self.doc(), entries, i as int),
                skipped@.len() == done.len(),
                forall|k: int| 0 <= k < done.len() ==> fails_for(#[trigger] skipped@[k], done[k]),
            decreases specs@.len() - i,
        {
            let entry = &specs[i];
            assert(entries[i as int] == entry@);
            match parser.parse_file_spec(entry.name.as_str(), entry.reference) {
                Err(e) => {
                    skipped.push(e);
                    proof {
                        let rest = failing_names(self.doc(), entries, i + 1);
                        assert(done + (seq![entry.name@] + rest) =~= done.push(entry.name@) + rest);
                        done = done.push(entry.name@);
                    }
                },
                Ok(_) => {},
            }
            i = i + 1;
        }
        assert(done + failing_names(self.doc(), entries, i as int) =~= done);
        skipped
    }

    /// Extracts every attachment that resolves, in discovery order.
    /// `NoEmbeddedFiles` when nothing is discovered or nothing resolves;
    /// `FileSizeExceeded` as soon as a resolved file is over the limit.
    pub fn extract_all_files(&self) -> (r: Result<Vec<EmbeddedFile>, ExtractError>)
        ensures
            outcome_is(r, extraction(self.doc(), self.cfg().max_embedded_file_size)),
    {
        let specs = self.discover_file_specs();
        if specs.len() == 0 {
            return Err(ExtractError::NoEmbeddedFiles);
        }
        let files = self.parse_and_process_files(&specs)?;
        if files.len() == 0 {
            return Err(ExtractError::NoEmbeddedFiles);
        }
        Ok(files)
    }
}

/// A document with an empty name tree and no file-attachment annotations
/// yields `NoEmbeddedFiles`.
pub proof fn lemma_no_sources_no_files(doc: PdfDocument, max: Option<usize>)
    requires
        name_tree_entries(doc).len() == 0,
        pages_entries_from(doc, doc.pages@, 0).len() == 0,
    ensures
        extraction(doc, max) == Err::<Seq<EmbeddedFileView>, ExtractError>(
            ExtractError::NoEmbeddedFiles,
        ),
{
}

proof fn lemma_collect_aborts(
    doc: PdfDocument,
    entries: Seq<(Seq<char>, ObjectRef)>,
    i: int,
    k: int,
    max: Option<usize>,
)
    requires
        0 <= i <= k < entries.len(),
        resolved(doc, entries[k].0, entries[k].1) matches Some(f) && exceeds(f, max),
    ensures
        collect_from(doc, entries, i, max) == Err::<Seq<EmbeddedFileView>, ExtractError>(
            ExtractError::FileSizeExceeded,
        ),
    decreases k - i,
{
    if i < k {
        lemma_collect_aborts(doc, entries, i + 1, k, max);
    }
}

/// The size limit fails fast: when any discovered entry resolves to a file
/// over the limit, the whole extraction is `FileSizeExceeded`, whatever the
/// entries before it hold.
pub proof fn lemma_oversized_aborts(doc: PdfDocument, max: Option<usize>, k: int)
    requires
        0 <= k < discovered(doc).len(),
        resolved(doc, discovered(doc)[k].0, discovered(doc)[k].1) matches Some(f) && exceeds(
            f,
            max,
        ),
    ensures
        extraction(doc, max) == Err::<Seq<EmbeddedFileView>, ExtractError>(
            ExtractError::FileSizeExceeded,
        ),
{
    lemma_collect_aborts(doc, discovered(doc), 0, k, max);
}

proof fn lemma_collect_succeeds(
    doc: PdfDocument,
    entries: Seq<(Seq<char>, ObjectRef)>,
    i: int,
    k: int,
    max: Option<usize>,
)
    requires
        0 <= i <= entries.len(),
        forall|j: int|
            0 <= j < entries.len() ==> (#[trigger] resolved(doc, entries[j].0, entries[j].1)
                matches Some(f) ==> !exceeds(f, max)),
    ensures
        collect_from(doc, entries, i, max) is Ok,
        i <= k < entries.len() && resolved(doc, entries[k].0, entries[k].1) is Some
            ==> collect_from(doc, entries, i, max)->Ok_0.len() > 0,
    decreases entries.len() - i,
{
    if i < entries.len() {
        lemma_collect_succeeds(doc, entries, i + 1, k, max);
    }
}

/// Failures are isolated: when no resolved file is over the limit, an entry
/// that fails to resolve (an `EF` with neither `F` nor `UF`, say) is left
/// out, and extraction succeeds as soon as one other entry resolves.
pub proof fn lemma_failures_skipped(doc: PdfDocument, max: Option<usize>, k: int)
    requires
        0 <= k < discovered(doc).len(),
        resolved(doc, discovered(doc)[k].0, discovered(doc)[k].1) is Some,
        forall|j: int|
            0 <= j < discovered(doc).len() ==> (#[trigger] resolved(
                doc,
                discovered(doc)[j].0,
                discovered(doc)[j].1,
            ) matches Some(f) ==> !exceeds(f, max)),
    ensures
        extraction(doc, max) matches Ok(files) && files.len() > 0,
{
    lemma_collect_succeeds(doc, discovered(doc), 0, k, max);
}

} // verus!
