use extractembedfilepdf::discovery::{extract_string_from_dict, FileSpecDiscovery};
use extractembedfilepdf::object::{ObjectRef, PdfDict, PdfDocument, PdfObject, PdfStream};
use extractembedfilepdf::{ExtractError, ExtractorConfig, PdfAnalyzer};

fn r(n: u32) -> ObjectRef {
    ObjectRef { number: n, generation: 0 }
}

fn rf(n: u32) -> PdfObject {
    PdfObject::Reference(r(n))
}

fn name(s: &str) -> PdfObject {
    PdfObject::Name(s.as_bytes().to_vec())
}

fn text(s: &str) -> PdfObject {
    PdfObject::String(s.as_bytes().to_vec())
}

fn dict(entries: Vec<(&str, PdfObject)>) -> PdfDict {
    PdfDict { entries: entries.into_iter().map(|(k, v)| (k.as_bytes().to_vec(), v)).collect() }
}

fn d(entries: Vec<(&str, PdfObject)>) -> PdfObject {
    PdfObject::Dictionary(dict(entries))
}

fn stream(entries: Vec<(&str, PdfObject)>, content: &[u8]) -> PdfObject {
    PdfObject::Stream(PdfStream { dict: dict(entries), content: content.to_vec() })
}

fn flate(data: &[u8]) -> Vec<u8> {
    let mut s = lopdf::Stream::new(lopdf::Dictionary::new(), data.to_vec());
    s.compress().unwrap();
    assert!(s.dict.get(b"Filter").is_ok(), "content too short to compress");
    s.content
}

/// A document whose catalog is object 1, with one page (object 2) and the
/// given extra objects.
fn document(catalog: Vec<(&str, PdfObject)>, page: Vec<(&str, PdfObject)>, extra: Vec<(u32, PdfObject)>) -> PdfDocument {
    let mut objects = vec![(r(1), d(catalog)), (r(2), d(page))];
    for (n, o) in extra {
        objects.push((r(n), o));
    }
    PdfDocument {
        objects,
        pages: vec![r(2)],
        trailer: dict(vec![("Root", rf(1)), ("Size", PdfObject::Integer(40))]),
    }
}

fn filespec(uf: Option<&str>, f: Option<&str>, stream_id: u32) -> PdfObject {
    let mut e = vec![("Type", name("Filespec"))];
    if let Some(u) = uf {
        e.push(("UF", text(u)));
    }
    if let Some(a) = f {
        e.push(("F", text(a)));
    }
    e.push(("EF", d(vec![("F", rf(stream_id))])));
    d(e)
}

fn embedded_files_tree(pairs: Vec<(&str, u32)>) -> Vec<(&str, PdfObject)> {
    let mut arr = Vec::new();
    for (n, id) in pairs {
        arr.push(text(n));
        arr.push(rf(id));
    }
    vec![("Names", d(vec![("EmbeddedFiles", d(vec![("Names", PdfObject::Array(arr))]))]))]
}

fn names(doc: &PdfDocument) -> Vec<(String, u32)> {
    FileSpecDiscovery::new(doc)
        .collect_file_specs()
        .unwrap()
        .into_iter()
        .map(|e| (e.name, e.reference.number))
        .collect()
}

#[test]
fn no_sources_gives_no_embedded_files() {
    let doc = document(vec![("Type", name("Catalog"))], vec![("Type", name("Page"))], vec![]);
    let a = PdfAnalyzer::from_document(doc);
    assert!(matches!(a.extract_embedded_files(), Err(ExtractError::NoEmbeddedFiles)));
    assert_eq!(a.has_embedded_files().unwrap(), false);
    assert_eq!(a.count_embedded_files().unwrap(), 0);
}

#[test]
fn name_tree_leaves_then_kids_in_order() {
    let tree = vec![
        (10, d(vec![("Names", PdfObject::Array(vec![text("a"), rf(20)])), ("Kids", PdfObject::Array(vec![rf(11), rf(12)]))])),
        (11, d(vec![("Names", PdfObject::Array(vec![text("b"), rf(21), text("c"), rf(22)]))])),
        (12, d(vec![("Names", PdfObject::Array(vec![text("d"), rf(23)]))])),
    ];
    let doc = document(
        vec![("Names", d(vec![("EmbeddedFiles", rf(10))]))],
        vec![],
        tree,
    );
    let got = names(&doc);
    let want: Vec<(String, u32)> =
        vec![("a".into(), 20), ("b".into(), 21), ("c".into(), 22), ("d".into(), 23)];
    assert_eq!(got, want);
}

#[test]
fn malformed_pairs_are_skipped() {
    let arr = vec![text("x"), PdfObject::Integer(5), text("y"), rf(20), text("z")];
    let doc = document(
        vec![("Names", d(vec![("EmbeddedFiles", d(vec![("Names", PdfObject::Array(arr))]))]))],
        vec![],
        vec![],
    );
    assert_eq!(names(&doc), vec![("y".to_string(), 20)]);
}

#[test]
fn cyclic_name_tree_is_walked_once() {
    let tree = vec![
        (10, d(vec![("Kids", PdfObject::Array(vec![rf(10), rf(11)]))])),
        (11, d(vec![("Kids", PdfObject::Array(vec![rf(10), rf(11)])), ("Names", PdfObject::Array(vec![text("e"), rf(20)]))])),
    ];
    let doc = document(vec![("Names", d(vec![("EmbeddedFiles", rf(10))]))], vec![], tree);
    assert_eq!(names(&doc), vec![("e".to_string(), 20)]);
}

#[test]
fn names_dictionary_through_reference() {
    let names_dict = d(vec![(
        "EmbeddedFiles",
        d(vec![("Names", PdfObject::Array(vec![text("n"), rf(20)]))]),
    )]);
    let doc = document(vec![("Names", rf(5))], vec![], vec![(5, names_dict)]);
    assert_eq!(names(&doc), vec![("n".to_string(), 20)]);
}

#[test]
fn annotations_are_discovered_after_the_name_tree() {
    let doc = document(
        embedded_files_tree(vec![("tree.xml", 20)]),
        vec![("Annots", rf(6))],
        vec![
            (6, PdfObject::Array(vec![rf(7), rf(8), rf(9), text("not a reference")])),
            (7, d(vec![("Subtype", name("FileAttachment")), ("Contents", text("")), ("T", text("note")), ("FS", rf(21))])),
            (8, d(vec![("Subtype", name("Link")), ("FS", rf(22))])),
            (9, d(vec![("Subtype", name("FileAttachment")), ("FS", rf(23))])),
        ],
    );
    let want: Vec<(String, u32)> =
        vec![("tree.xml".into(), 20), ("note".into(), 21), ("attachment".into(), 23)];
    assert_eq!(names(&doc), want);
}

#[test]
fn annotation_without_fs_reference_is_skipped() {
    let doc = document(
        vec![],
        vec![("Annots", PdfObject::Array(vec![rf(7)]))],
        vec![(7, d(vec![("Subtype", name("FileAttachment")), ("Contents", text("x")), ("FS", text("inline"))]))],
    );
    assert!(names(&doc).is_empty());
}

fn one_attachment(spec: PdfObject, stream_obj: PdfObject) -> PdfAnalyzer {
    let doc = document(
        embedded_files_tree(vec![("from-tree.bin", 20)]),
        vec![],
        vec![(20, spec), (30, stream_obj)],
    );
    PdfAnalyzer::from_document(doc)
}

#[test]
fn unicode_filename_is_preferred() {
    let a = one_attachment(filespec(Some("café.pdf"), Some("cafe.pdf"), 30), stream(vec![], b"data"));
    let files = a.extract_embedded_files().unwrap();
    assert_eq!(files.len(), 1);
    assert_eq!(files[0].filename, "café.pdf");
}

#[test]
fn filename_falls_back_to_ascii_then_discovery_name() {
    let a = one_attachment(filespec(Some(""), Some("cafe.pdf"), 30), stream(vec![], b"data"));
    assert_eq!(a.extract_embedded_files().unwrap()[0].filename, "cafe.pdf");
    let b = one_attachment(filespec(None, None, 30), stream(vec![], b"data"));
    assert_eq!(b.extract_embedded_files().unwrap()[0].filename, "from-tree.bin");
}

#[test]
fn empty_discovery_name_falls_back_to_attachment() {
    let doc = document(
        embedded_files_tree(vec![("", 20)]),
        vec![],
        vec![(20, filespec(None, None, 30)), (30, stream(vec![], b"x"))],
    );
    let files = PdfAnalyzer::from_document(doc).extract_embedded_files().unwrap();
    assert_eq!(files[0].filename, "attachment");
}

#[test]
fn stored_content_is_decoded() {
    let plain = b"hello hello hello hello hello hello hello hello hello hello hello hello";
    let packed = flate(plain);
    assert_ne!(packed, plain.to_vec());
    let a = one_attachment(filespec(Some("h.txt"), None, 30), stream(vec![("Filter", name("FlateDecode"))], &packed));
    assert_eq!(a.extract_embedded_files().unwrap()[0].data, plain.to_vec());
}

#[test]
fn undecodable_content_is_kept_as_stored() {
    let a = one_attachment(filespec(Some("r.bin"), None, 30), stream(vec![("Filter", name("NoSuchDecode"))], b"raw bytes"));
    assert_eq!(a.extract_embedded_files().unwrap()[0].data, b"raw bytes".to_vec());
}

#[test]
fn metadata_is_read_from_spec_and_params() {
    let spec = d(vec![
        ("UF", text("invoice.xml")),
        ("Desc", text("Invoice data")),
        ("Subtype", name("Application#2FXML")),
        ("EF", d(vec![("F", rf(30))])),
    ]);
    let params = d(vec![
        ("ModDate", text("D:20240102030405Z")),
        ("CreationDate", text("D:20240101000000Z")),
        ("Size", PdfObject::Integer(42)),
        ("CheckSum", PdfObject::String(vec![0xde, 0xad, 0xbe, 0xef])),
    ]);
    let a = one_attachment(spec, stream(vec![("Params", params)], b"<xml/>"));
    let f = &a.extract_embedded_files().unwrap()[0];
    assert_eq!(f.metadata.mime_type.as_deref(), Some("application2fxml"));
    assert_eq!(f.metadata.description.as_deref(), Some("Invoice data"));
    assert_eq!(f.metadata.modification_date.as_deref(), Some("D:20240102030405Z"));
    assert_eq!(f.metadata.creation_date.as_deref(), Some("D:20240101000000Z"));
    assert_eq!(f.metadata.size, Some(42));
    assert_eq!(f.metadata.checksum.as_deref(), Some("deadbeef"));
    assert!(f.metadata.is_xml());
}

#[test]
fn mime_type_without_escape_is_lowercased() {
    let spec = d(vec![("Subtype", name("text/XML")), ("EF", d(vec![("F", rf(30))]))]);
    let a = one_attachment(spec, stream(vec![], b"x"));
    let f = &a.extract_embedded_files().unwrap()[0];
    assert_eq!(f.metadata.mime_type.as_deref(), Some("text/xml"));
    assert!(f.metadata.has_mime_type("TEXT/xml"));
    assert!(f.metadata.description.is_none());
    assert!(f.metadata.size.is_none());
}

#[test]
fn ef_through_reference_is_accepted() {
    let spec = d(vec![("F", text("r.txt")), ("EF", rf(25))]);
    let doc = document(
        embedded_files_tree(vec![("r", 20)]),
        vec![],
        vec![(20, spec), (25, d(vec![("UF", rf(30))])), (30, stream(vec![], b"abc"))],
    );
    let files = PdfAnalyzer::from_document(doc).extract_embedded_files().unwrap();
    assert_eq!(files[0].data, b"abc".to_vec());
    assert_eq!(files[0].filename, "r.txt");
}

#[test]
fn oversized_second_file_aborts_extraction() {
    let doc = document(
        embedded_files_tree(vec![("small", 20), ("large", 21)]),
        vec![],
        vec![
            (20, filespec(Some("small.bin"), None, 30)),
            (21, filespec(Some("large.bin"), None, 31)),
            (30, stream(vec![], &[1u8; 5])),
            (31, stream(vec![], &[2u8; 20])),
        ],
    );
    let cfg = ExtractorConfig { max_embedded_file_size: Some(10), ..ExtractorConfig::default() };
    let a = PdfAnalyzer::with_document_config(doc, cfg);
    assert!(matches!(a.extract_embedded_files(), Err(ExtractError::FileSizeExceeded)));
}

#[test]
fn file_at_the_limit_is_kept() {
    let cfg = ExtractorConfig { max_embedded_file_size: Some(5), ..ExtractorConfig::default() };
    let doc = document(
        embedded_files_tree(vec![("small", 20)]),
        vec![],
        vec![(20, filespec(Some("small.bin"), None, 30)), (30, stream(vec![], &[1u8; 5]))],
    );
    let a = PdfAnalyzer::with_document_config(doc, cfg);
    assert_eq!(a.extract_embedded_files().unwrap().len(), 1);
}

#[test]
fn spec_without_f_or_uf_is_skipped() {
    let doc = document(
        embedded_files_tree(vec![("broken", 20), ("good", 21)]),
        vec![],
        vec![
            (20, d(vec![("UF", text("broken.bin")), ("EF", d(vec![]))])),
            (21, filespec(Some("good.bin"), None, 31)),
            (31, stream(vec![], b"ok")),
        ],
    );
    let a = PdfAnalyzer::from_document(doc);
    assert_eq!(a.count_embedded_files().unwrap(), 2);
    let files = a.extract_embedded_files().unwrap();
    assert_eq!(files.len(), 1);
    assert_eq!(files[0].filename, "good.bin");
    let skipped = a.skipped_embedded_files();
    assert_eq!(skipped.len(), 1);
    assert!(matches!(&skipped[0], ExtractError::ExtractionError(n, _) if n == "broken"));
}

#[test]
fn all_failing_gives_no_embedded_files() {
    let doc = document(
        embedded_files_tree(vec![("missing", 20), ("not-a-stream", 21)]),
        vec![],
        vec![(21, filespec(Some("x"), None, 31)), (31, d(vec![]))],
    );
    let a = PdfAnalyzer::from_document(doc);
    assert_eq!(a.has_embedded_files().unwrap(), true);
    assert!(matches!(a.extract_embedded_files(), Err(ExtractError::NoEmbeddedFiles)));
}

#[test]
fn structure_checks_catalog_pages_trailer() {
    let ok = document(vec![], vec![], vec![]);
    assert_eq!(PdfAnalyzer::from_document(ok).is_pdf().unwrap(), true);

    let mut no_pages = document(vec![], vec![], vec![]);
    no_pages.pages.clear();
    assert!(matches!(PdfAnalyzer::from_document(no_pages).is_pdf(), Err(ExtractError::InvalidPdf(_))));

    let mut no_catalog = document(vec![], vec![], vec![]);
    no_catalog.trailer = dict(vec![("Size", PdfObject::Integer(3))]);
    assert!(matches!(PdfAnalyzer::from_document(no_catalog).is_pdf(), Err(ExtractError::InvalidPdf(_))));
}

fn with_xmp(xmp: &str, strict: bool) -> PdfAnalyzer {
    let padded = format!("{xmp}{}", " ".repeat(200));
    let doc = document(
        vec![("Metadata", rf(40))],
        vec![],
        vec![(40, stream(vec![("Filter", name("FlateDecode"))], &flate(padded.as_bytes())))],
    );
    let cfg = ExtractorConfig { strict_pdfa3_validation: strict, ..ExtractorConfig::default() };
    PdfAnalyzer::with_document_config(doc, cfg)
}

#[test]
fn document_declaring_pdfa3b_in_either_form() {
    for xmp in [
        r#"<x:xmpmeta><rdf:Description pdfaid:part="3" pdfaid:conformance="B"/></x:xmpmeta>"#,
        "<x:xmpmeta><pdfaid:part>3</pdfaid:part><pdfaid:conformance>B</pdfaid:conformance></x:xmpmeta>",
    ] {
        let a = with_xmp(xmp, false);
        assert_eq!(a.is_pdfa3().unwrap(), true);
        assert_eq!(a.conformance_level().as_deref(), Some("PDF/A-3B"));
    }
}

#[test]
fn strict_mode_rejects_part2() {
    let xmp = r#"pdfaid:part="2" pdfaid:conformance="A""#;
    assert_eq!(with_xmp(xmp, false).is_pdfa3().unwrap(), false);
    assert!(matches!(with_xmp(xmp, true).is_pdfa3(), Err(ExtractError::NotPdfA3(_))));
    assert_eq!(with_xmp(xmp, true).conformance_level().as_deref(), Some("PDF/A-2A"));
}

#[test]
fn missing_metadata_is_not_pdfa3() {
    let a = PdfAnalyzer::from_document(document(vec![], vec![], vec![]));
    assert!(matches!(a.is_pdfa3(), Err(ExtractError::NotPdfA3(_))));
    assert_eq!(a.conformance_level(), None);
}

#[test]
fn unfiltered_metadata_is_read_as_stored() {
    let doc = document(
        vec![("Metadata", rf(40))],
        vec![],
        vec![(40, stream(vec![("Type", name("Metadata"))], br#"pdfaid:part="3" pdfaid:conformance="B""#))],
    );
    let a = PdfAnalyzer::from_document(doc);
    assert_eq!(a.is_pdfa3().unwrap(), true);
    assert_eq!(a.conformance_level().as_deref(), Some("PDF/A-3B"));
}

#[test]
fn undecodable_metadata_is_not_pdfa3() {
    let doc = document(
        vec![("Metadata", rf(40))],
        vec![],
        vec![(40, stream(vec![("Filter", name("NoSuchDecode"))], br#"pdfaid:part="3" pdfaid:conformance="B""#))],
    );
    let a = PdfAnalyzer::from_document(doc);
    match a.is_pdfa3() {
        Err(ExtractError::NotPdfA3(m)) => assert!(!m.is_empty()),
        _ => panic!("expected NotPdfA3"),
    }
    assert_eq!(a.conformance_level(), None);
}

#[test]
fn invalid_utf8_text_is_replaced() {
    let dd = dict(vec![("T", PdfObject::String(vec![b'f', 0xff])), ("E", PdfObject::String(vec![]))]);
    assert_eq!(extract_string_from_dict(&dd, "T").as_deref(), Some("f\u{FFFD}"));
    assert_eq!(extract_string_from_dict(&dd, "E"), None);
    assert_eq!(extract_string_from_dict(&dd, "Missing"), None);
}

#[test]
fn entries_sharing_a_reference_are_all_kept() {
    let doc = document(
        embedded_files_tree(vec![("one", 20), ("two", 20)]),
        vec![("Annots", PdfObject::Array(vec![rf(7)]))],
        vec![
            (7, d(vec![("Subtype", name("FileAttachment")), ("Contents", text("three")), ("FS", rf(20))])),
            (20, filespec(Some("same.txt"), None, 30)),
            (30, stream(vec![], b"x")),
        ],
    );
    let want: Vec<(String, u32)> = vec![("one".into(), 20), ("two".into(), 20), ("three".into(), 20)];
    assert_eq!(names(&doc), want);
    let files = PdfAnalyzer::from_document(doc).extract_embedded_files().unwrap();
    assert_eq!(files.len(), 3);
    assert!(files.iter().all(|f| f.filename == "same.txt"));
}

fn lopdf_decoded(filter: &str, content: &[u8]) -> Vec<u8> {
    let mut dict = lopdf::Dictionary::new();
    dict.set("Filter", lopdf::Object::Name(filter.as_bytes().to_vec()));
    lopdf::Stream::new(dict, content.to_vec()).decompressed_content().unwrap()
}

#[test]
fn ascii85_content_is_decoded() {
    let text = b"87cURD]i,\"Ebo80~>";
    let a = one_attachment(filespec(Some("a.txt"), None, 30), stream(vec![("Filter", name("ASCII85Decode"))], text));
    let data = a.extract_embedded_files().unwrap()[0].data.clone();
    assert_eq!(data, lopdf_decoded("ASCII85Decode", text));
    assert_ne!(data, text.to_vec());
}

#[test]
fn ascii85_group_over_32_bits_is_kept_as_stored() {
    for text in [&b"uuuuu"[..], &b"!!!!!uuuu"[..], &b"s8W-\"zuuuuu"[..]] {
        let a = one_attachment(filespec(Some("a.bin"), None, 30), stream(vec![("Filter", name("ASCII85Decode"))], text));
        assert_eq!(a.extract_embedded_files().unwrap()[0].data, text.to_vec());
    }
}

#[test]
fn ascii85_after_another_filter_is_not_run() {
    let filters = PdfObject::Array(vec![name("FlateDecode"), name("ASCII85Decode")]);
    let packed = flate(b"hello hello hello hello hello hello hello hello hello hello");
    let a = one_attachment(filespec(Some("a.bin"), None, 30), stream(vec![("Filter", filters)], &packed));
    assert_eq!(a.extract_embedded_files().unwrap()[0].data, packed);
}

#[test]
fn oversized_predictor_is_kept_as_stored() {
    let packed = flate(b"hello hello hello hello hello hello hello hello hello hello");
    let parms = d(vec![("Predictor", PdfObject::Integer(12)), ("Colors", PdfObject::Integer(i64::MAX))]);
    let a = one_attachment(
        filespec(Some("p.bin"), None, 30),
        stream(vec![("Filter", name("FlateDecode")), ("DecodeParms", parms)], &packed),
    );
    assert_eq!(a.extract_embedded_files().unwrap()[0].data, packed);
    let parms = d(vec![("Predictor", PdfObject::Integer(12)), ("Columns", PdfObject::Integer(i64::MAX))]);
    let b = one_attachment(
        filespec(Some("p.bin"), None, 30),
        stream(vec![("Filter", name("FlateDecode")), ("DecodeParms", parms)], &packed),
    );
    assert_eq!(b.extract_embedded_files().unwrap()[0].data, packed);
}

#[test]
fn empty_dates_are_kept_as_empty_text() {
    let params = d(vec![("ModDate", text("")), ("CreationDate", text(""))]);
    let a = one_attachment(filespec(Some("x"), None, 30), stream(vec![("Params", params)], b"x"));
    let f = &a.extract_embedded_files().unwrap()[0];
    assert_eq!(f.metadata.modification_date.as_deref(), Some(""));
    assert_eq!(f.metadata.creation_date.as_deref(), Some(""));
}

#[test]
fn structure_errors_name_the_first_failing_check() {
    let mut no_pages = document(vec![], vec![], vec![]);
    no_pages.pages.clear();
    match PdfAnalyzer::from_document(no_pages).is_pdf() {
        Err(ExtractError::InvalidPdf(m)) => assert_eq!(m, "document has no pages"),
        _ => panic!("expected InvalidPdf"),
    }
    let mut neither = document(vec![], vec![], vec![]);
    neither.pages.clear();
    neither.trailer = dict(vec![]);
    match PdfAnalyzer::from_document(neither).is_pdf() {
        Err(ExtractError::InvalidPdf(m)) => assert_eq!(m, "missing or invalid catalog"),
        _ => panic!("expected InvalidPdf"),
    }
}

#[test]
fn small_predictor_rows_are_decoded() {
    let rows = b"\x00abcdefgh\x00ijklmnop\x00abcdefgh\x00ijklmnop\x00abcdefgh\x00ijklmnop\x00abcdefgh\x00ijklmnop";
    let packed = flate(rows);
    let parms = d(vec![("Predictor", PdfObject::Integer(12)), ("Columns", PdfObject::Integer(8))]);
    let a = one_attachment(
        filespec(Some("p.bin"), None, 30),
        stream(vec![("Filter", name("FlateDecode")), ("DecodeParms", parms)], &packed),
    );
    assert_eq!(
        a.extract_embedded_files().unwrap()[0].data,
        b"abcdefghijklmnopabcdefghijklmnopabcdefghijklmnopabcdefghijklmnop".to_vec()
    );
}
