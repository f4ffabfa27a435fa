//! Discovery of embedded-file specifications: the `EmbeddedFiles` name tree
//! of the catalog, then the file-attachment annotations of every page.
use vstd::prelude::*;
use crate::embedded::opt_string;
use crate::error::ExtractError;
use crate::object::{key, ObjectRef, PdfDict, PdfDocument, PdfObject};
use crate::text::{lossy_text, utf8_lossy};

verus! {

/// How many levels of a name tree are entered at most.
pub const NAME_TREE_MAX_DEPTH: usize = 64;

/// One discovered specification: a display name and the reference to it.
#[derive(Debug, Clone)]
pub struct FileSpecEntry {
    pub name: String,
    pub reference: ObjectRef,
}

impl View for FileSpecEntry {
    type V = (Seq<char>, ObjectRef);

    open spec fn view(&self) -> (Seq<char>, ObjectRef) {
        (self.name@, self.reference)
    }
}

pub open spec fn entries_view(s: Seq<FileSpecEntry>) -> Seq<(Seq<char>, ObjectRef)> {
    s.map_values(|e: FileSpecEntry| e@)
}

proof fn lemma_entries_view_push(s: Seq<FileSpecEntry>, e: FileSpecEntry)
    ensures
        entries_view(s.push(e)) == entries_view(s).push(e@),
{
    assert(entries_view(s.push(e)) =~= entries_view(s).push(e@));
}

/// The text stored under `k`, when it is a string that reads as non-empty text.
pub open spec fn text_value(d: PdfDict, k: Seq<u8>) -> Option<Seq<char>> {
    match d.value(k) {
        Some(PdfObject::String(b)) => if lossy_text(b@).len() > 0 {
            Some(lossy_text(b@))
        } else {
            None
        },
        _ => None,
    }
}

/// Reads the string stored under `k` as text; none when it is absent, not a
/// string, or empty.
pub fn extract_string_from_dict(dict: &PdfDict, k: &str) -> (r: Option<String>)
    ensures
        opt_string(r) == text_value(*dict, key(k)),
{
    match dict.get(k) {
        Some(PdfObject::String(b)) => {
            let s = utf8_lossy(b.as_slice());
            if b.len() > 0 {
                Some(s)
            } else {
                None
            }
        },
        _ => None,
    }
}

/// The (name, reference) pairs of a flat `[name0, ref0, name1, ref1, ...]`
/// array from position `i`; a pair whose name is not a string or whose value
/// is not a reference is skipped, and so is a trailing name.
pub open spec fn name_pairs_from(arr: Seq<PdfObject>, i: int) -> Seq<(Seq<char>, ObjectRef)>
    decreases arr.len() - i,
{
    if i < 0 || i + 1 >= arr.len() {
        Seq::empty()
    } else {
        let rest = name_pairs_from(arr, i + 2);
        match (arr[i], arr[i + 1]) {
            (PdfObject::String(b), PdfObject::Reference(r)) => seq![(lossy_text(b@), r)] + rest,
            _ => rest,
        }
    }
}

/// The leaf pairs of a name-tree node.
pub open spec fn leaf_pairs(d: PdfDict) -> Seq<(Seq<char>, ObjectRef)> {
    match d.value(key("Names")) {
        Some(PdfObject::Array(a)) => name_pairs_from(a@, 0),
        _ => Seq::empty(),
    }
}

/// The `Kids` array of a name-tree node.
pub open spec fn kid_list(d: PdfDict) -> Seq<PdfObject> {
    match d.value(key("Kids")) {
        Some(PdfObject::Array(a)) => a@,
        _ => Seq::empty(),
    }
}

/// Walks the node `node` with `depth` levels left, having entered `seen`
/// already: its leaf pairs in array order, then its kids depth first in
/// `Kids` order. A node already entered, or beyond the depth, is skipped.
/// Returns the pairs and the nodes entered by the end.
pub open spec fn walk_node(doc: PdfDocument, node: ObjectRef, depth: nat, seen: Seq<ObjectRef>) -> (
    Seq<(Seq<char>, ObjectRef)>,
    Seq<ObjectRef>,
)
    decreases depth, 0int,
{
    if depth == 0 || seen.contains(node) {
        (Seq::empty(), seen)
    } else {
        match doc.dict_at(node) {
            None => (Seq::empty(), seen),
            Some(d) => {
                let below = walk_kids(doc, kid_list(d), 0, (depth - 1) as nat, seen.push(node));
                (leaf_pairs(d) + below.0, below.1)
            },
        }
    }
}

/// Walks the kids from position `i`, each with `depth` levels left.
pub open spec fn walk_kids(
    doc: PdfDocument,
    kids: Seq<PdfObject>,
    i: int,
    depth: nat,
    seen: Seq<ObjectRef>,
) -> (Seq<(Seq<char>, ObjectRef)>, Seq<ObjectRef>)
    decreases depth, kids.len() - i + 1,
{
    if i < 0 || i >= kids.len() {
        (Seq::empty(), seen)
    } else {
        let first = match kids[i] {
            PdfObject::Reference(r) => walk_node(doc, r, depth, seen),
            _ => (Seq::empty(), seen),
        };
        let rest = walk_kids(doc, kids, i + 1, depth, first.1);
        (first.0 + rest.0, rest.1)
    }
}

/// The pairs of the catalog's `Names/EmbeddedFiles` tree, whose root may be
/// given inline or through a reference.
pub open spec fn name_tree_entries(doc: PdfDocument) -> Seq<(Seq<char>, ObjectRef)> {
    match doc.catalog() {
        Some(cat) => match cat.value(key("Names")) {
            Some(nv) => match doc.resolve_dict(nv) {
                Some(nd) => match nd.value(key("EmbeddedFiles")) {
                    Some(PdfObject::Reference(r)) => walk_node(
                        doc,
                        r,
                        NAME_TREE_MAX_DEPTH as nat,
                        Seq::empty(),
                    ).0,
                    Some(PdfObject::Dictionary(root)) => leaf_pairs(root) + walk_kids(
                        doc,
                        kid_list(root),
                        0,
                        (NAME_TREE_MAX_DEPTH - 1) as nat,
                        Seq::empty(),
                    ).0,
                    _ => Seq::empty(),
                },
                None => Seq::empty(),
            },
            None => Seq::empty(),
        },
        None => Seq::empty(),
    }
}

/// The display name of a file-attachment annotation: `Contents`, else `T`,
/// else `attachment`.
pub open spec fn annotation_name(d: PdfDict) -> Seq<char> {
    match text_value(d, key("Contents")) {
        Some(t) => t,
        None => match text_value(d, key("T")) {
            Some(t) => t,
            None => "attachment"@,
        },
    }
}

/// The entry of one item of an `Annots` array: a reference to an annotation
/// of subtype `FileAttachment` whose `FS` is a reference.
pub open spec fn attachment_entry(doc: PdfDocument, item: PdfObject) -> Option<
    (Seq<char>, ObjectRef),
> {
    match item {
        PdfObject::Reference(a) => match doc.dict_at(a) {
            Some(d) => match d.value(key("Subtype")) {
                Some(PdfObject::Name(n)) => if n@ == key("FileAttachment") {
                    match d.value(key("FS")) {
                        Some(PdfObject::Reference(fs)) => Some((annotation_name(d), fs)),
                        _ => None,
                    }
                } else {
                    None
                },
                _ => None,
            },
            None => None,
        },
        _ => None,
    }
}

/// The entries of the annotation items from position `i`, in order.
pub open spec fn attachments_from(doc: PdfDocument, items: Seq<PdfObject>, i: int) -> Seq<
    (Seq<char>, ObjectRef),
>
    decreases items.len() - i,
{
    if i < 0 || i >= items.len() {
        Seq::empty()
    } else {
        match attachment_entry(doc, items[i]) {
            Some(e) => seq![e] + attachments_from(doc, items, i + 1),
            None => attachments_from(doc, items, i + 1),
        }
    }
}

/// The `Annots` array of a page, given inline or through a reference.
pub open spec fn page_annotations(doc: PdfDocument, page: ObjectRef) -> Seq<PdfObject> {
    match doc.dict_at(page) {
        Some(pd) => match pd.value(key("Annots")) {
            Some(v) => match doc.resolve_array(v) {
                Some(a) => a,
                None => Seq::empty(),
            },
            None => Seq::empty(),
        },
        None => Seq::empty(),
    }
}

/// The attachment entries of the pages from position `i`, page by page.
pub open spec fn pages_entries_from(doc: PdfDocument, pages: Seq<ObjectRef>, i: int) -> Seq<
    (Seq<char>, ObjectRef),
>
    decreases pages.len() - i,
{
    if i < 0 || i >= pages.len() {
        Seq::empty()
    } else {
        attachments_from(doc, page_annotations(doc, pages[i]), 0) + pages_entries_from(
            doc,
            pages,
            i + 1,
        )
    }
}

/// Everything discovered: the name tree first, then the annotations.
pub open spec fn discovered(doc: PdfDocument) -> Seq<(Seq<char>, ObjectRef)> {
    name_tree_entries(doc) + pages_entries_from(doc, doc.pages@, 0)
}

fn seen_contains(seen: &Vec<ObjectRef>, r: ObjectRef) -> (b: bool)
    ensures
        b == seen@.contains(r),
{
    let mut i: usize = 0;
    while i < seen.len()
        invariant
            0 <= i <= seen@.len(),
            forall|j: int| 0 <= j < i ==> seen@[j] != r,
        decreases seen@.len() - i,
    {
        if seen[i] == r {
            assert(seen@[i as int] == r);
            return true;
        }
        i = i + 1;
    }
    false
}

/// Finds the embedded-file specifications of a document.
pub struct FileSpecDiscovery<'a> {
    document: &'a PdfDocument,
}

impl<'a> FileSpecDiscovery<'a> {
    pub fn new(document: &'a PdfDocument) -> (r: Self)
        ensures
            r.doc() == *document,
    {
        FileSpecDiscovery { document }
    }

    /// The document searched.
    pub closed spec fn doc(&self) -> PdfDocument {
        *self.document
    }

    /// Every specification, name tree first, then page annotations; no
    /// entry is merged with another. Discovery is best effort and never fails.
    pub fn collect_file_specs(&self) -> (r: Result<Vec<FileSpecEntry>, ExtractError>)
        ensures
            r matches Ok(v) && entries_view(v@) == discovered(self.doc()),
    {
        let mut out: Vec<FileSpecEntry> = Vec::new();
        self.collect_from_names_tree(&mut out);
        self.collect_from_annotations(&mut out);
        assert(entries_view(Seq::<FileSpecEntry>::empty()) =~= Seq::empty());
        Ok(out)
    }

    /// Appends the pairs of a flat name array, in array order.
    fn process_names_array(&self, arr: &Vec<PdfObject>, out: &mut Vec<FileSpecEntry>)
        ensures
            entries_view(final(out)@) == entries_view(old(out)@) + name_pairs_from(arr@, 0),
    {
        let mut i: usize = 0;
        while arr.len() - i >= 2
            invariant
                i <= arr@.len(),
                entries_view(out@) + name_pairs_from(arr@, i as int) == entries_view(old(out)@)
                    + name_pairs_from(arr@, 0),
            decreases arr@.len() - i,
        {
            let ghost before = entries_view(out@);
            match (&arr[i], &arr[i + 1]) {
                (PdfObject::String(b), PdfObject::Reference(r)) => {
                    let e = FileSpecEntry { name: utf8_lossy(b.as_slice()), reference: *r };
                    proof {
                        lemma_entries_view_push(out@, e);
                    }
                    out.push(e);
                    assert(seq![e@] + name_pairs_from(arr@, i + 2) =~= name_pairs_from(
                        arr@,
                        i as int,
                    ));
                    assert(entries_view(out@) + name_pairs_from(arr@, i + 2) =~= before
                        + name_pairs_from(arr@, i as int));
                },
                _ => {},
            }
            i = i + 2;
        }
    }

    fn walk_dict(
        &self,
        d: &PdfDict,
        depth: usize,
        seen: &mut Vec<ObjectRef>,
        out: &mut Vec<FileSpecEntry>,
    )
        ensures
            ({
                let below = walk_kids(self.doc(), kid_list(*d), 0, depth as nat, old(seen)@);
                &&& entries_view(final(out)@) == entries_view(old(out)@) + leaf_pairs(*d)
                    + below.0
                &&& final(seen)@ == below.1
            }),
        decreases depth, 1int,
    {
        match d.get("Names") {
            Some(PdfObject::Array(a)) => self.process_names_array(a, out),
            _ => {
                assert(entries_view(out@) + leaf_pairs(*d) =~= entries_view(out@));
            },
        }
        let ghost mid = entries_view(out@);
        let ghost seen0 = seen@;
        match d.get("Kids") {
            Some(PdfObject::Array(kids)) => {
                let mut i: usize = 0;
                while i < kids.len()
                    invariant
                        0 <= i <= kids@.len(),
                        kid_list(*d) == kids@,
                        ({
                            let rest = walk_kids(self.doc(), kids@, i as int, depth as nat, seen@);
                            let all = walk_kids(self.doc(), kids@, 0, depth as nat, seen0);
                            &&& entries_view(out@) + rest.0 == mid + all.0
                            &&& rest.1 == all.1
                        }),
                    decreases kids@.len() - i,
                {
                    let ghost before = entries_view(out@);
                    let ghost seen_i = seen@;
                    match &kids[i] {
                        PdfObject::Reference(r) => {
                            self.walk_node(*r, depth, seen, out);
                        },
                        _ => {},
                    }
                    proof {
                        let first = match kids@[i as int] {
                            PdfObject::Reference(r) => walk_node(self.doc(), r, depth as nat, seen_i),
                            _ => (Seq::empty(), seen_i),
                        };
                        assert(entries_view(out@) == before + first.0);
                        assert(seen@ == first.1);
                        let rest = walk_kids(self.doc(), kids@, i + 1, depth as nat, seen@);
                        assert(before + (first.0 + rest.0) =~= entries_view(out@) + rest.0);
                    }
                    i = i + 1;
                }
            },
            _ => {},
        }
    }

    fn walk_node(
        &self,
        node: ObjectRef,
        depth: usize,
        seen: &mut Vec<ObjectRef>,
        out: &mut Vec<FileSpecEntry>,
    )
        ensures
            ({
                let w = walk_node(self.doc(), node, depth as nat, old(seen)@);
                &&& entries_view(final(out)@) == entries_view(old(out)@) + w.0
                &&& final(seen)@ == w.1
            }),
        decreases depth, 0int,
    {
        if depth == 0 || seen_contains(seen, node) {
            assert(entries_view(out@) + Seq::empty() =~= entries_view(out@));
            return;
        }
        match self.document.get_dict(node) {
            Some(d) => {
                seen.push(node);
                self.walk_dict(d, depth - 1, seen, out);
                assert(entries_view(old(out)@) + leaf_pairs(*d) + walk_kids(
                    self.doc(),
                    kid_list(*d),
                    0,
                    (depth - 1) as nat,
                    old(seen)@.push(node),
                ).0 =~= entries_view(old(out)@) + (leaf_pairs(*d) + walk_kids(
                    self.doc(),
                    kid_list(*d),
                    0,
                    (depth - 1) as nat,
                    old(seen)@.push(node),
                ).0));
            },
            None => {
                assert(entries_view(out@) + Seq::empty() =~= entries_view(out@));
            },
        }
    }

    /// Appends the pairs of the catalog's `Names/EmbeddedFiles` tree.
    fn collect_from_names_tree(&self, out: &mut Vec<FileSpecEntry>)
        ensures
            entries_view(final(out)@) == entries_view(old(out)@) + name_tree_entries(self.doc()),
    {
        let catalog = match self.document.catalog_dict() {
            Some(c) => c,
            None => {
                assert(entries_view(out@) + Seq::empty() =~= entries_view(out@));
                return;
            },
        };
        let names_val = match catalog.get("Names") {
            Some(v) => v,
            None => {
                assert(entries_view(out@) + Seq::empty() =~= entries_view(out@));
                return;
            },
        };
        let names_dict = match self.document.resolve_dict_value(names_val) {
            Some(d) => d,
            None => {
                assert(entries_view(out@) + Seq::empty() =~= entries_view(out@));
                return;
            },
        };
        let mut seen: Vec<ObjectRef> = Vec::new();
        match names_dict.get("EmbeddedFiles") {
            Some(PdfObject::Reference(r)) => {
                self.walk_node(*r, NAME_TREE_MAX_DEPTH, &mut seen, out);
            },
            Some(PdfObject::Dictionary(root)) => {
                self.walk_dict(root, NAME_TREE_MAX_DEPTH - 1, &mut seen, out);
                assert(entries_view(old(out)@) + leaf_pairs(*root) + walk_kids(
                    self.doc(),
                    kid_list(*root),
                    0,
                    (NAME_TREE_MAX_DEPTH - 1) as nat,
                    Seq::empty(),
                ).0 =~= entries_view(old(out)@) + (leaf_pairs(*root) + walk_kids(
                    self.doc(),
                    kid_list(*root),
                    0,
                    (NAME_TREE_MAX_DEPTH - 1) as nat,
                    Seq::empty(),
                ).0));
            },
            _ => {
                assert(entries_view(out@) + Seq::empty() =~= entries_view(out@));
            },
        }
    }

    /// The display name of a file-attachment annotation.
    fn annotation_name(dict: &PdfDict) -> (r: String)
        ensures
            r@ == annotation_name(*dict),
    {
        match extract_string_from_dict(dict, "Contents") {
            Some(s) => s,
            None => match extract_string_from_dict(dict, "T") {
                Some(s) => s,
                None => String::from_str("attachment"),
            },
        }
    }

    /// The entry of one annotation item, when it is a file attachment.
    fn process_file_attachment_annotation(&self, item: &PdfObject) -> (r: Option<FileSpecEntry>)
        ensures
            match r {
                Some(e) => attachment_entry(self.doc(), *item) == Some(e@),
                None => attachment_entry(self.doc(), *item) is None,
            },
    {
        let annot_id = match item {
            PdfObject::Reference(a) => *a,
            _ => return None,
        };
        let dict = match self.document.get_dict(annot_id) {
            Some(d) => d,
            None => return None,
        };
        match dict.get("Subtype") {
            Some(PdfObject::Name(n)) => {
                if !crate::object::bytes_eq(n.as_slice(), "FileAttachment".as_bytes()) {
                    return None;
                }
            },
            _ => return None,
        }
        match dict.get("FS") {
            Some(PdfObject::Reference(fs)) => Some(
                FileSpecEntry { name: Self::annotation_name(dict), reference: *fs },
            ),
            _ => None,
        }
    }

    /// Appends the attachment entries of one `Annots` array, in order.
    fn extract_file_attachments(&self, items: &Vec<PdfObject>, out: &mut Vec<FileSpecEntry>)
        ensures
            entries_view(final(out)@) == entries_view(old(out)@) + attachments_from(
                self.doc(),
                items@,
                0,
            ),
    {
        let mut i: usize = 0;
        while i < items.len()
            invariant
                0 <= i <= items@.len(),
                entries_view(out@) + attachments_from(self.doc(), items@, i as int)
                    == entries_view(old(out)@) + attachments_from(self.doc(), items@, 0),
            decreases items@.len() - i,
        {
            let ghost before = entries_view(out@);
            match self.process_file_attachment_annotation(&items[i]) {
                Some(e) => {
                    proof {
                        lemma_entries_view_push(out@, e);
                    }
                    out.push(e);
                    assert(entries_view(out@) + attachments_from(self.doc(), items@, i + 1)
                        =~= before + attachments_from(self.doc(), items@, i as int));
                },
                None => {},
            }
            i = i + 1;
        }
    }

    /// Appends the attachment entries of one page.
    fn process_page_annotations(&self, page: ObjectRef, out: &mut Vec<FileSpecEntry>)
        ensures
            entries_view(final(out)@) == entries_view(old(out)@) + attachments_from(
                self.doc(),
                page_annotations(self.doc(), page),
                0,
            ),
    {
        let page_dict = match self.document.get_dict(page) {
            Some(d) => d,
            None => {
                assert(entries_view(out@) + Seq::empty() =~= entries_view(out@));
                return;
            },
        };
        let annots_val = match page_dict.get("Annots") {
            Some(v) => v,
            None => {
                assert(entries_view(out@) + Seq::empty() =~= entries_view(out@));
                return;
            },
        };
        match self.document.resolve_array_value(annots_val) {
            Some(items) => self.extract_file_attachments(items, out),
            None => {
                assert(entries_view(out@) + Seq::empty() =~= entries_view(out@));
            },
        }
    }

    /// Appends the attachment entries of every page, in page order.
    fn collect_from_annotations(&self, out: &mut Vec<FileSpecEntry>)
        ensures
            entries_view(final(out)@) == entries_view(old(out)@) + pages_entries_from(
                self.doc(),
                self.doc().pages@,
                0,
            ),
    {
        let pages = &self.document.pages;
        let mut i: usize = 0;
        while i < pages.len()
            invariant
                0 <= i <= pages@.len(),
                *pages == self.doc().pages,
                entries_view(out@) + pages_entries_from(self.doc(), pages@, i as int)
                    == entries_view(old(out)@) + pages_entries_from(self.doc(), pages@, 0),
            decreases pages@.len() - i,
        {
            let ghost before = entries_view(out@);
            self.process_page_annotations(pages[i], out);
            assert(entries_view(out@) + pages_entries_from(self.doc(), pages@, i + 1) =~= before
                + pages_entries_from(self.doc(), pages@, i as int));
            i = i + 1;
        }
        assert(entries_view(out@) + pages_entries_from(self.doc(), pages@, i as int) =~= entries_view(out@));
    }
}

/// Name-tree order: a node entered for the first time yields its own leaf
/// pairs first, then its kids walked depth first in `Kids` order; within a
/// leaf array the pairs come out in declared order.
pub proof fn lemma_name_tree_order(
    doc: PdfDocument,
    node: ObjectRef,
    depth: nat,
    seen: Seq<ObjectRef>,
    d: PdfDict,
)
    requires
        depth > 0,
        !seen.contains(node),
        doc.dict_at(node) == Some(d),
    ensures
        walk_node(doc, node, depth, seen).0 == leaf_pairs(d) + walk_kids(
            doc,
            kid_list(d),
            0,
            (depth - 1) as nat,
            seen.push(node),
        ).0,
        forall|kids: Seq<PdfObject>, i: int, dp: nat, s: Seq<ObjectRef>|
            0 <= i < kids.len() && kids[i] is Reference ==> #[trigger] walk_kids(doc, kids, i, dp, s).0
                == walk_node(doc, kids[i]->Reference_0, dp, s).0 + walk_kids(
                doc,
                kids,
                i + 1,
                dp,
                walk_node(doc, kids[i]->Reference_0, dp, s).1,
            ).0,
        forall|arr: Seq<PdfObject>, i: int|
            0 <= i && i + 1 < arr.len() && arr[i] is String && arr[i + 1] is Reference
                ==> #[trigger] name_pairs_from(arr, i) == seq![
                (lossy_text(arr[i]->String_0@), arr[i + 1]->Reference_0),
            ] + name_pairs_from(arr, i + 2),
{
}

/// The walk of a name tree without a visited set: a node's leaf pairs, then
/// the separate walk of each kid in `Kids` order, down to `depth` levels.
pub open spec fn tree_walk(doc: PdfDocument, node: ObjectRef, depth: nat) -> Seq<(Seq<char>, ObjectRef)>
    decreases depth, 0int,
{
    if depth == 0 {
        Seq::empty()
    } else {
        match doc.dict_at(node) {
            None => Seq::empty(),
            Some(d) => leaf_pairs(d) + tree_kids(doc, kid_list(d), 0, (depth - 1) as nat),
        }
    }
}

pub open spec fn tree_kids(doc: PdfDocument, kids: Seq<PdfObject>, i: int, depth: nat) -> Seq<
    (Seq<char>, ObjectRef),
>
    decreases depth, kids.len() - i + 1,
{
    if i < 0 || i >= kids.len() {
        Seq::empty()
    } else {
        let first = match kids[i] {
            PdfObject::Reference(r) => tree_walk(doc, r, depth),
            _ => Seq::empty(),
        };
        first + tree_kids(doc, kids, i + 1, depth)
    }
}

/// The nodes that `tree_walk` enters, in the order it enters them.
pub open spec fn tree_nodes(doc: PdfDocument, node: ObjectRef, depth: nat) -> Seq<ObjectRef>
    decreases depth, 0int,
{
    if depth == 0 {
        Seq::empty()
    } else {
        match doc.dict_at(node) {
            None => Seq::empty(),
            Some(d) => seq![node] + kids_nodes(doc, kid_list(d), 0, (depth - 1) as nat),
        }
    }
}

pub open spec fn kids_nodes(doc: PdfDocument, kids: Seq<PdfObject>, i: int, depth: nat) -> Seq<ObjectRef>
    decreases depth, kids.len() - i + 1,
{
    if i < 0 || i >= kids.len() {
        Seq::empty()
    } else {
        let first = match kids[i] {
            PdfObject::Reference(r) => tree_nodes(doc, r, depth),
            _ => Seq::empty(),
        };
        first + kids_nodes(doc, kids, i + 1, depth)
    }
}

proof fn lemma_prefix_no_duplicates(a: Seq<ObjectRef>, b: Seq<ObjectRef>)
    requires
        (a + b).no_duplicates(),
    ensures
        a.no_duplicates(),
{
    assert forall|i: int, j: int| 0 <= i < a.len() && 0 <= j < a.len() && i != j implies a[i] != a[j] by {
        assert((a + b)[i] == a[i] && (a + b)[j] == a[j]);
    }
}

proof fn lemma_walk_node_as_tree(doc: PdfDocument, node: ObjectRef, depth: nat, seen: Seq<ObjectRef>)
    requires
        (seen + tree_nodes(doc, node, depth)).no_duplicates(),
    ensures
        walk_node(doc, node, depth, seen) == (tree_walk(doc, node, depth), seen + tree_nodes(doc, node, depth)),
    decreases depth, 0int,
{
    if depth == 0 {
        assert(seen + Seq::<ObjectRef>::empty() =~= seen);
    } else {
        match doc.dict_at(node) {
            None => {
                assert(seen + Seq::<ObjectRef>::empty() =~= seen);
            },
            Some(d) => {
                let below = kids_nodes(doc, kid_list(d), 0, (depth - 1) as nat);
                let all = seen + tree_nodes(doc, node, depth);
                assert(all =~= seen.push(node) + below);
                assert(!seen.contains(node)) by {
                    if seen.contains(node) {
                        let k = choose|k: int| 0 <= k < seen.len() && seen[k] == node;
                        assert(all[k] == node && all[seen.len() as int] == node);
                    }
                }
                lemma_walk_kids_as_tree(doc, kid_list(d), 0, (depth - 1) as nat, seen.push(node));
            },
        }
    }
}

proof fn lemma_walk_kids_as_tree(
    doc: PdfDocument,
    kids: Seq<PdfObject>,
    i: int,
    depth: nat,
    seen: Seq<ObjectRef>,
)
    requires
        (seen + kids_nodes(doc, kids, i, depth)).no_duplicates(),
    ensures
        walk_kids(doc, kids, i, depth, seen) == (tree_kids(doc, kids, i, depth), seen + kids_nodes(
            doc,
            kids,
            i,
            depth,
        )),
    decreases depth, kids.len() - i + 1,
{
    if i < 0 || i >= kids.len() {
        assert(seen + Seq::<ObjectRef>::empty() =~= seen);
    } else {
        let rest = kids_nodes(doc, kids, i + 1, depth);
        match kids[i] {
            PdfObject::Reference(r) => {
                let first = tree_nodes(doc, r, depth);
                assert(seen + (first + rest) =~= (seen + first) + rest);
                lemma_prefix_no_duplicates(seen + first, rest);
                lemma_walk_node_as_tree(doc, r, depth, seen);
                lemma_walk_kids_as_tree(doc, kids, i + 1, depth, seen + first);
            },
            _ => {
                assert(Seq::<ObjectRef>::empty() + rest =~= rest);
                lemma_walk_kids_as_tree(doc, kids, i + 1, depth, seen);
                assert(Seq::<(Seq<char>, ObjectRef)>::empty() + tree_kids(doc, kids, i + 1, depth)
                    =~= tree_kids(doc, kids, i + 1, depth));
            },
        }
    }
}

/// For a name tree in which no node is reached twice, the walk from `node`
/// is `tree_walk`: the node's leaf pairs in array order, then the separate
/// depth-first walk of each kid, in `Kids` order.
pub proof fn lemma_tree_walk_is_separate_walks(doc: PdfDocument, node: ObjectRef, depth: nat)
    requires
        tree_nodes(doc, node, depth).no_duplicates(),
    ensures
        walk_node(doc, node, depth, Seq::empty()).0 == tree_walk(doc, node, depth),
{
    assert(Seq::<ObjectRef>::empty() + tree_nodes(doc, node, depth) =~= tree_nodes(doc, node, depth));
    lemma_walk_node_as_tree(doc, node, depth, Seq::empty());
}

} // verus!
