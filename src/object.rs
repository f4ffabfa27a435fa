//! A plain model of a PDF object graph: what the loader hands the library.
//! Indirect objects are stored as the loader resolves them (a chain of
//! references already followed), pages in page order.
use vstd::prelude::*;
use vstd::string::StringSliceAdditionalSpecFns;

verus! {

/// Identifies an indirect object: its number and generation.
#[derive(Clone, Copy, Debug, PartialEq, Eq, Structural)]
pub struct ObjectRef {
    pub number: u32,
    pub generation: u16,
}

/// One value of the object graph.
#[derive(Debug)]
pub enum PdfObject {
    Null,
    Boolean(bool),
    Integer(i64),
    /// A real number; its value is never read by this library.
    Real,
    Name(Vec<u8>),
    String(Vec<u8>),
    Array(Vec<PdfObject>),
    Dictionary(PdfDict),
    Stream(PdfStream),
    Reference(ObjectRef),
}

/// A dictionary: keys in declared order (the loader gives each key once).
#[derive(Debug)]
pub struct PdfDict {
    pub entries: Vec<(Vec<u8>, PdfObject)>,
}

/// A stream: its dictionary and its content as stored (still encoded).
#[derive(Debug)]
pub struct PdfStream {
    pub dict: PdfDict,
    pub content: Vec<u8>,
}

/// A loaded document.
#[derive(Debug)]
pub struct PdfDocument {
    /// Each indirect object with the value it resolves to.
    pub objects: Vec<(ObjectRef, PdfObject)>,
    /// The page objects, in page order.
    pub pages: Vec<ObjectRef>,
    /// The trailer dictionary.
    pub trailer: PdfDict,
}

/// The bytes of a key written as text.
pub open spec fn key(k: &str) -> Seq<u8> {
    k.spec_bytes()
}

/// `r` is `o` seen through a reference.
pub open spec fn same_obj(r: Option<&PdfObject>, o: Option<PdfObject>) -> bool {
    match r {
        Some(x) => o == Some(*x),
        None => o is None,
    }
}

pub open spec fn same_dict(r: Option<&PdfDict>, o: Option<PdfDict>) -> bool {
    match r {
        Some(x) => o == Some(*x),
        None => o is None,
    }
}

/// Byte sequences compared element by element.
pub fn bytes_eq(a: &[u8], b: &[u8]) -> (r: bool)
    ensures
        r == (a@ == b@),
{
    if a.len() != b.len() {
        return false;
    }
    let mut i: usize = 0;
    while i < a.len()
        invariant
            a@.len() == b@.len(),
            0 <= i <= a@.len(),
            forall|j: int| 0 <= j < i ==> a@[j] == b@[j],
        decreases a@.len() - i,
    {
        if a[i] != b[i] {
            return false;
        }
        i = i + 1;
    }
    assert(a@ =~= b@);
    true
}

impl PdfObject {
    pub open spec fn reference(self) -> Option<ObjectRef> {
        match self {
            PdfObject::Reference(r) => Some(r),
            _ => None,
        }
    }

    pub fn as_reference(&self) -> (r: Option<ObjectRef>)
        ensures
            r == self.reference(),
    {
        match self {
            PdfObject::Reference(r) => Some(*r),
            _ => None,
        }
    }
}

impl PdfDict {
    /// The value of the first entry at or after `i` whose key is `k`.
    pub open spec fn value_from(self, k: Seq<u8>, i: int) -> Option<PdfObject>
        decreases self.entries@.len() - i,
    {
        if i < 0 || i >= self.entries@.len() {
            None
        } else if self.entries@[i].0@ == k {
            Some(self.entries@[i].1)
        } else {
            self.value_from(k, i + 1)
        }
    }

    /// The value stored under `k`.
    pub open spec fn value(self, k: Seq<u8>) -> Option<PdfObject> {
        self.value_from(k, 0)
    }

    /// Looks up the value stored under `k`.
    pub fn get(&self, k: &str) -> (r: Option<&PdfObject>)
        ensures
            same_obj(r, self.value(key(k))),
    {
        let kb = k.as_bytes();
        let mut i: usize = 0;
        while i < self.entries.len()
            invariant
                0 <= i <= self.entries@.len(),
                kb@ == key(k),
                self.value(key(k)) == self.value_from(key(k), i as int),
            decreases self.entries@.len() - i,
        {
            if bytes_eq(self.entries[i].0.as_slice(), kb) {
                return Some(&self.entries[i].1);
            }
            i = i + 1;
        }
        None
    }
}

impl PdfDocument {
    /// The object stored under `id`, searching from position `i`.
    pub open spec fn object_from(self, id: ObjectRef, i: int) -> Option<PdfObject>
        decreases self.objects@.len() - i,
    {
        if i < 0 || i >= self.objects@.len() {
            None
        } else if self.objects@[i].0 == id {
            Some(self.objects@[i].1)
        } else {
            self.object_from(id, i + 1)
        }
    }

    /// What `id` resolves to, if anything.
    pub open spec fn object(self, id: ObjectRef) -> Option<PdfObject> {
        self.object_from(id, 0)
    }

    /// The dictionary that `id` resolves to.
    pub open spec fn dict_at(self, id: ObjectRef) -> Option<PdfDict> {
        match self.object(id) {
            Some(PdfObject::Dictionary(d)) => Some(d),
            _ => None,
        }
    }

    /// A dictionary given inline or through a reference.
    pub open spec fn resolve_dict(self, v: PdfObject) -> Option<PdfDict> {
        match v {
            PdfObject::Reference(r) => self.dict_at(r),
            PdfObject::Dictionary(d) => Some(d),
            _ => None,
        }
    }

    /// An array given inline or through a reference.
    pub open spec fn resolve_array(self, v: PdfObject) -> Option<Seq<PdfObject>> {
        match v {
            PdfObject::Reference(r) => match self.object(r) {
                Some(PdfObject::Array(a)) => Some(a@),
                _ => None,
            },
            PdfObject::Array(a) => Some(a@),
            _ => None,
        }
    }

    /// The catalog: the dictionary that the trailer's `Root` refers to.
    pub open spec fn catalog(self) -> Option<PdfDict> {
        match self.trailer.value(key("Root")) {
            Some(PdfObject::Reference(r)) => self.dict_at(r),
            _ => None,
        }
    }

    /// Looks up what `id` resolves to.
    pub fn get_object(&self, id: ObjectRef) -> (r: Option<&PdfObject>)
        ensures
            same_obj(r, self.object(id)),
    {
        let mut i: usize = 0;
        while i < self.objects.len()
            invariant
                0 <= i <= self.objects@.len(),
                self.object(id) == self.object_from(id, i as int),
            decreases self.objects@.len() - i,
        {
            if self.objects[i].0 == id {
                return Some(&self.objects[i].1);
            }
            i = i + 1;
        }
        None
    }

    /// Looks up the dictionary that `id` resolves to.
    pub fn get_dict(&self, id: ObjectRef) -> (r: Option<&PdfDict>)
        ensures
            same_dict(r, self.dict_at(id)),
    {
        match self.get_object(id) {
            Some(PdfObject::Dictionary(d)) => Some(d),
            _ => None,
        }
    }

    /// A dictionary given inline or through a reference.
    pub fn resolve_dict_value<'a>(&'a self, v: &'a PdfObject) -> (r: Option<&'a PdfDict>)
        ensures
            same_dict(r, self.resolve_dict(*v)),
    {
        match v {
            PdfObject::Reference(id) => self.get_dict(*id),
            PdfObject::Dictionary(d) => Some(d),
            _ => None,
        }
    }

    /// An array given inline or through a reference.
    pub fn resolve_array_value<'a>(&'a self, v: &'a PdfObject) -> (r: Option<&'a Vec<PdfObject>>)
        ensures
            match r {
                Some(a) => self.resolve_array(*v) == Some(a@),
                None => self.resolve_array(*v) is None,
            },
    {
        match v {
            PdfObject::Reference(id) => match self.get_object(*id) {
                Some(PdfObject::Array(a)) => Some(a),
                _ => None,
            },
            PdfObject::Array(a) => Some(a),
            _ => None,
        }
    }

    /// Looks up the catalog.
    pub fn catalog_dict(&self) -> (r: Option<&PdfDict>)
        ensures
            same_dict(r, self.catalog()),
    {
        match self.trailer.get("Root") {
            Some(PdfObject::Reference(id)) => self.get_dict(*id),
            _ => None,
        }
    }
}

} // verus!
