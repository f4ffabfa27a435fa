//! Resolution of one file specification into a decoded attachment with its
//! metadata.
use vstd::prelude::*;
use crate::discovery::{extract_string_from_dict, text_value};
use crate::embedded::{
    opt_string, EmbeddedFile, EmbeddedFileMetadata, EmbeddedFileView, MetadataView,
};
use crate::error::ExtractError;
use crate::object::{key, ObjectRef, PdfDict, PdfDocument, PdfObject, PdfStream};
use crate::text::{
    ascii_lower, ascii_lowercase, hex_encode, hex_text, lossy_text, remove_char, utf8_lossy,
    without_char,
};

verus! {

/// What lopdf's stream decoder makes of a stream whose `Filter` is the given
/// chain of names, whose `DecodeParms` holds the given integer entries, and
/// whose `Subtype` is the given name; none when it reports an error.
pub uninterp spec fn decoded_content(
    filters: Seq<Seq<u8>>,
    parms: Seq<(Seq<u8>, i64)>,
    subtype: Seq<u8>,
    content: Seq<u8>,
) -> Option<Seq<u8>>;

/// A whitespace byte as `u8::is_ascii_whitespace` reads it.
pub open spec fn ascii_space(c: u8) -> bool {
    c == 32 || c == 9 || c == 10 || c == 12 || c == 13
}

/// A trailing ASCII85 group of `count` digits worth `val`, padded with the
/// highest digit to five, still fits in 32 bits.
pub open spec fn a85_tail_fits(val: int, count: int) -> bool {
    if count == 1 {
        val * 52200625 + 52200624 <= 0xFFFF_FFFF
    } else if count == 2 {
        val * 614125 + 614124 <= 0xFFFF_FFFF
    } else if count == 3 {
        val * 7225 + 7224 <= 0xFFFF_FFFF
    } else if count == 4 {
        val * 85 + 84 <= 0xFFFF_FFFF
    } else {
        true
    }
}

/// Reading ASCII85 text from position `i` (with a group of `count` digits
/// worth `val` begun) as lopdf does, every group fits in 32 bits: `z`
/// between groups and whitespace are passed over, and the first byte
/// outside `!`..=`u` ends the text.
pub open spec fn a85_fits_from(s: Seq<u8>, i: int, val: int, count: int) -> bool
    decreases s.len() - i,
{
    if i < 0 || i >= s.len() {
        a85_tail_fits(val, count)
    } else if s[i] == 122 && count == 0 {
        a85_fits_from(s, i + 1, val, count)
    } else if ascii_space(s[i]) {
        a85_fits_from(s, i + 1, val, count)
    } else if !(33 <= s[i] && s[i] <= 117) {
        a85_tail_fits(val, count)
    } else if count == 4 {
        val * 85 + (s[i] - 33) <= 0xFFFF_FFFF && a85_fits_from(s, i + 1, 0, 0)
    } else {
        a85_fits_from(s, i + 1, val * 85 + (s[i] - 33), count + 1)
    }
}

/// The value of the last parameter named `k`, as a dictionary built from
/// `parms` in order holds it.
pub open spec fn parm(parms: Seq<(Seq<u8>, i64)>, k: Seq<u8>) -> Option<i64>
    decreases parms.len(),
{
    if parms.len() == 0 {
        None
    } else if parms.last().0 == k {
        Some(parms.last().1)
    } else {
        parm(parms.drop_last(), k)
    }
}

pub open spec fn parm_at_least(parms: Seq<(Seq<u8>, i64)>, k: Seq<u8>, default: i64, low: i64) -> i64 {
    let v = match parm(parms, k) {
        Some(v) => v,
        None => default,
    };
    if v >= low {
        v
    } else {
        low
    }
}

/// With a PNG predictor (10 to 15), the bytes per pixel and per row that
/// lopdf computes from `Colors`, `BitsPerComponent` and `Columns` fit, and
/// a row, of which lopdf reserves two buffers before reading any data, is
/// at most 16 MiB.
pub open spec fn predictor_fits(parms: Seq<(Seq<u8>, i64)>) -> bool {
    let p = match parm(parms, key("Predictor")) {
        Some(v) => v,
        None => 1,
    };
    let colors = parm_at_least(parms, key("Colors"), 1, 1) as usize;
    let bits = parm_at_least(parms, key("BitsPerComponent"), 8, 8) as usize;
    let columns = parm_at_least(parms, key("Columns"), 1, 1) as usize;
    !(10 <= p && p <= 15) || (colors * bits <= usize::MAX && (colors * bits / 8) * columns
        <= 0x100_0000)
}

/// The inputs on which lopdf's decoder runs without overflow: ASCII85 only
/// as the first filter, on content whose groups fit in 32 bits; predictor
/// row sizes that fit (see `predictor_fits`); content short enough for the
/// doubled buffer that the Flate decoder reserves.
pub open spec fn decode_safe(filters: Seq<Seq<u8>>, parms: Seq<(Seq<u8>, i64)>, content: Seq<u8>) -> bool {
    &&& 2 * content.len() <= isize::MAX
    &&& forall|j: int| 1 <= j < filters.len() ==> filters[j] != key("ASCII85Decode")
    &&& (filters.len() > 0 && filters[0] == key("ASCII85Decode")) ==> a85_fits_from(content, 0, 0, 0)
    &&& predictor_fits(parms)
}

/// Relies on lopdf's `Stream::decompressed_content`, which reads the stream
/// dictionary's `Filter`, `DecodeParms` (integer entries only) and `Subtype`
/// and the content, nothing else; an error becomes `None`. Its arithmetic
/// overflows (a panic in a debug build) outside `decode_safe`.
#[verifier::external_body]
fn decode_stream(
    filters: &Vec<Vec<u8>>,
    parms: &Vec<(Vec<u8>, i64)>,
    subtype: &Vec<u8>,
    content: &Vec<u8>,
) -> (r: Option<Vec<u8>>)
    requires
        decode_safe(filters.deep_view(), parms.deep_view(), content@),
    ensures
        match r {
            Some(v) => decoded_content(filters.deep_view(), parms.deep_view(), subtype@, content@)
                == Some(v@),
            None => decoded_content(filters.deep_view(), parms.deep_view(), subtype@, content@) is None,
        },
{
    let chain = filters.iter().map(|f| lopdf::Object::Name(f.clone())).collect();
    let mut decode_parms = lopdf::Dictionary::new();
    for (k, v) in parms.iter() {
        decode_parms.set(k.clone(), lopdf::Object::Integer(*v));
    }
    let mut dict = lopdf::Dictionary::new();
    dict.set("Filter", lopdf::Object::Array(chain));
    dict.set("DecodeParms", decode_parms);
    dict.set("Subtype", lopdf::Object::Name(subtype.clone()));
    lopdf::Stream::new(dict, content.clone()).decompressed_content().ok()
}

/// The names of `arr` from position `i`, when every item there is a name.
pub open spec fn names_from(arr: Seq<PdfObject>, i: int) -> Option<Seq<Seq<u8>>>
    decreases arr.len() - i,
{
    if i < 0 || i >= arr.len() {
        Some(Seq::empty())
    } else {
        match (arr[i], names_from(arr, i + 1)) {
            (PdfObject::Name(n), Some(rest)) => Some(seq![n@] + rest),
            _ => None,
        }
    }
}

/// The filter chain of a stream: one name, or an array of names.
pub open spec fn filter_chain(d: PdfDict) -> Option<Seq<Seq<u8>>> {
    match d.value(key("Filter")) {
        Some(PdfObject::Name(n)) => Some(seq![n@]),
        Some(PdfObject::Array(a)) => names_from(a@, 0),
        _ => None,
    }
}

/// The integer entries of `entries` from position `i`, in order.
pub open spec fn integer_entries(entries: Seq<(Vec<u8>, PdfObject)>, i: int) -> Seq<(Seq<u8>, i64)>
    decreases entries.len() - i,
{
    if i < 0 || i >= entries.len() {
        Seq::empty()
    } else {
        match entries[i].1 {
            PdfObject::Integer(n) => seq![(entries[i].0@, n)] + integer_entries(entries, i + 1),
            _ => integer_entries(entries, i + 1),
        }
    }
}

/// The integer decode parameters of a stream given inline.
pub open spec fn decode_parms(d: PdfDict) -> Seq<(Seq<u8>, i64)> {
    match d.value(key("DecodeParms")) {
        Some(PdfObject::Dictionary(p)) => integer_entries(p.entries@, 0),
        _ => Seq::empty(),
    }
}

/// The `Subtype` name of a stream, empty when there is none.
pub open spec fn subtype_name(d: PdfDict) -> Seq<u8> {
    match d.value(key("Subtype")) {
        Some(PdfObject::Name(n)) => n@,
        _ => Seq::empty(),
    }
}

/// The decoded content of a stream; none when decoding fails, or when the
/// inputs fall outside `decode_safe`. lopdf's decoder computes in unchecked
/// fixed-width arithmetic and reserves its predictor row buffers before it
/// reads any data, so this library does not hand it: `ASCII85Decode` after
/// another filter (its input is then not known beforehand), ASCII85 groups
/// over 32 bits, or a PNG-predictor row over 16 MiB. Such content is kept as
/// stored, as for any other decoding failure.
pub open spec fn decoded(s: PdfStream) -> Option<Seq<u8>> {
    match filter_chain(s.dict) {
        Some(f) => if decode_safe(f, decode_parms(s.dict), s.content@) {
            decoded_content(f, decode_parms(s.dict), subtype_name(s.dict), s.content@)
        } else {
            None
        },
        None => None,
    }
}

/// The bytes that a stream stands for: as stored when it declares no
/// filter, else its decoded content (none when decoding fails).
pub open spec fn plain_content(s: PdfStream) -> Option<Seq<u8>> {
    if s.dict.value(key("Filter")) is None {
        Some(s.content@)
    } else {
        decoded(s)
    }
}

/// The content of an attachment: decoded, or as stored when decoding fails.
pub open spec fn data_of(s: PdfStream) -> Seq<u8> {
    match decoded(s) {
        Some(d) => d,
        None => s.content@,
    }
}

/// The filename: `UF`, then `F`, then the discovery name, then `attachment`;
/// the first that is non-empty.
pub open spec fn filename_of(spec: PdfDict, fallback: Seq<char>) -> Seq<char> {
    match text_value(spec, key("UF")) {
        Some(t) => t,
        None => match text_value(spec, key("F")) {
            Some(t) => t,
            None => if fallback.len() > 0 {
                fallback
            } else {
                "attachment"@
            },
        },
    }
}

/// The MIME type: the `Subtype` name with `#` removed, lower-cased.
pub open spec fn mime_of(spec: PdfDict) -> Option<Seq<char>> {
    match spec.value(key("Subtype")) {
        Some(PdfObject::Name(n)) => Some(ascii_lower(without_char(lossy_text(n@), '#'))),
        _ => None,
    }
}

/// The text of the string stored under `k`, empty or not.
pub open spec fn string_value(d: PdfDict, k: Seq<u8>) -> Option<Seq<char>> {
    match d.value(k) {
        Some(PdfObject::String(b)) => Some(lossy_text(b@)),
        _ => None,
    }
}

/// The metadata read from a specification and its stream dictionary.
pub open spec fn metadata_of(spec: PdfDict, stream_dict: PdfDict) -> MetadataView {
    let params = match stream_dict.value(key("Params")) {
        Some(PdfObject::Dictionary(p)) => Some(p),
        _ => None,
    };
    MetadataView {
        mime_type: mime_of(spec),
        description: text_value(spec, key("Desc")),
        modification_date: match params {
            Some(p) => string_value(p, key("ModDate")),
            None => None,
        },
        creation_date: match params {
            Some(p) => string_value(p, key("CreationDate")),
            None => None,
        },
        size: match params {
            Some(p) => match p.value(key("Size")) {
                Some(PdfObject::Integer(n)) => Some(n as usize),
                _ => None,
            },
            None => None,
        },
        checksum: match params {
            Some(p) => match p.value(key("CheckSum")) {
                Some(PdfObject::String(b)) => Some(hex_text(b@)),
                _ => None,
            },
            None => None,
        },
    }
}

/// The `EF` dictionary of a specification, inline or through a reference.
pub open spec fn ef_dict(doc: PdfDocument, spec: PdfDict) -> Option<PdfDict> {
    match spec.value(key("EF")) {
        Some(v) => doc.resolve_dict(v),
        None => None,
    }
}

/// The stream reference of an `EF` dictionary: `UF` when present, else `F`.
pub open spec fn stream_ref(ef: PdfDict) -> Option<ObjectRef> {
    match ef.value(key("UF")) {
        Some(v) => v.reference(),
        None => match ef.value(key("F")) {
            Some(v) => v.reference(),
            None => None,
        },
    }
}

/// The embedded stream of a specification.
pub open spec fn embedded_stream(doc: PdfDocument, spec: PdfDict) -> Option<PdfStream> {
    match ef_dict(doc, spec) {
        Some(ef) => match stream_ref(ef) {
            Some(sid) => match doc.object(sid) {
                Some(PdfObject::Stream(s)) => Some(s),
                _ => None,
            },
            None => None,
        },
        None => None,
    }
}

/// The attachment that the specification `id` resolves to, discovered
/// under `name`; none when any step of the chain fails.
pub open spec fn resolved(doc: PdfDocument, name: Seq<char>, id: ObjectRef) -> Option<
    EmbeddedFileView,
> {
    match doc.dict_at(id) {
        Some(spec) => match embedded_stream(doc, spec) {
            Some(s) => Some(
                EmbeddedFileView {
                    filename: filename_of(spec, name),
                    data: data_of(s),
                    metadata: metadata_of(spec, s.dict),
                },
            ),
            None => None,
        },
        None => None,
    }
}

/// The filter names of an array, when every item is a name.
fn filter_names(arr: &Vec<PdfObject>) -> (r: Option<Vec<Vec<u8>>>)
    ensures
        match r {
            Some(v) => names_from(arr@, 0) == Some(v.deep_view()),
            None => names_from(arr@, 0) is None,
        },
{
    let mut out: Vec<Vec<u8>> = Vec::new();
    let mut i: usize = 0;
    while i < arr.len()
        invariant
            0 <= i <= arr@.len(),
            names_from(arr@, 0) == match names_from(arr@, i as int) {
                Some(rest) => Some(out.deep_view() + rest),
                None => None,
            },
        decreases arr@.len() - i,
    {
        match &arr[i] {
            PdfObject::Name(n) => {
                let ghost before = out.deep_view();
                let c = n.clone();
                assert(c@ == n@);
                assert(c.deep_view() =~= c@);
                out.push(c);
                assert(out.deep_view() =~= before.push(n@));
                assert(forall|rest: Seq<Seq<u8>>|
                    before + (seq![n@] + rest) =~= #[trigger] (before.push(n@) + rest));
            },
            _ => {
                return None;
            },
        }
        i = i + 1;
    }
    assert(out.deep_view() + Seq::empty() =~= out.deep_view());
    Some(out)
}

/// The filter chain of a stream dictionary.
fn stream_filters(d: &PdfDict) -> (r: Option<Vec<Vec<u8>>>)
    ensures
        match r {
            Some(v) => filter_chain(*d) == Some(v.deep_view()),
            None => filter_chain(*d) is None,
        },
{
    match d.get("Filter") {
        Some(PdfObject::Name(n)) => {
            let mut v: Vec<Vec<u8>> = Vec::new();
            let c = n.clone();
            assert(c@ == n@);
            assert(c.deep_view() =~= c@);
            v.push(c);
            assert(v.deep_view() =~= seq![n@]);
            Some(v)
        },
        Some(PdfObject::Array(a)) => filter_names(a),
        _ => None,
    }
}

/// The integer decode parameters of a stream dictionary.
fn stream_decode_parms(d: &PdfDict) -> (r: Vec<(Vec<u8>, i64)>)
    ensures
        r.deep_view() == decode_parms(*d),
{
    let mut out: Vec<(Vec<u8>, i64)> = Vec::new();
    match d.get("DecodeParms") {
        Some(PdfObject::Dictionary(p)) => {
            let mut i: usize = 0;
            while i < p.entries.len()
                invariant
                    0 <= i <= p.entries@.len(),
                    out.deep_view() + integer_entries(p.entries@, i as int) == integer_entries(
                        p.entries@,
                        0,
                    ),
                decreases p.entries@.len() - i,
            {
                let ghost before = out.deep_view();
                match &p.entries[i].1 {
                    PdfObject::Integer(n) => {
                        let k = p.entries[i].0.clone();
                        assert(k@ == p.entries@[i as int].0@);
                        assert(k.deep_view() =~= k@);
                        out.push((k, *n));
                        assert(out.deep_view() =~= before.push((p.entries@[i as int].0@, *n)));
                        assert(out.deep_view() + integer_entries(p.entries@, i + 1) =~= before
                            + integer_entries(p.entries@, i as int));
                    },
                    _ => {},
                }
                i = i + 1;
            }
            assert(out.deep_view() + integer_entries(p.entries@, i as int) =~= out.deep_view());
        },
        _ => {
            assert(out.deep_view() =~= Seq::empty());
        },
    }
    out
}

/// The `Subtype` name of a stream dictionary, empty when there is none.
fn stream_subtype(d: &PdfDict) -> (r: Vec<u8>)
    ensures
        r@ == subtype_name(*d),
{
    match d.get("Subtype") {
        Some(PdfObject::Name(n)) => n.clone(),
        _ => Vec::new(),
    }
}

fn a85_tail_fits_exec(val: u64, count: u64) -> (r: bool)
    requires
        count <= 4,
        count == 0 ==> val == 0,
        count == 1 ==> val < 85,
        count == 2 ==> val < 7225,
        count == 3 ==> val < 614125,
        count == 4 ==> val < 52200625,
    ensures
        r == a85_tail_fits(val as int, count as int),
{
    if count == 1 {
        val * 52200625 + 52200624 <= 0xFFFF_FFFF
    } else if count == 2 {
        val * 614125 + 614124 <= 0xFFFF_FFFF
    } else if count == 3 {
        val * 7225 + 7224 <= 0xFFFF_FFFF
    } else if count == 4 {
        val * 85 + 84 <= 0xFFFF_FFFF
    } else {
        true
    }
}

/// Whether every ASCII85 group of `s` fits in 32 bits.
fn a85_fits(s: &Vec<u8>) -> (r: bool)
    ensures
        r == a85_fits_from(s@, 0, 0, 0),
{
    let mut val: u64 = 0;
    let mut count: u64 = 0;
    let mut i: usize = 0;
    while i < s.len()
        invariant
            0 <= i <= s@.len(),
            count <= 4,
            count == 0 ==> val == 0,
            count == 1 ==> val < 85,
            count == 2 ==> val < 7225,
            count == 3 ==> val < 614125,
            count == 4 ==> val < 52200625,
            a85_fits_from(s@, 0, 0, 0) == a85_fits_from(s@, i as int, val as int, count as int),
        decreases s@.len() - i,
    {
        let c = s[i];
        if c == 122 && count == 0 {
        } else if c == 32 || c == 9 || c == 10 || c == 12 || c == 13 {
        } else if !(33 <= c && c <= 117) {
            return a85_tail_fits_exec(val, count);
        } else if count == 4 {
            if val * 85 + ((c - 33) as u64) > 0xFFFF_FFFF {
                return false;
            }
            val = 0;
            count = 0;
        } else {
            val = val * 85 + ((c - 33) as u64);
            count = count + 1;
        }
        i = i + 1;
    }
    a85_tail_fits_exec(val, count)
}

/// The value of the last parameter named `k`.
fn parm_value(parms: &Vec<(Vec<u8>, i64)>, k: &str) -> (r: Option<i64>)
    ensures
        r == parm(parms.deep_view(), key(k)),
{
    let kb = k.as_bytes();
    let mut i: usize = parms.len();
    assert(parms.deep_view().subrange(0, i as int) =~= parms.deep_view());
    while i > 0
        invariant
            0 <= i <= parms@.len(),
            kb@ == key(k),
            parm(parms.deep_view(), key(k)) == parm(parms.deep_view().subrange(0, i as int), key(k)),
        decreases i,
    {
        let ghost pre = parms.deep_view().subrange(0, i as int);
        assert(pre.drop_last() =~= parms.deep_view().subrange(0, i - 1));
        assert(parms@[i - 1].0.deep_view() =~= parms@[i - 1].0@);
        if crate::object::bytes_eq(parms[i - 1].0.as_slice(), kb) {
            return Some(parms[i - 1].1);
        }
        i = i - 1;
    }
    assert(parms.deep_view().subrange(0, 0) =~= Seq::<(Seq<u8>, i64)>::empty());
    None
}

fn parm_at_least_exec(parms: &Vec<(Vec<u8>, i64)>, k: &str, default: i64, low: i64) -> (r: i64)
    ensures
        r == parm_at_least(parms.deep_view(), key(k), default, low),
{
    let v = match parm_value(parms, k) {
        Some(v) => v,
        None => default,
    };
    if v >= low {
        v
    } else {
        low
    }
}

fn predictor_fits_exec(parms: &Vec<(Vec<u8>, i64)>) -> (r: bool)
    ensures
        r == predictor_fits(parms.deep_view()),
{
    let p = match parm_value(parms, "Predictor") {
        Some(v) => v,
        None => 1,
    };
    if !(10 <= p && p <= 15) {
        return true;
    }
    let colors = parm_at_least_exec(parms, "Colors", 1, 1) as usize;
    let bits = parm_at_least_exec(parms, "BitsPerComponent", 8, 8) as usize;
    let columns = parm_at_least_exec(parms, "Columns", 1, 1) as usize;
    match colors.checked_mul(bits) {
        None => false,
        Some(cb) => match (cb / 8).checked_mul(columns) {
            None => false,
            Some(row) => row <= 0x100_0000,
        },
    }
}

/// Whether lopdf's decoder runs without overflow on these inputs.
fn decode_is_safe(filters: &Vec<Vec<u8>>, parms: &Vec<(Vec<u8>, i64)>, content: &Vec<u8>) -> (r: bool)
    ensures
        r == decode_safe(filters.deep_view(), parms.deep_view(), content@),
{
    if content.len() > (isize::MAX as usize) / 2 {
        return false;
    }
    let a85 = "ASCII85Decode".as_bytes();
    let mut j: usize = 1;
    while j < filters.len()
        invariant
            1 <= j,
            j <= filters@.len() || filters@.len() == 0,
            a85@ == key("ASCII85Decode"),
            forall|m: int| 1 <= m < j && m < filters@.len() ==> filters.deep_view()[m] != key("ASCII85Decode"),
        decreases filters@.len() - j,
    {
        assert(filters.deep_view()[j as int] =~= filters@[j as int]@);
        if crate::object::bytes_eq(filters[j].as_slice(), a85) {
            return false;
        }
        j = j + 1;
    }
    if filters.len() > 0 {
        assert(filters.deep_view()[0] =~= filters@[0]@);
        if crate::object::bytes_eq(filters[0].as_slice(), a85) && !a85_fits(content) {
            return false;
        }
    }
    predictor_fits_exec(parms)
}

/// Decodes a stream through its filter chain; none when that fails.
pub fn decode_content(s: &PdfStream) -> (r: Option<Vec<u8>>)
    ensures
        match r {
            Some(v) => decoded(*s) == Some(v@),
            None => decoded(*s) is None,
        },
{
    match stream_filters(&s.dict) {
        Some(filters) => {
            let parms = stream_decode_parms(&s.dict);
            if !decode_is_safe(&filters, &parms, &s.content) {
                return None;
            }
            let subtype = stream_subtype(&s.dict);
            decode_stream(&filters, &parms, &subtype, &s.content)
        },
        None => None,
    }
}

/// The bytes that a stream stands for: as stored without a filter, else
/// decoded.
pub fn plain_stream_content(s: &PdfStream) -> (r: Option<Vec<u8>>)
    ensures
        match r {
            Some(v) => plain_content(*s) == Some(v@),
            None => plain_content(*s) is None,
        },
{
    if s.dict.get("Filter").is_none() {
        Some(s.content.clone())
    } else {
        decode_content(s)
    }
}

/// The content of a stream, decoded when that succeeds, else as stored.
pub fn stream_data(s: &PdfStream) -> (r: Vec<u8>)
    ensures
        r@ == data_of(*s),
{
    match decode_content(s) {
        Some(d) => d,
        None => s.content.clone(),
    }
}

/// Chooses the filename of an attachment.
fn best_filename(spec: &PdfDict, fallback: &str) -> (r: String)
    ensures
        r@ == filename_of(*spec, fallback@),
{
    match extract_string_from_dict(spec, "UF") {
        Some(s) => s,
        None => match extract_string_from_dict(spec, "F") {
            Some(s) => s,
            None => if fallback.unicode_len() > 0 {
                String::from_str(fallback)
            } else {
                String::from_str("attachment")
            },
        },
    }
}

/// Reads the string stored under `k` as text, empty or not.
fn read_string(d: &PdfDict, k: &str) -> (r: Option<String>)
    ensures
        opt_string(r) == string_value(*d, key(k)),
{
    match d.get(k) {
        Some(PdfObject::String(b)) => Some(utf8_lossy(b.as_slice())),
        _ => None,
    }
}

/// Reads the metadata of a specification and its stream dictionary.
pub fn read_metadata(spec: &PdfDict, stream_dict: &PdfDict) -> (r: EmbeddedFileMetadata)
    ensures
        r@ == metadata_of(*spec, *stream_dict),
{
    let mut m = EmbeddedFileMetadata::default();
    m.description = extract_string_from_dict(spec, "Desc");
    match spec.get("Subtype") {
        Some(PdfObject::Name(n)) => {
            let text = utf8_lossy(n.as_slice());
            let bare = remove_char(text.as_str(), '#');
            m.mime_type = Some(ascii_lowercase(bare.as_str()));
        },
        _ => {},
    }
    match stream_dict.get("Params") {
        Some(PdfObject::Dictionary(p)) => {
            m.modification_date = read_string(p, "ModDate");
            m.creation_date = read_string(p, "CreationDate");
            match p.get("Size") {
                Some(PdfObject::Integer(n)) => {
                    m.size = Some(*n as usize);
                },
                _ => {},
            }
            match p.get("CheckSum") {
                Some(PdfObject::String(b)) => {
                    m.checksum = Some(hex_encode(b.as_slice()));
                },
                _ => {},
            }
        },
        _ => {},
    }
    m
}

/// The failure of the specification discovered under `name`.
pub open spec fn fails_for(e: ExtractError, name: Seq<char>) -> bool {
    e matches ExtractError::ExtractionError(n, _) && n@ == name
}

fn extraction_error(name: &str, reason: &str) -> (e: ExtractError)
    ensures
        fails_for(e, name@),
{
    ExtractError::ExtractionError(String::from_str(name), String::from_str(reason))
}

/// Resolves file specifications of a document.
pub struct FileSpecParser<'a> {
    document: &'a PdfDocument,
}

impl<'a> FileSpecParser<'a> {
    pub fn new(document: &'a PdfDocument) -> (r: Self)
        ensures
            r.doc() == *document,
    {
        FileSpecParser { document }
    }

    /// The document read.
    pub closed spec fn doc(&self) -> PdfDocument {
        *self.document
    }

    /// The `EF` dictionary of a specification, inline or through a reference.
    fn resolve_ef_dictionary(&self, spec: &'a PdfDict, name: &str) -> (r: Result<&'a PdfDict, ExtractError>)
        ensures
            match r {
                Ok(d) => ef_dict(self.doc(), *spec) == Some(*d),
                Err(e) => ef_dict(self.doc(), *spec) is None && fails_for(e, name@),
            },
    {
        let ef_val = match spec.get("EF") {
            Some(v) => v,
            None => return Err(extraction_error(name, "missing /EF entry")),
        };
        match self.document.resolve_dict_value(ef_val) {
            Some(d) => Ok(d),
            None => Err(extraction_error(name, "/EF is not a dictionary")),
        }
    }

    /// The stream that an `EF` dictionary designates, `UF` before `F`.
    fn extract_embedded_stream(&self, ef: &PdfDict, name: &str) -> (r: Result<
        &'a PdfStream,
        ExtractError,
    >)
        ensures
            match r {
                Ok(s) => match stream_ref(*ef) {
                    Some(sid) => self.doc().object(sid) == Some(PdfObject::Stream(*s)),
                    None => false,
                },
                Err(e) => fails_for(e, name@) && match stream_ref(*ef) {
                    Some(sid) => !(self.doc().object(sid) matches Some(PdfObject::Stream(_))),
                    None => true,
                },
            },
    {
        let stream_val = match ef.get("UF") {
            Some(v) => v,
            None => match ef.get("F") {
                Some(v) => v,
                None => return Err(extraction_error(name, "/EF has neither /F nor /UF")),
            },
        };
        let stream_id = match stream_val.as_reference() {
            Some(id) => id,
            None => return Err(extraction_error(name, "/EF stream entry is not a reference")),
        };
        match self.document.get_object(stream_id) {
            Some(PdfObject::Stream(s)) => Ok(s),
            _ => Err(extraction_error(name, "embedded stream object is not a stream")),
        }
    }

    /// Resolves the specification `spec_id`, discovered under `name`, into
    /// an attachment: its decoded content (the stored bytes when decoding
    /// fails), its filename and its metadata. Every failure is an
    /// `ExtractionError` naming `name`.
    pub fn parse_file_spec(&self, name: &str, spec_id: ObjectRef) -> (r: Result<
        EmbeddedFile,
        ExtractError,
    >)
        ensures
            match r {
                Ok(f) => resolved(self.doc(), name@, spec_id) == Some(f@) && f.filename@.len() > 0,
                Err(e) => resolved(self.doc(), name@, spec_id) is None && fails_for(e, name@),
            },
    {
        proof {
            lemma_filename_never_empty(self.doc(), name@, spec_id);
        }
        let spec = match self.document.get_dict(spec_id) {
            Some(d) => d,
            None => return Err(extraction_error(name, "file spec is not a dictionary")),
        };
        let ef = self.resolve_ef_dictionary(spec, name)?;
        let stream = self.extract_embedded_stream(ef, name)?;
        let data = stream_data(stream);
        let filename = best_filename(spec, name);
        let metadata = read_metadata(spec, &stream.dict);
        Ok(EmbeddedFile { filename, data, metadata })
    }
}

/// The Unicode name wins: when the specification's `UF` holds non-empty text,
/// that text is the filename of the resolved attachment, whatever `F` and the
/// discovery name hold.
pub proof fn lemma_unicode_name_preferred(
    doc: PdfDocument,
    name: Seq<char>,
    id: ObjectRef,
    spec: PdfDict,
    unicode: Seq<char>,
)
    requires
        doc.dict_at(id) == Some(spec),
        text_value(spec, key("UF")) == Some(unicode),
    ensures
        filename_of(spec, name) == unicode,
        resolved(doc, name, id) matches Some(f) ==> f.filename == unicode,
{
}

/// A resolved attachment always has a non-empty filename.
pub proof fn lemma_filename_never_empty(doc: PdfDocument, name: Seq<char>, id: ObjectRef)
    ensures
        resolved(doc, name, id) matches Some(f) ==> f.filename.len() > 0,
{
    reveal_strlit("attachment");
}

} // verus!
