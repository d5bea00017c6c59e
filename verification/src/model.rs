//! The mathematical model of a PDF document: its trailer, its indirect
//! objects, and what else decides the bytes of a saved copy.

use vstd::prelude::*;
use vstd::utf8::encode_utf8;

verus! {

/// An indirect object's number and generation.
pub type ObjectId = (u32, u16);

/// The entries of a dictionary, in the order in which they are written.
pub type Entries = Seq<(Seq<u8>, Value)>;

/// A PDF object.
pub enum Value {
    Null,
    Boolean(bool),
    Integer(i64),
    /// A number with a fraction, by the bits of its single-precision form.
    Real(u32),
    Name(Seq<u8>),
    Text { bytes: Seq<u8>, hexadecimal: bool },
    Array(Seq<Value>),
    Dictionary(Seq<(Seq<u8>, Value)>),
    Stream { entries: Seq<(Seq<u8>, Value)>, content: Seq<u8> },
    Reference(ObjectId),
}

impl Value {
    /// The object that this value refers to, if it is a reference.
    pub open spec fn reference(self) -> Option<ObjectId> {
        match self {
            Value::Reference(id) => Some(id),
            _ => None,
        }
    }

    /// The entries of this value, if it is a dictionary.
    pub open spec fn dictionary(self) -> Option<Entries> {
        match self {
            Value::Dictionary(entries) => Some(entries),
            _ => None,
        }
    }
}

/// The literal string that holds `text`.
pub open spec fn text_value(text: Seq<char>) -> Value {
    Value::Text { bytes: encode_utf8(text), hexadecimal: false }
}

/// The name object spelled `text`.
pub open spec fn name_value(text: Seq<char>) -> Value {
    Value::Name(encode_utf8(text))
}

/// The index of the first entry under `key`; the number of entries if there
/// is none.
pub open spec fn position(entries: Entries, key: Seq<u8>) -> nat
    decreases entries.len(),
{
    if entries.len() == 0 || entries[0].0 == key {
        0
    } else {
        1 + position(entries.drop_first(), key)
    }
}

/// The value under the key `name`.
pub open spec fn lookup(entries: Entries, name: Seq<char>) -> Option<Value> {
    let i = position(entries, encode_utf8(name));
    if i < entries.len() {
        Some(entries[i as int].1)
    } else {
        None
    }
}

/// The entries once `value` was put under the key `name`: a key that is
/// there keeps its place, a new one comes last.
pub open spec fn set_entry(entries: Entries, name: Seq<char>, value: Value) -> Entries {
    let key = encode_utf8(name);
    let i = position(entries, key);
    if i < entries.len() {
        entries.update(i as int, (entries[i as int].0, value))
    } else {
        entries.push((key, value))
    }
}

/// A PDF document.
pub struct Pdf {
    pub version: Seq<char>,
    pub binary_mark: Seq<u8>,
    pub trailer: Entries,
    pub objects: Map<ObjectId, Value>,
    /// No object number above this one was given out.
    pub max_id: u32,
    /// Whether the cross-reference data is written as a stream.
    pub cross_reference_stream: bool,
}

impl Pdf {
    /// What holds of every document that was read from a file: no object is
    /// numbered above `max_id`, and the binary mark has no ASCII byte.
    pub open spec fn well_formed(self) -> bool {
        &&& forall|id: ObjectId| #[trigger]
            self.objects.contains_key(id) ==> id.0 <= self.max_id
        &&& forall|i: int|
            0 <= i < self.binary_mark.len() ==> #[trigger] self.binary_mark[i] >= 128
    }

    /// Whether the document can be written: its binary mark has no ASCII byte,
    /// and a cross-reference stream, which is an object, can get a number.
    pub open spec fn savable(self) -> bool {
        &&& forall|i: int|
            0 <= i < self.binary_mark.len() ==> #[trigger] self.binary_mark[i] >= 128
        &&& self.cross_reference_stream ==> self.max_id < u32::MAX
    }

    /// The object that the trailer's entry `name` refers to, if it is there
    /// and is a reference.
    pub open spec fn trailer_reference(self, name: Seq<char>) -> Option<ObjectId> {
        match lookup(self.trailer, name) {
            Some(value) => value.reference(),
            None => None,
        }
    }

    /// The entries of the object `id`, if it is there and is a dictionary.
    pub open spec fn dictionary(self, id: ObjectId) -> Option<Entries> {
        if self.objects.contains_key(id) {
            self.objects[id].dictionary()
        } else {
            None
        }
    }

    /// The identifier that the next new object gets.
    pub open spec fn next_id(self) -> ObjectId {
        ((self.max_id + 1) as u32, 0)
    }

    /// The document with `value` as its object `id`.
    pub open spec fn with_object(self, id: ObjectId, value: Value) -> Pdf {
        Pdf { objects: self.objects.insert(id, value), ..self }
    }

    /// The document with `value` as a new object.
    pub open spec fn with_new_object(self, value: Value) -> Pdf {
        Pdf {
            objects: self.objects.insert(self.next_id(), value),
            max_id: self.next_id().0,
            ..self
        }
    }

    /// The document with `value` under the trailer's key `name`.
    pub open spec fn with_trailer_entry(self, name: Seq<char>, value: Value) -> Pdf {
        Pdf { trailer: set_entry(self.trailer, name, value), ..self }
    }
}

/// Whether `piece` stands somewhere in `bytes`.
pub open spec fn holds(bytes: Seq<u8>, piece: Seq<u8>) -> bool {
    exists|at: int|
        0 <= at && at + piece.len() <= bytes.len() && #[trigger] bytes.subrange(
            at,
            at + piece.len(),
        ) == piece
}

/// Whether a byte of a name is written as it is: a printable ASCII byte that
/// is neither a delimiter nor `#`.
pub open spec fn is_regular(byte: u8) -> bool {
    33 <= byte <= 126 && byte != 0x23 && byte != 0x25 && byte != 0x28 && byte != 0x29 && byte
        != 0x2f && byte != 0x3c && byte != 0x3e && byte != 0x5b && byte != 0x5d && byte != 0x7b
        && byte != 0x7d
}

/// Whether a byte of a literal string is written as it is, wherever it
/// stands: all are but parentheses, the backslash and the carriage return.
pub open spec fn is_verbatim(byte: u8) -> bool {
    byte != 0x28 && byte != 0x29 && byte != 0x5c && byte != 0x0d
}

pub open spec fn all_regular(bytes: Seq<u8>) -> bool {
    forall|i: int| 0 <= i < bytes.len() ==> is_regular(#[trigger] bytes[i])
}

pub open spec fn all_verbatim(bytes: Seq<u8>) -> bool {
    forall|i: int| 0 <= i < bytes.len() ==> is_verbatim(#[trigger] bytes[i])
}

/// What is written right behind a key for this value; nothing is said of
/// values other than plain names and plain literal strings.
pub open spec fn written_value(value: Value) -> Seq<u8> {
    match value {
        Value::Name(name) => if all_regular(name) {
            seq![0x2fu8] + name
        } else {
            seq![]
        },
        Value::Text { bytes, hexadecimal: false } => if all_verbatim(bytes) {
            seq![0x28u8] + bytes + seq![0x29u8]
        } else {
            seq![]
        },
        _ => seq![],
    }
}

/// Whether an object with these entries is left out of a written document,
/// because it describes the layout of the old file.
pub open spec fn is_left_out(entries: Entries) -> bool {
    match lookup(entries, "Type"@) {
        Some(Value::Name(name)) => name == encode_utf8("ObjStm"@) || name == encode_utf8("XRef"@)
            || name == encode_utf8("Linearized"@),
        _ => lookup(entries, "Linearized"@) is Some,
    }
}

/// Whether each stretch of a literal string that has no byte which is written
/// otherwise stands in the written bytes.
pub open spec fn shows_stretches(bytes: Seq<u8>, text: Seq<u8>) -> bool {
    forall|from: int, to: int|
        0 <= from <= to <= text.len() && all_verbatim(#[trigger] text.subrange(from, to)) ==> holds(
            bytes,
            text.subrange(from, to),
        )
}

/// Whether the entry stands in the written bytes: a plain key with a plain
/// value behind it, and the plain stretches of a literal string.
pub open spec fn shows_entry(bytes: Seq<u8>, key: Seq<u8>, value: Value) -> bool {
    &&& all_regular(key) ==> holds(bytes, seq![0x2fu8] + key + written_value(value))
    &&& match value {
        Value::Text { bytes: text, hexadecimal: false } => shows_stretches(bytes, text),
        _ => true,
    }
}

/// Whether the entries of every dictionary object that is not left out stand
/// in the written bytes.
pub open spec fn shows_dictionaries(bytes: Seq<u8>, pdf: Pdf) -> bool {
    forall|id: ObjectId, i: int|
        #![trigger pdf.dictionary(id)->0[i]]
        pdf.dictionary(id) is Some && !is_left_out(pdf.dictionary(id)->0) && 0 <= i
            < pdf.dictionary(id)->0.len() ==> shows_entry(
            bytes,
            pdf.dictionary(id)->0[i].0,
            pdf.dictionary(id)->0[i].1,
        )
}

/// Whether the value is a literal string.
pub open spec fn is_literal(value: Value) -> bool {
    value matches Value::Text { hexadecimal, .. } && !hexadecimal
}

/// Whether two documents with the same header and the same other objects
/// differ in the object `id`, a dictionary that is written out in both, and
/// there first in the value of its entry `i`, which is a literal string in at
/// least one of them.
pub open spec fn differ_in_text(one: Pdf, other: Pdf, id: ObjectId, i: int) -> bool {
    let a = one.dictionary(id)->0;
    let b = other.dictionary(id)->0;
    &&& one.version == other.version
    &&& one.binary_mark == other.binary_mark
    &&& one.objects.remove(id) == other.objects.remove(id)
    &&& one.dictionary(id) is Some && !is_left_out(a)
    &&& other.dictionary(id) is Some && !is_left_out(b)
    &&& 0 <= i < a.len() && i < b.len()
    &&& a.take(i) == b.take(i)
    &&& a[i].0 == b[i].0
    &&& a[i].1 != b[i].1
    &&& is_literal(a[i].1) || is_literal(b[i].1)
}

} // verus!
