//! The part of `lopdf` that the library builds on. Each function here makes
//! one call into that crate, and its contract, which is not proved, says what
//! the call does to the document's model.

use crate::model::{
    differ_in_text, holds, lookup, name_value, set_entry, shows_dictionaries, text_value, Entries,
    ObjectId, Pdf, Value,
};
use lopdf::Error as LopdfError;
use std::io::Error as IoError;
use vstd::prelude::*;
use vstd::utf8::encode_utf8;

verus! {

/// `lopdf::Document`, a whole PDF document in memory.
#[verifier::external_type_specification]
#[verifier::external_body]
pub struct ExDocument(lopdf::Document);

/// `lopdf::Dictionary`, a PDF dictionary that keeps the order of its entries.
#[verifier::external_type_specification]
#[verifier::external_body]
pub struct ExDictionary(lopdf::Dictionary);

/// `lopdf::Object`, a PDF object of any kind.
#[verifier::external_type_specification]
#[verifier::external_body]
pub struct ExObject(lopdf::Object);

/// `lopdf::Error`, the reason why bytes cannot be read as a PDF.
#[verifier::external_type_specification]
#[verifier::external_body]
pub struct ExLopdfError(LopdfError);

/// `std::io::Error`, the reason why a document cannot be written.
#[verifier::external_type_specification]
#[verifier::external_body]
pub struct ExIoError(IoError);

/// What a document holds: its fields `version`, `binary_mark`, `trailer`,
/// `objects` and `max_id`, and the kind of its `reference_table`.
pub uninterp spec fn pdf_of(document: lopdf::Document) -> Pdf;

/// The entries of a dictionary, in its own order.
pub uninterp spec fn entries_of(dictionary: lopdf::Dictionary) -> Entries;

/// What an object holds.
pub uninterp spec fn value_of(object: lopdf::Object) -> Value;

/// Whether reading `bytes` can end in `outcome`: a document, or the error with
/// which the bytes are refused. For a file that gives two definitions of one
/// object the reader may take either, so one input can have several outcomes.
pub uninterp spec fn loads_as(bytes: Seq<u8>, outcome: Result<Pdf, LopdfError>) -> bool;

/// The bytes that a document is written as.
pub uninterp spec fn saved_bytes(pdf: Pdf) -> Seq<u8>;

/// Whether no document that differs from `pdf` in a literal string is written
/// as `bytes`.
pub open spec fn tells_texts_apart(bytes: Seq<u8>, pdf: Pdf) -> bool {
    forall|other: Pdf, id: ObjectId, i: int| #[trigger]
        differ_in_text(pdf, other, id, i) && other.savable() ==> bytes != saved_bytes(other)
}

/// `lopdf::Document::load_mem` reads a document from the bytes of a PDF
/// file. It refuses bytes without the header `%PDF-`. In a document that it
/// returns, `max_id` was raised to the highest object number, and a binary
/// mark with an ASCII byte was not taken over from the file. Which other bytes
/// are refused, and what document the rest give, is left to `loads_as`.
#[verifier::external_body]
pub(crate) fn load(bytes: &[u8]) -> (outcome: Result<lopdf::Document, LopdfError>)
    ensures
        match outcome {
            Ok(document) => {
                &&& loads_as(bytes@, Ok(pdf_of(document)))
                &&& holds(bytes@, encode_utf8("%PDF-"@))
                &&& pdf_of(document).well_formed()
            },
            Err(error) => loads_as(bytes@, Err(error)),
        },
{
    lopdf::Document::load_mem(bytes)
}

/// `lopdf::Document::save_to` writes a document. Into memory this fails only
/// where the binary mark holds an ASCII byte, or where a cross-reference
/// stream needs an object number and none is left. The bytes are decided by
/// the document's version, binary mark, objects, trailer, highest object
/// number and kind of cross-reference data alone. A dictionary object is
/// written out uncompressed, each key behind a slash and right before its
/// value, except one that describes the layout of the old file. Objects are
/// written in the order of their numbers, behind the header and the binary
/// mark. A literal string stands between parentheses with every backslash,
/// carriage return and unmatched parenthesis escaped, so where it ends and
/// what it holds can be told from the bytes, and no other value starts with a
/// parenthesis: two documents that are alike up to a literal string, where
/// they differ, are written as different bytes. Which error comes where the
/// document cannot be written is not said.
#[verifier::external_body]
pub(crate) fn save(document: lopdf::Document) -> (written: Result<Vec<u8>, IoError>)
    ensures
        written is Ok <==> pdf_of(document).savable(),
        written matches Ok(bytes) ==> bytes@ == saved_bytes(pdf_of(document))
            && shows_dictionaries(bytes@, pdf_of(document)) && tells_texts_apart(
            bytes@,
            pdf_of(document),
        ),
{
    let mut document = document;
    let mut bytes = Vec::new();
    document.save_to(&mut bytes)?;
    Ok(bytes)
}

/// The field `lopdf::Document::max_id`.
#[verifier::external_body]
pub(crate) fn max_id(document: &lopdf::Document) -> (id: u32)
    ensures
        id == pdf_of(*document).max_id,
{
    document.max_id
}

/// The field `lopdf::Document::trailer`, to be read.
#[verifier::external_body]
pub(crate) fn trailer(document: &lopdf::Document) -> (trailer: &lopdf::Dictionary)
    ensures
        entries_of(*trailer) == pdf_of(*document).trailer,
{
    &document.trailer
}

/// The field `lopdf::Document::trailer`, to be changed: what the dictionary
/// holds in the end is the trailer of the document, and nothing else in the
/// document changes.
#[verifier::external_body]
pub(crate) fn trailer_mut(document: &mut lopdf::Document) -> (trailer: &mut lopdf::Dictionary)
    ensures
        entries_of(*trailer) == pdf_of(*old(document)).trailer,
        pdf_of(*final(document)) == (Pdf {
            trailer: entries_of(*final(trailer)),
            ..pdf_of(*old(document))
        }),
{
    &mut document.trailer
}

/// The object `id` in the map `lopdf::Document::objects`, to be read, if it
/// is there and is a dictionary.
#[verifier::external_body]
pub(crate) fn dictionary(document: &lopdf::Document, id: ObjectId) -> (found: Option<
    &lopdf::Dictionary,
>)
    ensures
        match found {
            Some(dictionary) => pdf_of(*document).dictionary(id) == Some(entries_of(*dictionary)),
            None => pdf_of(*document).dictionary(id) is None,
        },
{
    match document.objects.get(&id) {
        Some(lopdf::Object::Dictionary(dictionary)) => Some(dictionary),
        _ => None,
    }
}

/// The object `id` in the map `lopdf::Document::objects`, to be changed, if
/// it is there and is a dictionary: what the dictionary holds in the end is
/// that object, and nothing else in the document changes.
#[verifier::external_body]
pub(crate) fn dictionary_mut(document: &mut lopdf::Document, id: ObjectId) -> (found: Option<
    &mut lopdf::Dictionary,
>)
    ensures
        match found {
            Some(dictionary) => {
                &&& pdf_of(*old(document)).dictionary(id) == Some(entries_of(*dictionary))
                &&& pdf_of(*final(document)) == pdf_of(*old(document)).with_object(
                    id,
                    Value::Dictionary(entries_of(*final(dictionary))),
                )
            },
            None => {
                &&& pdf_of(*old(document)).dictionary(id) is None
                &&& *final(document) == *old(document)
            },
        },
{
    match document.objects.get_mut(&id) {
        Some(lopdf::Object::Dictionary(dictionary)) => Some(dictionary),
        _ => None,
    }
}

/// `lopdf::Document::add_object` takes the number after `max_id` for a new
/// object of generation 0, here a dictionary. It panics where `max_id` is
/// `u32::MAX`.
#[verifier::external_body]
pub(crate) fn add_dictionary(
    document: &mut lopdf::Document,
    dictionary: lopdf::Dictionary,
) -> (id: ObjectId)
    requires
        pdf_of(*old(document)).max_id < u32::MAX,
    ensures
        id == pdf_of(*old(document)).next_id(),
        pdf_of(*final(document)) == pdf_of(*old(document)).with_new_object(
            Value::Dictionary(entries_of(dictionary)),
        ),
{
    document.add_object(dictionary)
}

/// `lopdf::Dictionary::new` is a dictionary without entries.
#[verifier::external_body]
pub(crate) fn new_dictionary() -> (dictionary: lopdf::Dictionary)
    ensures
        entries_of(dictionary) == Seq::<(Seq<u8>, Value)>::empty(),
{
    lopdf::Dictionary::new()
}

/// `<lopdf::Dictionary as Clone>::clone` copies a dictionary, entry for entry.
#[verifier::external_body]
pub(crate) fn copied(dictionary: &lopdf::Dictionary) -> (copy: lopdf::Dictionary)
    ensures
        entries_of(copy) == entries_of(*dictionary),
{
    dictionary.clone()
}

/// The dictionary in the variant `lopdf::Object::Dictionary`; there is none
/// in every other variant.
#[verifier::external_body]
pub(crate) fn direct_dictionary(object: &lopdf::Object) -> (found: Option<&lopdf::Dictionary>)
    ensures
        match found {
            Some(dictionary) => value_of(*object).dictionary() == Some(entries_of(*dictionary)),
            None => value_of(*object).dictionary() is None,
        },
{
    match object {
        lopdf::Object::Dictionary(dictionary) => Some(dictionary),
        _ => None,
    }
}

/// `lopdf::Dictionary::get` finds the value under a key.
#[verifier::external_body]
pub(crate) fn get<'a>(dictionary: &'a lopdf::Dictionary, name: &str) -> (found: Option<
    &'a lopdf::Object,
>)
    ensures
        match found {
            Some(object) => lookup(entries_of(*dictionary), name@) == Some(value_of(*object)),
            None => lookup(entries_of(*dictionary), name@) is None,
        },
{
    dictionary.get(name.as_bytes()).ok()
}

/// `lopdf::Dictionary::set` puts a value under a key: a key that is there
/// keeps its place, a new one comes last.
#[verifier::external_body]
pub(crate) fn put(dictionary: &mut lopdf::Dictionary, name: &str, object: lopdf::Object)
    ensures
        entries_of(*final(dictionary)) == set_entry(
            entries_of(*old(dictionary)),
            name@,
            value_of(object),
        ),
{
    dictionary.set(name, object)
}

/// `lopdf::Object::as_reference` is the identifier in a reference; it fails
/// on every other object.
#[verifier::external_body]
pub(crate) fn reference(object: &lopdf::Object) -> (id: Option<ObjectId>)
    ensures
        id == value_of(*object).reference(),
{
    object.as_reference().ok()
}

/// The variant `lopdf::Object::Reference`.
#[verifier::external_body]
pub(crate) fn reference_object(id: ObjectId) -> (object: lopdf::Object)
    ensures
        value_of(object) == Value::Reference(id),
{
    lopdf::Object::Reference(id)
}

/// `lopdf::Object::string_literal` holds a text as a literal string.
#[verifier::external_body]
pub(crate) fn text_object(text: &str) -> (object: lopdf::Object)
    ensures
        value_of(object) == text_value(text@),
{
    lopdf::Object::string_literal(text)
}

/// `<lopdf::Object as From<&str>>::from` spells a text as a name.
#[verifier::external_body]
pub(crate) fn name_object(text: &str) -> (object: lopdf::Object)
    ensures
        value_of(object) == name_value(text@),
{
    lopdf::Object::from(text)
}

} // verus!
