//! Invisible metadata: who a copy was made for, and when, in the document's
//! `/Info` dictionary.

use crate::document::{
    add_dictionary, copied, dictionary_mut, direct_dictionary, entries_of, get, new_dictionary,
    pdf_of, put, reference, reference_object, text_object, trailer, trailer_mut,
};
use crate::model::{lookup, set_entry, text_value, Entries, ObjectId, Pdf, Value};
use crate::settings::{Error, InvisibleMetadata, Recipient};
use vstd::prelude::*;
use vstd::string::StringExecFns;

verus! {

/// What the keys of the stamp's own entries start with.
pub const META_PREFIX: &'static str = "Stamp.";

/// The error where `/Info` leads to something else than a dictionary.
pub const INFO_NOT_A_DICTIONARY: &'static str = "/Info reference does not point at a dictionary";

/// The dates of one stamp, as texts.
#[derive(Debug)]
pub struct StampDates {
    /// When the stamp was made, for `Stamp.StampedAt`.
    pub stamped_at: String,
    /// The new creation date, for `CreationDate`.
    pub created_at: String,
}

/// The key of the stamp's entry `field`.
pub open spec fn stamp_key(field: Seq<char>) -> Seq<char> {
    META_PREFIX@ + field
}

/// The identifier of the document's `/Info` dictionary: the one that the
/// trailer refers to, or that of a new object where it refers to none.
pub open spec fn info_id(pdf: Pdf) -> ObjectId {
    match pdf.trailer_reference("Info"@) {
        Some(id) => id,
        None => pdf.next_id(),
    }
}

/// The entries of an `/Info` dictionary that stands in the trailer itself;
/// none where there is no such dictionary.
pub open spec fn direct_info(pdf: Pdf) -> Entries {
    match lookup(pdf.trailer, "Info"@) {
        Some(Value::Dictionary(entries)) => entries,
        _ => Seq::empty(),
    }
}

/// The document with an `/Info` reference in its trailer; where there was
/// none, it leads to a new dictionary with the entries of the one that stood
/// in the trailer itself.
pub open spec fn with_info(pdf: Pdf) -> Pdf {
    if pdf.trailer_reference("Info"@) is Some {
        pdf
    } else {
        pdf.with_new_object(Value::Dictionary(direct_info(pdf))).with_trailer_entry(
            "Info"@,
            Value::Reference(pdf.next_id()),
        )
    }
}

/// `entries` with `text` under the key `name` if there is a text.
pub open spec fn set_text(entries: Entries, name: Seq<char>, text: Option<Seq<char>>) -> Entries {
    match text {
        Some(text) => set_entry(entries, name, text_value(text)),
        None => entries,
    }
}

/// `value` if `condition` holds.
pub open spec fn text_if(condition: bool, value: Seq<char>) -> Option<Seq<char>> {
    if condition {
        Some(value)
    } else {
        None
    }
}

/// The email to be stamped: the recipient's, if there is one and the flag is
/// set.
pub open spec fn stamped_email(recipient: Recipient, flags: InvisibleMetadata) -> Option<
    Seq<char>,
> {
    match recipient.email {
        Some(email) => text_if(flags.recipient_email, email@),
        None => None,
    }
}

/// The entries of the `/Info` dictionary after the stamp.
pub open spec fn stamped_entries(
    entries: Entries,
    recipient: Recipient,
    flags: InvisibleMetadata,
    stamp_creation_date: bool,
    dates: StampDates,
) -> Entries {
    let with_id = set_text(
        entries,
        stamp_key("RecipientID"@),
        text_if(flags.recipient_id, recipient.identifier@),
    );
    let with_email = set_text(
        with_id,
        stamp_key("RecipientEmail"@),
        stamped_email(recipient, flags),
    );
    let with_date = set_text(
        with_email,
        stamp_key("StampedAt"@),
        text_if(flags.stamped_at, dates.stamped_at@),
    );
    set_text(with_date, "CreationDate"@, text_if(stamp_creation_date, dates.created_at@))
}

/// The document after the metadata stamp, or the reason why it cannot take
/// one.
pub open spec fn metadata_stamped(
    pdf: Pdf,
    recipient: Recipient,
    flags: InvisibleMetadata,
    stamp_creation_date: bool,
    dates: StampDates,
) -> Result<Pdf, Seq<char>> {
    match with_info(pdf).dictionary(info_id(pdf)) {
        Some(entries) => Ok(
            with_info(pdf).with_object(
                info_id(pdf),
                Value::Dictionary(
                    stamped_entries(entries, recipient, flags, stamp_creation_date, dates),
                ),
            ),
        ),
        None => Err(INFO_NOT_A_DICTIONARY@),
    }
}

/// The object that the trailer's entry `name` refers to.
pub(crate) fn trailer_reference(document: &lopdf::Document, name: &str) -> (id: Option<ObjectId>)
    ensures
        id == pdf_of(*document).trailer_reference(name@),
{
    match get(trailer(document), name) {
        Some(object) => reference(object),
        None => None,
    }
}

/// A copy of the `/Info` dictionary that stands in the trailer itself, or an
/// empty dictionary.
fn copied_direct_info(document: &lopdf::Document) -> (info: lopdf::Dictionary)
    ensures
        entries_of(info) == direct_info(pdf_of(*document)),
{
    match get(trailer(document), "Info") {
        Some(object) => match direct_dictionary(object) {
            Some(info) => copied(info),
            None => new_dictionary(),
        },
        None => new_dictionary(),
    }
}

/// Make sure that the trailer refers to an `/Info` object.
fn ensure_info(document: &mut lopdf::Document) -> (id: ObjectId)
    requires
        pdf_of(*old(document)).trailer_reference("Info"@) is None ==> pdf_of(
            *old(document),
        ).max_id < u32::MAX,
    ensures
        id == info_id(pdf_of(*old(document))),
        pdf_of(*final(document)) == with_info(pdf_of(*old(document))),
{
    match trailer_reference(document, "Info") {
        Some(id) => id,
        None => {
            let info = copied_direct_info(document);
            let id = add_dictionary(document, info);
            put(trailer_mut(document), "Info", reference_object(id));
            id
        },
    }
}

/// Put the key `field`, after the stamp's prefix, into a dictionary.
fn set_stamp(dictionary: &mut lopdf::Dictionary, field: &str, text: &str)
    ensures
        entries_of(*final(dictionary)) == set_entry(
            entries_of(*old(dictionary)),
            stamp_key(field@),
            text_value(text@),
        ),
{
    let mut key = META_PREFIX.to_string();
    key.append(field);
    put(dictionary, key.as_str(), text_object(text));
}

/// Write the metadata that `flags` asks for into the document's `/Info`
/// dictionary, which is added where there is none. One that stands in the
/// trailer itself becomes an object and keeps its entries.
pub fn apply_invisible_metadata(
    document: &mut lopdf::Document,
    recipient: &Recipient,
    flags: &InvisibleMetadata,
    stamp_creation_date: bool,
    dates: &StampDates,
) -> (outcome: Result<(), Error>)
    requires
        pdf_of(*old(document)).trailer_reference("Info"@) is None ==> pdf_of(
            *old(document),
        ).max_id < u32::MAX,
    ensures
        match metadata_stamped(
            pdf_of(*old(document)),
            *recipient,
            *flags,
            stamp_creation_date,
            *dates,
        ) {
            Ok(stamped) => outcome is Ok && pdf_of(*final(document)) == stamped,
            Err(reason) => {
                &&& outcome matches Err(Error::Structure(message)) && message@ == reason
                &&& pdf_of(*final(document)) == pdf_of(*old(document))
            },
        },
{
    let id = ensure_info(document);
    let info = match dictionary_mut(document, id) {
        Some(info) => info,
        None => {
            return Err(Error::Structure(INFO_NOT_A_DICTIONARY));
        },
    };
    if flags.recipient_id {
        set_stamp(info, "RecipientID", recipient.identifier.as_str());
    }
    if flags.recipient_email {
        if let Some(email) = &recipient.email {
            set_stamp(info, "RecipientEmail", email.as_str());
        }
    }
    if flags.stamped_at {
        set_stamp(info, "StampedAt", dates.stamped_at.as_str());
    }
    if stamp_creation_date {
        put(info, "CreationDate", text_object(dates.created_at.as_str()));
    }
    Ok(())
}

} // verus!
