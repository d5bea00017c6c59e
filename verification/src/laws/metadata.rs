//! What the metadata stamp writes, and what it leaves alone.

use crate::laws::dictionary::{law_lookup_after_set, law_set_again};
use crate::metadata::{
    direct_info, info_id, metadata_stamped, set_text, stamp_key, stamped_email, stamped_entries, text_if,
    with_info, StampDates,
};
use crate::model::{lookup, text_value, Entries, Pdf, Value};
use crate::settings::{InvisibleMetadata, Recipient};
use vstd::prelude::*;

verus! {

/// What stands under the key `name` of the document's `/Info` dictionary,
/// which is an object that the trailer refers to or stands in the trailer
/// itself.
pub open spec fn info_entry(pdf: Pdf, name: Seq<char>) -> Option<Value> {
    match pdf.trailer_reference("Info"@) {
        Some(id) => match pdf.dictionary(id) {
            Some(entries) => lookup(entries, name),
            None => None,
        },
        None => lookup(direct_info(pdf), name),
    }
}

/// `text` as a literal string, or what stood there before where there is no
/// text.
pub open spec fn text_or(text: Option<Seq<char>>, before: Option<Value>) -> Option<Value> {
    match text {
        Some(text) => Some(text_value(text)),
        None => before,
    }
}

/// The keys of the stamp, spelled out, and that no two of the four keys that
/// a stamp writes are the same.
pub proof fn lemma_stamp_keys()
    ensures
        stamp_key("RecipientID"@) == "Stamp.RecipientID"@,
        stamp_key("RecipientEmail"@) == "Stamp.RecipientEmail"@,
        stamp_key("StampedAt"@) == "Stamp.StampedAt"@,
        "Stamp.RecipientID"@.len() == 17,
        "Stamp.RecipientEmail"@.len() == 20,
        "Stamp.StampedAt"@.len() == 15,
        "CreationDate"@.len() == 12,
{
    reveal_strlit("Stamp.");
    reveal_strlit("RecipientID");
    reveal_strlit("RecipientEmail");
    reveal_strlit("StampedAt");
    reveal_strlit("CreationDate");
    reveal_strlit("Stamp.RecipientID");
    reveal_strlit("Stamp.RecipientEmail");
    reveal_strlit("Stamp.StampedAt");
    assert(stamp_key("RecipientID"@) =~= "Stamp.RecipientID"@);
    assert(stamp_key("RecipientEmail"@) =~= "Stamp.RecipientEmail"@);
    assert(stamp_key("StampedAt"@) =~= "Stamp.StampedAt"@);
}

proof fn lemma_lookup_after_set_text(
    entries: Entries,
    name: Seq<char>,
    text: Option<Seq<char>>,
    other: Seq<char>,
)
    ensures
        lookup(set_text(entries, name, text), other) == if other == name {
            text_or(text, lookup(entries, name))
        } else {
            lookup(entries, other)
        },
{
    if let Some(text) = text {
        law_lookup_after_set(entries, name, text_value(text), other);
    }
}

/// What stands under a key after the stamp's entries were set.
pub proof fn lemma_stamped_lookup(
    entries: Entries,
    recipient: Recipient,
    flags: InvisibleMetadata,
    stamp_creation_date: bool,
    dates: StampDates,
    name: Seq<char>,
)
    ensures
        lookup(
            stamped_entries(entries, recipient, flags, stamp_creation_date, dates),
            name,
        ) == if name == "Stamp.RecipientID"@ {
            text_or(text_if(flags.recipient_id, recipient.identifier@), lookup(entries, name))
        } else if name == "Stamp.RecipientEmail"@ {
            text_or(stamped_email(recipient, flags), lookup(entries, name))
        } else if name == "Stamp.StampedAt"@ {
            text_or(text_if(flags.stamped_at, dates.stamped_at@), lookup(entries, name))
        } else if name == "CreationDate"@ {
            text_or(text_if(stamp_creation_date, dates.created_at@), lookup(entries, name))
        } else {
            lookup(entries, name)
        },
{
    lemma_stamp_keys();
    let id = text_if(flags.recipient_id, recipient.identifier@);
    let email = stamped_email(recipient, flags);
    let stamped_at = text_if(flags.stamped_at, dates.stamped_at@);
    let created_at = text_if(stamp_creation_date, dates.created_at@);
    let with_id = set_text(entries, stamp_key("RecipientID"@), id);
    let with_email = set_text(with_id, stamp_key("RecipientEmail"@), email);
    let with_date = set_text(with_email, stamp_key("StampedAt"@), stamped_at);
    lemma_lookup_after_set_text(entries, stamp_key("RecipientID"@), id, name);
    lemma_lookup_after_set_text(with_id, stamp_key("RecipientEmail"@), email, name);
    lemma_lookup_after_set_text(with_email, stamp_key("StampedAt"@), stamped_at, name);
    lemma_lookup_after_set_text(with_date, "CreationDate"@, created_at, name);
}

/// The `/Info` reference of a document that was made sure to have one.
pub proof fn lemma_with_info(pdf: Pdf)
    ensures
        with_info(pdf).trailer_reference("Info"@) == Some(info_id(pdf)),
        pdf.trailer_reference("Info"@) is None ==> with_info(pdf).dictionary(info_id(pdf)) == Some(
            direct_info(pdf),
        ),
{
    law_lookup_after_set(pdf.trailer, "Info"@, Value::Reference(pdf.next_id()), "Info"@);
}

/// A document takes the metadata stamp exactly where its trailer has no
/// `/Info` reference, or one that leads to a dictionary.
pub proof fn law_metadata_outcome(
    pdf: Pdf,
    recipient: Recipient,
    flags: InvisibleMetadata,
    stamp_creation_date: bool,
    dates: StampDates,
)
    ensures
        metadata_stamped(pdf, recipient, flags, stamp_creation_date, dates) is Ok <==> match
        pdf.trailer_reference("Info"@) {
            Some(id) => pdf.dictionary(id) is Some,
            None => true,
        },
{
    lemma_with_info(pdf);
}

/// After the metadata stamp the `/Info` dictionary holds the recipient's
/// identifier, email and dates as far as they were asked for, each as a
/// literal string under its own key; every other entry is as before.
pub proof fn law_metadata_is_written(
    pdf: Pdf,
    recipient: Recipient,
    flags: InvisibleMetadata,
    stamp_creation_date: bool,
    dates: StampDates,
    name: Seq<char>,
)
    requires
        metadata_stamped(pdf, recipient, flags, stamp_creation_date, dates) is Ok,
    ensures
        info_entry(
            metadata_stamped(pdf, recipient, flags, stamp_creation_date, dates)->Ok_0,
            name,
        ) == if name == "Stamp.RecipientID"@ {
            text_or(text_if(flags.recipient_id, recipient.identifier@), info_entry(pdf, name))
        } else if name == "Stamp.RecipientEmail"@ {
            text_or(stamped_email(recipient, flags), info_entry(pdf, name))
        } else if name == "Stamp.StampedAt"@ {
            text_or(text_if(flags.stamped_at, dates.stamped_at@), info_entry(pdf, name))
        } else if name == "CreationDate"@ {
            text_or(text_if(stamp_creation_date, dates.created_at@), info_entry(pdf, name))
        } else {
            info_entry(pdf, name)
        },
{
    lemma_with_info(pdf);
    let entries = with_info(pdf).dictionary(info_id(pdf))->0;
    lemma_stamped_lookup(entries, recipient, flags, stamp_creation_date, dates, name);
}

/// The metadata stamp changes no object but the `/Info` dictionary, and
/// nothing else in the document but the trailer's `/Info` reference where
/// there was none and the object number that this took.
pub proof fn law_metadata_leaves_the_rest(
    pdf: Pdf,
    recipient: Recipient,
    flags: InvisibleMetadata,
    stamp_creation_date: bool,
    dates: StampDates,
)
    requires
        metadata_stamped(pdf, recipient, flags, stamp_creation_date, dates) is Ok,
    ensures
        ({
            let stamped = metadata_stamped(
                pdf,
                recipient,
                flags,
                stamp_creation_date,
                dates,
            )->Ok_0;
            &&& stamped.objects.remove(info_id(pdf)) == pdf.objects.remove(info_id(pdf))
            &&& forall|name: Seq<char>|
                name != "Info"@ ==> #[trigger] lookup(stamped.trailer, name) == lookup(
                    pdf.trailer,
                    name,
                )
            &&& stamped.version == pdf.version
            &&& stamped.binary_mark == pdf.binary_mark
            &&& stamped.cross_reference_stream == pdf.cross_reference_stream
            &&& pdf.trailer_reference("Info"@) is Some ==> stamped.trailer == pdf.trailer
                && stamped.max_id == pdf.max_id
            &&& pdf.trailer_reference("Info"@) is None ==> stamped.max_id == pdf.next_id().0
        }),
{
    let stamped = metadata_stamped(pdf, recipient, flags, stamp_creation_date, dates)->Ok_0;
    assert(stamped.objects.remove(info_id(pdf)) =~= pdf.objects.remove(info_id(pdf)));
    assert forall|name: Seq<char>| name != "Info"@ implies #[trigger] lookup(stamped.trailer, name)
        == lookup(pdf.trailer, name) by {
        law_lookup_after_set(pdf.trailer, "Info"@, Value::Reference(pdf.next_id()), name);
    }
}

/// A stamp that asks for nothing leaves a document with an `/Info` dictionary
/// as it is.
pub proof fn law_empty_stamp_changes_nothing(
    pdf: Pdf,
    recipient: Recipient,
    flags: InvisibleMetadata,
    dates: StampDates,
)
    requires
        !flags.recipient_id,
        !flags.recipient_email,
        !flags.stamped_at,
        pdf.trailer_reference("Info"@) matches Some(id) && pdf.dictionary(id) is Some,
    ensures
        metadata_stamped(pdf, recipient, flags, false, dates) == Ok::<Pdf, Seq<char>>(pdf),
{
    let id = info_id(pdf);
    assert(pdf.objects.insert(id, pdf.objects[id]) =~= pdf.objects);
}

proof fn lemma_set_text_again(entries: Entries, name: Seq<char>, text: Option<Seq<char>>)
    requires
        text matches Some(text) ==> lookup(entries, name) == Some(text_value(text)),
    ensures
        set_text(entries, name, text) == entries,
{
    if let Some(text) = text {
        law_set_again(entries, name, text_value(text));
    }
}

/// To stamp a document twice for the same recipient, with the same dates, is
/// to stamp it once.
pub proof fn law_stamp_again_changes_nothing(
    pdf: Pdf,
    recipient: Recipient,
    flags: InvisibleMetadata,
    stamp_creation_date: bool,
    dates: StampDates,
)
    requires
        metadata_stamped(pdf, recipient, flags, stamp_creation_date, dates) is Ok,
    ensures
        metadata_stamped(
            metadata_stamped(pdf, recipient, flags, stamp_creation_date, dates)->Ok_0,
            recipient,
            flags,
            stamp_creation_date,
            dates,
        ) == metadata_stamped(pdf, recipient, flags, stamp_creation_date, dates),
{
    lemma_stamp_keys();
    lemma_with_info(pdf);
    let id = info_id(pdf);
    let before = with_info(pdf).dictionary(id)->0;
    let once = stamped_entries(before, recipient, flags, stamp_creation_date, dates);
    lemma_stamped_lookup(
        before,
        recipient,
        flags,
        stamp_creation_date,
        dates,
        stamp_key("RecipientID"@),
    );
    lemma_stamped_lookup(
        before,
        recipient,
        flags,
        stamp_creation_date,
        dates,
        stamp_key("RecipientEmail"@),
    );
    lemma_stamped_lookup(
        before,
        recipient,
        flags,
        stamp_creation_date,
        dates,
        stamp_key("StampedAt"@),
    );
    lemma_stamped_lookup(before, recipient, flags, stamp_creation_date, dates, "CreationDate"@);
    lemma_set_text_again(
        once,
        stamp_key("RecipientID"@),
        text_if(flags.recipient_id, recipient.identifier@),
    );
    lemma_set_text_again(once, stamp_key("RecipientEmail"@), stamped_email(recipient, flags));
    lemma_set_text_again(
        once,
        stamp_key("StampedAt"@),
        text_if(flags.stamped_at, dates.stamped_at@),
    );
    lemma_set_text_again(
        once,
        "CreationDate"@,
        text_if(stamp_creation_date, dates.created_at@),
    );
    assert(stamped_entries(once, recipient, flags, stamp_creation_date, dates) == once);
    let stamped = with_info(pdf).with_object(id, Value::Dictionary(once));
    assert(stamped.trailer_reference("Info"@) == Some(id));
    assert(stamped.objects.insert(id, Value::Dictionary(once)) =~= stamped.objects);
}

} // verus!
